//! Configuration: the backends this build knows, the enabled-source
//! selection, and the directory fallbacks.

use vstd::prelude::*;

use crate::util::vec_contains_string;

verus! {

/// The characters of the Google Fonts backend's identifier.
pub open spec fn google_fonts_id_token() -> Seq<char> {
    seq!['g', 'o', 'o', 'g', 'l', 'e', '-', 'f', 'o', 'n', 't', 's']
}

/// The identifier of the Google Fonts backend.
pub fn google_fonts_id() -> (r: &'static str)
    ensures
        r@ == google_fonts_id_token(),
{
    proof {
        reveal_strlit("google-fonts");
        assert("google-fonts"@ =~= google_fonts_id_token());
    }
    "google-fonts"
}

/// The characters of the Google Fonts backend's display name.
pub open spec fn google_fonts_name_token() -> Seq<char> {
    seq!['G', 'o', 'o', 'g', 'l', 'e', ' ', 'F', 'o', 'n', 't', 's']
}

/// The display name of the Google Fonts backend.
pub fn google_fonts_name() -> (r: &'static str)
    ensures
        r@ == google_fonts_name_token(),
{
    proof {
        reveal_strlit("Google Fonts");
        assert("Google Fonts"@ =~= google_fonts_name_token());
    }
    "Google Fonts"
}

/// Whether an identifier names a backend this build provides.
pub open spec fn spec_known_source(id: Seq<char>) -> bool {
    id == google_fonts_id_token()
}

pub fn is_known_source(id: &String) -> (r: bool)
    ensures
        r == spec_known_source(id@),
{
    crate::util::str_eq(id.as_str(), google_fonts_id())
}

/// The identifiers of the backends enabled by default: every backend this
/// build provides.
pub fn sources() -> (r: Vec<String>)
    ensures
        r.deep_view() =~= seq![google_fonts_id_token()],
{
    let mut r: Vec<String> = Vec::new();
    r.push(String::from_str(google_fonts_id()));
    proof {
        assert(r.deep_view() =~= seq![google_fonts_id_token()]);
    }
    r
}

/// The user's configuration: which sources are enabled, in priority order,
/// and where cached and installed files go.
#[derive(PartialEq, Eq, Clone, Debug)]
pub struct FpmConfig {
    pub enabled_sources: Vec<String>,
    pub cache_dir: Option<String>,
    pub font_install_dir: Option<String>,
}

impl FpmConfig {
    /// The cache directory: the configured one, or the caller's platform
    /// default.
    pub fn cache_dir_or(&self, default: String) -> (r: String)
        ensures
            r@ == match self.cache_dir {
                Some(d) => d@,
                None => default@,
            },
    {
        match &self.cache_dir {
            Some(d) => d.clone(),
            None => default,
        }
    }

    /// The font installation directory: the configured one, or the caller's
    /// platform default.
    pub fn font_install_dir_or(&self, default: String) -> (r: String)
        ensures
            r@ == match self.font_install_dir {
                Some(d) => d@,
                None => default@,
            },
    {
        match &self.font_install_dir {
            Some(d) => d.clone(),
            None => default,
        }
    }
}

impl Default for FpmConfig {
    /// Every provided backend enabled, both directories left to their
    /// platform defaults.
    fn default() -> (r: Self)
        ensures
            r.enabled_sources.deep_view() =~= seq![google_fonts_id_token()],
            r.cache_dir is None,
            r.font_install_dir is None,
    {
        FpmConfig { enabled_sources: sources(), cache_dir: None, font_install_dir: None }
    }
}

/// Whether one enabled source survives the caller's restriction: it must be
/// in the restriction when one was given, and name a backend this build
/// provides.
pub open spec fn spec_keep_source(id: Seq<char>, only: Seq<Seq<char>>) -> bool {
    (only.len() == 0 || only.contains(id)) && spec_known_source(id)
}

/// The enabled sources that survive the restriction, in priority order.
pub open spec fn spec_selected(enabled: Seq<Seq<char>>, only: Seq<Seq<char>>) -> Seq<Seq<char>>
    decreases enabled.len(),
{
    if enabled.len() == 0 {
        Seq::empty()
    } else {
        let rest = spec_selected(enabled.drop_last(), only);
        if spec_keep_source(enabled.last(), only) {
            rest.push(enabled.last())
        } else {
            rest
        }
    }
}

/// The view of an optional restriction: no restriction reads as the empty
/// list.
pub open spec fn spec_only_view(only: Option<Vec<String>>) -> Seq<Seq<char>> {
    match only {
        Some(o) => o.deep_view(),
        None => Seq::empty(),
    }
}

/// Of the enabled sources, those the caller's restriction keeps and this
/// build provides, in their configured priority order.
pub fn select_sources(enabled: &Vec<String>, only: &Option<Vec<String>>) -> (r: Vec<String>)
    ensures
        r.deep_view() == spec_selected(enabled.deep_view(), spec_only_view(*only)),
{
    let empty_restriction: Vec<String> = Vec::new();
    let only_list: &Vec<String> = match only {
        Some(o) => o,
        None => &empty_restriction,
    };
    let ghost edv = enabled.deep_view();
    let ghost odv = spec_only_view(*only);
    proof {
        assert(only_list.deep_view() =~= odv);
    }
    let mut r: Vec<String> = Vec::new();
    let ghost mut acc: Seq<Seq<char>> = Seq::empty();
    let mut i: usize = 0;
    while i < enabled.len()
        invariant
            0 <= i <= enabled.len(),
            edv == enabled.deep_view(),
            edv.len() == enabled.len(),
            forall|k: int| 0 <= k < edv.len() ==> #[trigger] edv[k] == enabled@[k]@,
            only_list.deep_view() == odv,
            spec_selected(edv.subrange(0, i as int), odv) == acc,
            r@.len() == acc.len(),
            forall|k: int| 0 <= k < acc.len() ==> #[trigger] r@[k]@ == acc[k],
        decreases enabled.len() - i,
    {
        proof {
            assert(edv.subrange(0, i + 1).drop_last() =~= edv.subrange(0, i as int));
            assert(edv.subrange(0, i + 1).last() == edv[i as int]);
        }
        let id = &enabled[i];
        let keep = (only_list.len() == 0 || vec_contains_string(only_list, id))
            && is_known_source(id);
        if keep {
            r.push(id.clone());
            proof {
                acc = acc.push(edv[i as int]);
            }
        }
        i = i + 1;
    }
    proof {
        assert(edv.subrange(0, edv.len() as int) =~= edv);
        assert forall|k: int| 0 <= k < acc.len() implies #[trigger] r.deep_view()[k] == acc[k] by {
            assert(r@[k]@ == acc[k]);
        }
        assert(r.deep_view() =~= acc);
    }
    r
}

} // verus!
