//! The persisted catalog model: families with their variants, files and
//! tags, and the lookups the resolver and the tag search run against it.

use vstd::prelude::*;

use crate::codec::{spec_parse_variant, string_to_variant};
use crate::error::Error;
use crate::font::{DefinedFontInstallSpec, DefinedFontVariantSpec};
use crate::util::{str_eq, vec_contains_string};

verus! {

/// One catalog family: identifier, display data, its concrete variants and
/// the remote file of each variant.
#[derive(PartialEq, Eq, Clone, Debug)]
pub struct FontDescription {
    pub id: String,
    pub display_name: String,
    pub version: i32,
    pub tags: Vec<String>,
    pub last_modified: u64,
    /// Variant string to remote location, as the catalog lists them.
    pub files: Vec<(String, String)>,
    /// The canonical strings of the family's concrete variants.
    pub variants: Vec<String>,
}

/// The first family of `fams` whose identifier reads `id`.
pub open spec fn find_family(fams: Seq<FontDescription>, id: Seq<char>) -> Option<FontDescription>
    decreases fams.len(),
{
    if fams.len() == 0 {
        None
    } else if fams[0].id@ == id {
        Some(fams[0])
    } else {
        find_family(fams.drop_first(), id)
    }
}

/// The identifiers of the families, in catalog order.
pub open spec fn family_ids(fams: Seq<FontDescription>) -> Seq<Seq<char>> {
    fams.map_values(|f: FontDescription| f.id@)
}

/// The family list recorded for `tag`, or empty when the tag is unknown.
pub open spec fn find_tag(entries: Seq<(String, Vec<String>)>, tag: Seq<char>) -> Seq<Seq<char>>
    decreases entries.len(),
{
    if entries.len() == 0 {
        Seq::empty()
    } else if entries[0].0@ == tag {
        entries[0].1.deep_view()
    } else {
        find_tag(entries.drop_first(), tag)
    }
}

/// The remote location the catalog lists under `name`.
pub open spec fn find_file(files: Seq<(String, String)>, name: Seq<char>) -> Option<Seq<char>>
    decreases files.len(),
{
    if files.len() == 0 {
        None
    } else if files[0].0@ == name {
        Some(files[0].1@)
    } else {
        find_file(files.drop_first(), name)
    }
}

/// Look up the remote location of a variant by its canonical name.
pub fn lookup_file<'a>(files: &'a Vec<(String, String)>, name: &String) -> (r: Option<
    &'a String,
>)
    ensures
        match r {
            Some(u) => find_file(files@, name@) == Some(u@),
            None => find_file(files@, name@) is None,
        },
{
    proof {
        assert(files@.subrange(0, files@.len() as int) =~= files@);
    }
    let mut i: usize = 0;
    while i < files.len()
        invariant
            0 <= i <= files.len(),
            find_file(files@, name@) == find_file(
                files@.subrange(i as int, files@.len() as int),
                name@,
            ),
        decreases files.len() - i,
    {
        proof {
            let suffix = files@.subrange(i as int, files@.len() as int);
            assert(suffix[0] == files@[i as int]);
            assert(suffix.drop_first() =~= files@.subrange(i + 1, files@.len() as int));
        }
        if str_eq(files[i].0.as_str(), name.as_str()) {
            return Some(&files[i].1);
        }
        i = i + 1;
    }
    proof {
        assert(files@.subrange(files@.len() as int, files@.len() as int) =~= Seq::<(
            String,
            String,
        )>::empty());
    }
    None
}

/// Copy a list of strings, character for character.
pub fn clone_string_vec(v: &Vec<String>) -> (r: Vec<String>)
    ensures
        r.deep_view() == v.deep_view(),
{
    let mut r: Vec<String> = Vec::new();
    let mut i: usize = 0;
    while i < v.len()
        invariant
            0 <= i <= v.len(),
            r@.len() == i,
            forall|k: int| 0 <= k < i ==> #[trigger] r@[k]@ == v@[k]@,
        decreases v.len() - i,
    {
        r.push(v[i].clone());
        i = i + 1;
    }
    proof {
        assert forall|k: int| 0 <= k < v@.len() implies #[trigger] r.deep_view()[k]
            == v.deep_view()[k] by {
            assert(r@[k]@ == v@[k]@);
        }
        assert(r.deep_view() =~= v.deep_view());
    }
    r
}

/// The variant specs denoted by a list of variant strings: all of them
/// parsed, or nothing as soon as one fails.
pub open spec fn spec_parse_all(vs: Seq<Seq<char>>) -> Option<Seq<DefinedFontVariantSpec>>
    decreases vs.len(),
{
    if vs.len() == 0 {
        Some(Seq::empty())
    } else {
        match spec_parse_variant(vs.last()) {
            None => None,
            Some(v) => match spec_parse_all(vs.drop_last()) {
                None => None,
                Some(rest) => Some(rest.push(v)),
            },
        }
    }
}

proof fn lemma_parse_all_none(vs: Seq<Seq<char>>, i: int)
    requires
        0 <= i < vs.len(),
        spec_parse_variant(vs[i]) is None,
    ensures
        spec_parse_all(vs) is None,
    decreases vs.len(),
{
    if i < vs.len() - 1 {
        assert(vs.drop_last()[i] == vs[i]);
        lemma_parse_all_none(vs.drop_last(), i);
    }
}

impl FontDescription {
    /// The concrete install spec this family describes: its identifier with
    /// every variant string parsed; a deserialisation error as soon as one
    /// variant string is malformed.
    pub fn install_spec(&self) -> (r: Result<DefinedFontInstallSpec, Error>)
        ensures
            match r {
                Ok(inst) => spec_parse_all(self.variants.deep_view()) == Some(inst.styles@)
                    && inst.id@ == self.id@,
                Err(e) => spec_parse_all(self.variants.deep_view()) is None
                    && e is Deserialisation,
            },
    {
        let ghost dv = self.variants.deep_view();
        let mut styles: Vec<DefinedFontVariantSpec> = Vec::new();
        let mut i: usize = 0;
        while i < self.variants.len()
            invariant
                0 <= i <= self.variants.len(),
                dv == self.variants.deep_view(),
                dv.len() == self.variants.len(),
                forall|k: int| 0 <= k < dv.len() ==> #[trigger] dv[k] == self.variants@[k]@,
                spec_parse_all(dv.subrange(0, i as int)) == Some(styles@),
            decreases self.variants.len() - i,
        {
            proof {
                assert(dv.subrange(0, i + 1).drop_last() =~= dv.subrange(0, i as int));
                assert(dv.subrange(0, i + 1).last() == dv[i as int]);
            }
            match string_to_variant(self.variants[i].as_str()) {
                Ok(v) => {
                    styles.push(v);
                },
                Err(e) => {
                    proof {
                        lemma_parse_all_none(dv, i as int);
                    }
                    return Err(e);
                },
            }
            i = i + 1;
        }
        proof {
            assert(dv.subrange(0, dv.len() as int) =~= dv);
        }
        Ok(DefinedFontInstallSpec { id: self.id.clone(), styles })
    }
}

/// Pairwise distinct family identifiers.
pub open spec fn unique_family_ids(fams: Seq<FontDescription>) -> bool {
    forall|i: int, j: int|
        0 <= i < j < fams.len() ==> #[trigger] fams[i].id@ != #[trigger] fams[j].id@
}

/// Pairwise distinct tag keys.
pub open spec fn unique_tag_keys(entries: Seq<(String, Vec<String>)>) -> bool {
    forall|i: int, j: int|
        0 <= i < j < entries.len() ==> #[trigger] entries[i].0@ != #[trigger] entries[j].0@
}

/// The catalog snapshot a source persists: its families and its tag index.
/// Both are keyed collections: family identifiers and tag keys are unique,
/// as the maps the catalog is read from guarantee.
#[derive(PartialEq, Eq, Debug)]
pub struct Data {
    families: Vec<FontDescription>,
    tags: Vec<(String, Vec<String>)>,
}

impl Data {
    /// The families, in catalog order.
    pub closed spec fn spec_families(self) -> Seq<FontDescription> {
        self.families@
    }

    /// The tag index.
    pub closed spec fn spec_tags(self) -> Seq<(String, Vec<String>)> {
        self.tags@
    }

    /// Validity: no two families share an identifier and no two tag
    /// entries share a key.
    #[verifier::type_invariant]
    pub open spec fn wf(self) -> bool {
        unique_family_ids(self.spec_families()) && unique_tag_keys(self.spec_tags())
    }

    /// The family list recorded for a tag, empty when the tag is unknown.
    pub open spec fn spec_families_with_tag(self, tag: Seq<char>) -> Seq<Seq<char>> {
        find_tag(self.spec_tags(), tag)
    }

    /// Whether the family named `id` exists and carries `tag` in its own tag
    /// list.
    pub open spec fn spec_family_has_tag(self, id: Seq<char>, tag: Seq<char>) -> bool {
        match find_family(self.spec_families(), id) {
            Some(f) => f.tags.deep_view().contains(tag),
            None => false,
        }
    }

    pub fn new(families: Vec<FontDescription>, tags: Vec<(String, Vec<String>)>) -> (r: Data)
        requires
            unique_family_ids(families@),
            unique_tag_keys(tags@),
        ensures
            r.spec_families() == families@,
            r.spec_tags() == tags@,
    {
        Data { families, tags }
    }

    /// The first family with the given identifier — by the uniqueness of
    /// identifiers, the only one.
    pub fn get_family(&self, id: &String) -> (r: Option<&FontDescription>)
        ensures
            match r {
                Some(f) => find_family(self.spec_families(), id@) == Some(*f),
                None => find_family(self.spec_families(), id@) is None,
            },
    {
        proof {
            assert(self.families@.subrange(0, self.families@.len() as int) =~= self.families@);
        }
        let mut i: usize = 0;
        while i < self.families.len()
            invariant
                0 <= i <= self.families.len(),
                find_family(self.families@, id@) == find_family(
                    self.families@.subrange(i as int, self.families@.len() as int),
                    id@,
                ),
            decreases self.families.len() - i,
        {
            proof {
                let suffix = self.families@.subrange(i as int, self.families@.len() as int);
                assert(suffix[0] == self.families@[i as int]);
                assert(suffix.drop_first() =~= self.families@.subrange(
                    i + 1,
                    self.families@.len() as int,
                ));
            }
            if str_eq(self.families[i].id.as_str(), id.as_str()) {
                return Some(&self.families[i]);
            }
            i = i + 1;
        }
        proof {
            assert(self.families@.subrange(self.families@.len() as int, self.families@.len() as int)
                =~= Seq::<FontDescription>::empty());
        }
        None
    }

    /// Every family identifier, in catalog order, each exactly once.
    pub fn get_all_families(&self) -> (r: Vec<String>)
        ensures
            r.deep_view() == family_ids(self.spec_families()),
            r.deep_view().no_duplicates(),
    {
        proof {
            use_type_invariant(self);
            let ids = family_ids(self.spec_families());
            assert forall|i: int, j: int|
                0 <= i < ids.len() && 0 <= j < ids.len() && i != j implies ids[i] != ids[j] by {
                if i < j {
                    assert(self.spec_families()[i].id@ != self.spec_families()[j].id@);
                } else {
                    assert(self.spec_families()[j].id@ != self.spec_families()[i].id@);
                }
            }
            assert(ids.no_duplicates());
        }
        let mut r: Vec<String> = Vec::new();
        let mut i: usize = 0;
        while i < self.families.len()
            invariant
                0 <= i <= self.families.len(),
                r@.len() == i,
                forall|k: int| 0 <= k < i ==> #[trigger] r@[k]@ == self.families@[k].id@,
            decreases self.families.len() - i,
        {
            r.push(self.families[i].id.clone());
            i = i + 1;
        }
        proof {
            assert forall|k: int| 0 <= k < self.families@.len() implies #[trigger] r.deep_view()[k]
                == family_ids(self.families@)[k] by {
                assert(r@[k]@ == self.families@[k].id@);
            }
            assert(r.deep_view() =~= family_ids(self.families@));
        }
        r
    }

    /// The family list recorded for `tag` in the tag index.
    pub fn get_all_families_with_tag(&self, tag: &String) -> (r: Vec<String>)
        ensures
            r.deep_view() == self.spec_families_with_tag(tag@),
    {
        proof {
            assert(self.tags@.subrange(0, self.tags@.len() as int) =~= self.tags@);
        }
        let mut i: usize = 0;
        while i < self.tags.len()
            invariant
                0 <= i <= self.tags.len(),
                find_tag(self.tags@, tag@) == find_tag(
                    self.tags@.subrange(i as int, self.tags@.len() as int),
                    tag@,
                ),
            decreases self.tags.len() - i,
        {
            proof {
                let suffix = self.tags@.subrange(i as int, self.tags@.len() as int);
                assert(suffix[0] == self.tags@[i as int]);
                assert(suffix.drop_first() =~= self.tags@.subrange(i + 1, self.tags@.len() as int));
            }
            if str_eq(self.tags[i].0.as_str(), tag.as_str()) {
                return clone_string_vec(&self.tags[i].1);
            }
            i = i + 1;
        }
        proof {
            assert(self.tags@.subrange(self.tags@.len() as int, self.tags@.len() as int) =~= Seq::<
                (String, Vec<String>),
            >::empty());
        }
        Vec::new()
    }

    /// The tag the search narrows by first: walking `tags` from position `i`
    /// with the best candidate so far, the first tag whose recorded family
    /// list is strictly shorter than every earlier one.
    pub open spec fn spec_best_tag(
        self,
        tags: Seq<Seq<char>>,
        i: int,
        best: Seq<char>,
        best_len: nat,
    ) -> Seq<char>
        decreases tags.len() - i,
    {
        if i < 0 || i >= tags.len() {
            best
        } else {
            let l = self.spec_families_with_tag(tags[i]).len();
            if l < best_len {
                self.spec_best_tag(tags, i + 1, tags[i], l)
            } else {
                self.spec_best_tag(tags, i + 1, best, best_len)
            }
        }
    }

    /// The tag the search starts from, over the whole tag list.
    pub open spec fn spec_smallest_tag(self, tags: Seq<Seq<char>>) -> Seq<char> {
        self.spec_best_tag(tags, 0, Seq::empty(), usize::MAX as nat)
    }

    /// Whether the family named `id` carries every requested tag, the
    /// narrowing tag excepted (its members carry it by construction of the
    /// tag index).
    pub open spec fn spec_matches_all_tags(
        self,
        id: Seq<char>,
        tags: Seq<Seq<char>>,
        smallest: Seq<char>,
    ) -> bool {
        forall|j: int|
            0 <= j < tags.len() ==> (#[trigger] tags[j]) == smallest || self.spec_family_has_tag(
                id,
                tags[j],
            )
    }

    fn matches_all_tags(&self, id: &String, tags: &Vec<String>, smallest: &String) -> (r: bool)
        ensures
            r == self.spec_matches_all_tags(id@, tags.deep_view(), smallest@),
    {
        let ghost dv = tags.deep_view();
        let mut j: usize = 0;
        while j < tags.len()
            invariant
                0 <= j <= tags.len(),
                dv == tags.deep_view(),
                dv.len() == tags.len(),
                forall|k: int| 0 <= k < dv.len() ==> #[trigger] dv[k] == tags@[k]@,
                forall|k: int|
                    0 <= k < j ==> (#[trigger] dv[k]) == smallest@ || self.spec_family_has_tag(
                        id@,
                        dv[k],
                    ),
            decreases tags.len() - j,
        {
            if !str_eq(tags[j].as_str(), smallest.as_str()) {
                let family_has = match self.get_family(id) {
                    Some(f) => vec_contains_string(&f.tags, &tags[j]),
                    None => false,
                };
                if !family_has {
                    proof {
                        assert(dv[j as int] != smallest@);
                        assert(!self.spec_family_has_tag(id@, dv[j as int]));
                    }
                    return false;
                }
            }
            j = j + 1;
        }
        true
    }

    /// Families carrying every one of `tags`: the whole catalog for no tags,
    /// one tag's recorded list as it stands, and for several tags the
    /// members of the scarcest tag's list that carry all the others, without
    /// duplicates.
    pub fn search_by_tags(&self, tags: &Vec<String>) -> (r: Vec<String>)
        ensures
            tags@.len() == 0 ==> r.deep_view() == family_ids(self.spec_families()),
            tags@.len() == 1 ==> r.deep_view() == self.spec_families_with_tag(tags.deep_view()[0]),
            tags@.len() >= 2 ==> {
                let smallest = self.spec_smallest_tag(tags.deep_view());
                &&& forall|id: Seq<char>|
                    #[trigger] r.deep_view().contains(id) <==> (self.spec_families_with_tag(
                        smallest,
                    ).contains(id) && self.spec_matches_all_tags(id, tags.deep_view(), smallest))
                &&& r.deep_view().no_duplicates()
            },
    {
        let ghost dv = tags.deep_view();
        if tags.len() < 1 {
            return self.get_all_families();
        }
        if tags.len() < 2 {
            return self.get_all_families_with_tag(&tags[0]);
        }
        let mut smallest_tag: String = String::new();
        let mut smallest_len: usize = usize::MAX;
        let mut i: usize = 0;
        while i < tags.len()
            invariant
                0 <= i <= tags.len(),
                dv == tags.deep_view(),
                dv.len() == tags.len(),
                forall|k: int| 0 <= k < dv.len() ==> #[trigger] dv[k] == tags@[k]@,
                self.spec_best_tag(dv, i as int, smallest_tag@, smallest_len as nat)
                    == self.spec_smallest_tag(dv),
            decreases tags.len() - i,
        {
            let other = self.get_all_families_with_tag(&tags[i]);
            proof {
                assert(other.deep_view().len() == self.spec_families_with_tag(dv[i as int]).len());
            }
            if other.len() < smallest_len {
                smallest_tag = tags[i].clone();
                smallest_len = other.len();
            }
            i = i + 1;
        }
        proof {
            assert(smallest_tag@ == self.spec_smallest_tag(dv));
        }
        let candidates = self.get_all_families_with_tag(&smallest_tag);
        let ghost cdv = candidates.deep_view();
        proof {
            assert(forall|k: int| 0 <= k < cdv.len() ==> #[trigger] cdv[k] == candidates@[k]@);
            assert(cdv.subrange(0, 0) =~= Seq::<Seq<char>>::empty());
        }
        let mut result: Vec<String> = Vec::new();
        let mut j: usize = 0;
        while j < candidates.len()
            invariant
                0 <= j <= candidates.len(),
                dv == tags.deep_view(),
                cdv == candidates.deep_view(),
                cdv.len() == candidates.len(),
                cdv == self.spec_families_with_tag(smallest_tag@),
                smallest_tag@ == self.spec_smallest_tag(dv),
                forall|k: int| 0 <= k < cdv.len() ==> #[trigger] cdv[k] == candidates@[k]@,
                forall|id: Seq<char>|
                    #[trigger] result.deep_view().contains(id) <==> (cdv.subrange(
                        0,
                        j as int,
                    ).contains(id) && self.spec_matches_all_tags(id, dv, smallest_tag@)),
                result.deep_view().no_duplicates(),
            decreases candidates.len() - j,
        {
            let ghost old_rdv = result.deep_view();
            let cand = &candidates[j];
            let is_new = !vec_contains_string(&result, cand);
            proof {
                assert(forall|k: int|
                    0 <= k < result.deep_view().len() ==> #[trigger] result.deep_view()[k]
                        == result@[k]@);
            }
            if is_new && self.matches_all_tags(cand, tags, &smallest_tag) {
                result.push(cand.clone());
                proof {
                    assert forall|k: int|
                        0 <= k < result.deep_view().len() implies #[trigger] result.deep_view()[k]
                        == old_rdv.push(cand@)[k] by {
                        if k < old_rdv.len() {
                            assert(result@[k]@ == old_rdv[k]);
                        } else {
                            assert(result@[k]@ == cand@);
                        }
                    }
                    assert(result.deep_view() =~= old_rdv.push(cand@));
                    assert forall|id: Seq<char>| #[trigger]
                        result.deep_view().contains(id) implies (old_rdv.contains(id) || id
                        == cand@) by {
                        let w = choose|w: int|
                            0 <= w < result.deep_view().len() && result.deep_view()[w] == id;
                        if w < old_rdv.len() {
                            assert(old_rdv[w] == id);
                        }
                    }
                    assert forall|id: Seq<char>| old_rdv.contains(id) implies #[trigger]
                        result.deep_view().contains(id) by {
                        let w = choose|w: int| 0 <= w < old_rdv.len() && old_rdv[w] == id;
                        assert(result.deep_view()[w] == id);
                    }
                    assert(result.deep_view()[old_rdv.len() as int] == cand@);
                    assert(result.deep_view().contains(cand@));
                    assert(result.deep_view().no_duplicates());
                }
            }
            proof {
                let prefix_new = cdv.subrange(0, j + 1);
                let prefix_old = cdv.subrange(0, j as int);
                assert forall|id: Seq<char>| #[trigger] prefix_new.contains(id) implies (
                prefix_old.contains(id) || id == cdv[j as int]) by {
                    let w = choose|w: int| 0 <= w < prefix_new.len() && prefix_new[w] == id;
                    if w < prefix_old.len() {
                        assert(prefix_old[w] == id);
                    }
                }
                assert forall|id: Seq<char>| prefix_old.contains(id) implies #[trigger]
                    prefix_new.contains(id) by {
                    let w = choose|w: int| 0 <= w < prefix_old.len() && prefix_old[w] == id;
                    assert(prefix_new[w] == id);
                }
                assert(prefix_new[j as int] == cdv[j as int]);
                assert(prefix_new.contains(cdv[j as int]));
            }
            j = j + 1;
        }
        proof {
            assert(cdv.subrange(0, cdv.len() as int) =~= cdv);
        }
        result
    }
}

} // verus!
