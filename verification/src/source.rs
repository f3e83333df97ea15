//! The source protocol: the refresh decision against a cached catalog
//! snapshot, the resolution of a request against it, and the laws the
//! protocol obeys.

use vstd::prelude::*;

use crate::codec::{i32_to_string, spec_i32_string};
use crate::data::{find_family, spec_parse_all, Data};
use crate::error::Error;
use crate::font::{
    DefinedFontInstallSpec, DefinedFontVariantSpec, FontDescription, FontInstallSpec, FontStyle,
    FontVariantSpec, FontWeight,
};
use crate::util::str_eq;

verus! {

/// What a refresh did: nothing, because the cache was current, or a full
/// download.
#[derive(PartialEq, Eq, Structural, Copy, Clone, Debug)]
pub enum RefreshOutput {
    AlreadyUpToDate,
    Downloaded,
}

/// A source, described for display.
#[derive(PartialEq, Eq, Clone, Debug)]
pub struct SourceDescription {
    pub id: String,
    pub name: String,
}

impl SourceDescription {
    /// The description a backend reports when it states only its
    /// identifier: the identifier stands in for the display name too.
    pub fn of_id(id: String) -> (r: SourceDescription)
        ensures
            r.id == id,
            r.name == id,
    {
        let name = id.clone();
        SourceDescription { id, name }
    }
}

/// What every catalog backend can tell about itself.
pub trait SourceExt {
    fn description(&self) -> SourceDescription;
}

/// The cached state one source keeps per cache directory: the freshness
/// marker and the catalog snapshot, either of which may not have been
/// written yet.
#[derive(PartialEq, Eq, Debug)]
pub struct CacheSnapshot {
    pub marker: Option<String>,
    pub catalog: Option<Data>,
}

/// Whether the cache needs no fetch for a remote whose marker reads
/// `latest`: a marker was stored, the catalog is present, and the marker is
/// unchanged.
pub open spec fn spec_up_to_date(state: CacheSnapshot, latest: Seq<char>) -> bool {
    match state.marker {
        Some(m) => m@ == latest && state.catalog is Some,
        None => false,
    }
}

/// Whether a refresh performs the full catalog fetch: always when forced,
/// otherwise exactly when the cache is not up to date.
pub open spec fn spec_refresh_needs_fetch(state: CacheSnapshot, force: bool, latest: Seq<char>) -> bool {
    force || !spec_up_to_date(state, latest)
}

/// What a refresh reports for a given cache state, force flag and remote
/// marker.
pub open spec fn spec_refresh_output(state: CacheSnapshot, force: bool, latest: Seq<char>) -> RefreshOutput {
    if spec_refresh_needs_fetch(state, force, latest) {
        RefreshOutput::Downloaded
    } else {
        RefreshOutput::AlreadyUpToDate
    }
}

impl CacheSnapshot {
    /// The state before any refresh has succeeded.
    pub fn empty() -> (r: Self)
        ensures
            r.marker is None,
            r.catalog is None,
    {
        CacheSnapshot { marker: None, catalog: None }
    }

    /// The staleness decision of a refresh: `true` exactly when the full
    /// catalog must be fetched.
    pub fn refresh_check(&self, force: bool, latest: &String) -> (fetch: bool)
        ensures
            fetch == spec_refresh_needs_fetch(*self, force, latest@),
    {
        if force {
            return true;
        }
        match &self.marker {
            None => true,
            Some(m) => {
                if self.catalog.is_none() {
                    true
                } else {
                    !str_eq(m.as_str(), latest.as_str())
                }
            },
        }
    }

    /// Record a completed full fetch: the catalog first, the marker last, so
    /// that an interrupted refresh leaves the old marker and a later refresh
    /// fetches again.
    pub fn apply_download(&mut self, latest: String, catalog: Data)
        ensures
            final(self).marker == Some(latest),
            final(self).catalog == Some(catalog),
    {
        self.catalog = Some(catalog);
        self.marker = Some(latest);
    }
}

/// Law: refresh is idempotent against an unchanged remote. When an unforced
/// refresh had to download, the state it records answers the next unforced
/// refresh against the same marker with `AlreadyUpToDate`, fetching nothing.
pub proof fn lemma_refresh_idempotent(
    state: CacheSnapshot,
    after: CacheSnapshot,
    latest: String,
    catalog: Data,
)
    requires
        spec_refresh_needs_fetch(state, false, latest@),
        after.marker == Some(latest),
        after.catalog == Some(catalog),
    ensures
        spec_refresh_output(state, false, latest@) == RefreshOutput::Downloaded,
        !spec_refresh_needs_fetch(after, false, latest@),
        spec_refresh_output(after, false, latest@) == RefreshOutput::AlreadyUpToDate,
{
}

/// Law: a forced refresh performs the full fetch whatever the cache holds,
/// and so always reports `Downloaded`.
pub proof fn lemma_refresh_force_always_fetches(state: CacheSnapshot, latest: Seq<char>)
    ensures
        spec_refresh_needs_fetch(state, true, latest),
        spec_refresh_output(state, true, latest) == RefreshOutput::Downloaded,
{
}

/// The abstract variant that a concrete variant stands for.
pub open spec fn spec_lift_variant(v: DefinedFontVariantSpec) -> FontVariantSpec {
    FontVariantSpec { weight: FontWeight::Defined(v.weight), style: FontStyle::Defined(v.style) }
}

/// Whether some filter of the request covers the concrete variant.
pub open spec fn spec_variant_requested(v: DefinedFontVariantSpec, req: Seq<FontVariantSpec>) -> bool {
    exists|j: int| 0 <= j < req.len() && spec_lift_variant(v).spec_is_covered_by(#[trigger] req[j])
}

/// The concrete variants kept by the request's filters, in catalog order.
pub open spec fn spec_filter_requested(
    vs: Seq<DefinedFontVariantSpec>,
    req: Seq<FontVariantSpec>,
) -> Seq<DefinedFontVariantSpec>
    decreases vs.len(),
{
    if vs.len() == 0 {
        Seq::empty()
    } else {
        let rest = spec_filter_requested(vs.drop_last(), req);
        if spec_variant_requested(vs.last(), req) {
            rest.push(vs.last())
        } else {
            rest
        }
    }
}

fn variant_requested(v: &DefinedFontVariantSpec, req: &Vec<FontVariantSpec>) -> (r: bool)
    ensures
        r == spec_variant_requested(*v, req@),
{
    let lifted = FontVariantSpec {
        weight: FontWeight::Defined(v.weight),
        style: FontStyle::Defined(v.style),
    };
    let mut j: usize = 0;
    while j < req.len()
        invariant
            0 <= j <= req.len(),
            lifted == spec_lift_variant(*v),
            forall|k: int|
                0 <= k < j ==> !spec_lift_variant(*v).spec_is_covered_by(#[trigger] req@[k]),
        decreases req.len() - j,
    {
        if lifted.is_covered_by(&req[j]) {
            return true;
        }
        j = j + 1;
    }
    false
}

/// Resolve a request against the cached catalog, without touching the
/// network: a not-found error when no refresh has ever succeeded, a
/// no-such-family error when the identifier is absent, a deserialisation
/// error when the family's variant data is malformed; otherwise the
/// family's concrete variants kept by the request's filters, and the
/// family's description.
pub fn resolve_font(cache: &CacheSnapshot, spec: &FontInstallSpec) -> (r: Result<
    (DefinedFontInstallSpec, FontDescription),
    Error,
>)
    ensures
        match cache.catalog {
            None => r matches Err(e) && e is IO,
            Some(data) => match r {
                Ok((inst, desc)) => {
                    &&& find_family(data.spec_families(), spec.id@) matches Some(f)
                    &&& spec_parse_all(f.variants.deep_view()) matches Some(parsed)
                    &&& inst.styles@ == spec_filter_requested(parsed, spec.styles@)
                    &&& inst.id@ == f.id@
                    &&& desc.name@ == f.display_name@
                    &&& desc.id@ == f.id@
                    &&& desc.version@ == spec_i32_string(f.version as int)
                },
                Err(e) => {
                    ||| (find_family(data.spec_families(), spec.id@) is None && e is NoSuchFamily)
                    ||| {
                        &&& find_family(data.spec_families(), spec.id@) matches Some(f)
                        &&& spec_parse_all(f.variants.deep_view()) is None
                        &&& e is Deserialisation
                    }
                },
            },
        },
{
    let data = match &cache.catalog {
        None => {
            proof {
                reveal_strlit("Data file does not exist");
            }
            return Err(Error::IO(String::from_str("Data file does not exist")));
        },
        Some(d) => d,
    };
    let family = match data.get_family(&spec.id) {
        None => {
            return Err(Error::NoSuchFamily(spec.id.clone()));
        },
        Some(f) => f,
    };
    let inst_all = match family.install_spec() {
        Ok(v) => v,
        Err(e) => {
            return Err(e);
        },
    };
    let ghost parsed = inst_all.styles@;
    let mut styles: Vec<DefinedFontVariantSpec> = Vec::new();
    let mut i: usize = 0;
    while i < inst_all.styles.len()
        invariant
            0 <= i <= inst_all.styles.len(),
            parsed == inst_all.styles@,
            styles@ == spec_filter_requested(parsed.subrange(0, i as int), spec.styles@),
        decreases inst_all.styles.len() - i,
    {
        proof {
            assert(parsed.subrange(0, i + 1).drop_last() =~= parsed.subrange(0, i as int));
            assert(parsed.subrange(0, i + 1).last() == parsed[i as int]);
        }
        let v = inst_all.styles[i];
        if variant_requested(&v, &spec.styles) {
            styles.push(v);
        }
        i = i + 1;
    }
    proof {
        assert(parsed.subrange(0, parsed.len() as int) =~= parsed);
    }
    let desc = FontDescription::new(
        family.display_name.clone(),
        family.id.clone(),
        i32_to_string(family.version),
    );
    Ok((DefinedFontInstallSpec { id: inst_all.id, styles }, desc))
}

} // verus!
