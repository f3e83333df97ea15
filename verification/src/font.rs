//! The variant model: weights, styles, variant specs and install specs,
//! together with the covering predicate that matches an abstract request
//! against a catalog's concrete offerings.

use vstd::prelude::*;

verus! {

/// A concrete weight as it occurs in catalog data: either a fixed numeric
/// weight or a variable-weight axis.
#[derive(Eq, PartialEq, Structural, Copy, Clone, Debug, Hash)]
pub enum DefinedFontWeight {
    Fixed(u32),
    Variable,
}

impl DefinedFontWeight {
    /// Whether `other` (a concrete requested weight) covers `self`: fixed
    /// weights match only on equality, `Variable` matches only `Variable`.
    pub open spec fn spec_is_covered_by(self, other: Self) -> bool {
        match other {
            DefinedFontWeight::Fixed(o) => match self {
                DefinedFontWeight::Fixed(m) => o == m,
                DefinedFontWeight::Variable => false,
            },
            DefinedFontWeight::Variable => self is Variable,
        }
    }

    pub fn is_covered_by(&self, other: &DefinedFontWeight) -> (r: bool)
        ensures
            r == self.spec_is_covered_by(*other),
    {
        match other {
            DefinedFontWeight::Fixed(o) => match self {
                DefinedFontWeight::Fixed(me) => *o == *me,
                _ => false,
            },
            DefinedFontWeight::Variable => *self == DefinedFontWeight::Variable,
        }
    }

    pub open spec fn spec_is_fixed(self) -> bool {
        self is Fixed
    }

    pub fn is_fixed(&self) -> (r: bool)
        ensures
            r == self.spec_is_fixed(),
    {
        match self {
            DefinedFontWeight::Fixed(_) => true,
            DefinedFontWeight::Variable => false,
        }
    }
}

/// The sorting order of defined weights: the variable axis before every
/// fixed weight, fixed weights by numeric value.
pub open spec fn spec_weight_order(a: DefinedFontWeight, b: DefinedFontWeight) -> core::cmp::Ordering {
    match a {
        DefinedFontWeight::Variable => match b {
            DefinedFontWeight::Variable => core::cmp::Ordering::Equal,
            DefinedFontWeight::Fixed(_) => core::cmp::Ordering::Less,
        },
        DefinedFontWeight::Fixed(aw) => match b {
            DefinedFontWeight::Variable => core::cmp::Ordering::Greater,
            DefinedFontWeight::Fixed(bw) => if aw < bw {
                core::cmp::Ordering::Less
            } else if aw == bw {
                core::cmp::Ordering::Equal
            } else {
                core::cmp::Ordering::Greater
            },
        },
    }
}

impl DefinedFontWeight {
    /// Compare two defined weights in sorting order.
    pub fn compare(&self, other: &DefinedFontWeight) -> (r: core::cmp::Ordering)
        ensures
            r == spec_weight_order(*self, *other),
    {
        match self {
            DefinedFontWeight::Variable => match other {
                DefinedFontWeight::Variable => core::cmp::Ordering::Equal,
                DefinedFontWeight::Fixed(_) => core::cmp::Ordering::Less,
            },
            DefinedFontWeight::Fixed(aw) => match other {
                DefinedFontWeight::Variable => core::cmp::Ordering::Greater,
                DefinedFontWeight::Fixed(bw) => {
                    if *aw < *bw {
                        core::cmp::Ordering::Less
                    } else if *aw == *bw {
                        core::cmp::Ordering::Equal
                    } else {
                        core::cmp::Ordering::Greater
                    }
                },
            },
        }
    }
}

/// A request-side weight: a concrete one, every fixed weight, or every
/// weight including variable.
#[derive(Eq, PartialEq, Structural, Copy, Clone, Debug, Hash)]
pub enum FontWeight {
    Defined(DefinedFontWeight),
    AllFixed,
    All,
}

impl FontWeight {
    /// Whether the request `other` covers `self`. `All` covers everything;
    /// `AllFixed` covers itself and the fixed defined weights, never
    /// `Variable`; a defined request covers by the defined-weight rule.
    pub open spec fn spec_is_covered_by(self, other: Self) -> bool {
        match other {
            FontWeight::All => true,
            FontWeight::AllFixed => match self {
                FontWeight::AllFixed => true,
                FontWeight::Defined(DefinedFontWeight::Fixed(_)) => true,
                _ => false,
            },
            FontWeight::Defined(other_defined) => match self {
                FontWeight::Defined(self_defined) => self_defined.spec_is_covered_by(
                    other_defined,
                ),
                _ => false,
            },
        }
    }

    pub fn is_covered_by(&self, other: &FontWeight) -> (r: bool)
        ensures
            r == self.spec_is_covered_by(*other),
    {
        match other {
            FontWeight::All => true,
            FontWeight::AllFixed => match self {
                FontWeight::AllFixed | FontWeight::Defined(DefinedFontWeight::Fixed(_)) => true,
                _ => false,
            },
            FontWeight::Defined(other_defined) => match self {
                FontWeight::Defined(self_defined) => self_defined.is_covered_by(other_defined),
                _ => false,
            },
        }
    }
}

/// A concrete style as it occurs in catalog data.
#[derive(Eq, PartialEq, Structural, Copy, Clone, Debug, Hash)]
pub enum DefinedFontStyle {
    Regular,
    Italic,
}

impl DefinedFontStyle {
    /// A concrete requested style covers a concrete style exactly on equality.
    pub open spec fn spec_is_covered_by(self, other: Self) -> bool {
        self == other
    }

    pub fn is_covered_by(&self, other: &DefinedFontStyle) -> (r: bool)
        ensures
            r == self.spec_is_covered_by(*other),
    {
        *self == *other
    }
}

/// A request-side style: a concrete one, or every style.
#[derive(Eq, PartialEq, Structural, Copy, Clone, Debug, Hash)]
pub enum FontStyle {
    Defined(DefinedFontStyle),
    All,
}

impl FontStyle {
    /// Whether the request `other` covers `self`: `All` covers everything, a
    /// defined request covers only the equal defined style.
    pub open spec fn spec_is_covered_by(self, other: Self) -> bool {
        match other {
            FontStyle::All => true,
            FontStyle::Defined(other_defined) => match self {
                FontStyle::Defined(self_defined) => self_defined.spec_is_covered_by(other_defined),
                _ => false,
            },
        }
    }

    pub fn is_covered_by(&self, other: &FontStyle) -> (r: bool)
        ensures
            r == self.spec_is_covered_by(*other),
    {
        match other {
            FontStyle::All => true,
            FontStyle::Defined(other_defined) => match self {
                FontStyle::Defined(self_defined) => self_defined.is_covered_by(other_defined),
                _ => false,
            },
        }
    }
}

/// A concrete variant: one actual asset of a family.
#[derive(Eq, PartialEq, Structural, Copy, Clone, Debug, Hash)]
pub struct DefinedFontVariantSpec {
    pub weight: DefinedFontWeight,
    pub style: DefinedFontStyle,
}

impl DefinedFontVariantSpec {
    /// Covering of a concrete variant by a concrete request is the
    /// conjunction of the per-dimension checks.
    pub open spec fn spec_is_covered_by(self, other: Self) -> bool {
        self.weight.spec_is_covered_by(other.weight) && self.style.spec_is_covered_by(other.style)
    }

    pub fn is_covered_by(&self, other: &DefinedFontVariantSpec) -> (r: bool)
        ensures
            r == self.spec_is_covered_by(*other),
    {
        let weight_is_covered = self.weight.is_covered_by(&other.weight);
        let style_is_covered = self.style.is_covered_by(&other.style);
        weight_is_covered && style_is_covered
    }
}

/// The sorting order of defined styles: regular before italic.
pub open spec fn spec_style_order(a: DefinedFontStyle, b: DefinedFontStyle) -> core::cmp::Ordering {
    match (a, b) {
        (DefinedFontStyle::Regular, DefinedFontStyle::Italic) => core::cmp::Ordering::Less,
        (DefinedFontStyle::Italic, DefinedFontStyle::Regular) => core::cmp::Ordering::Greater,
        _ => core::cmp::Ordering::Equal,
    }
}

/// The sorting order of defined variants: by weight first, by style on
/// equal weights.
pub open spec fn spec_variant_order(
    a: DefinedFontVariantSpec,
    b: DefinedFontVariantSpec,
) -> core::cmp::Ordering {
    if spec_weight_order(a.weight, b.weight) == core::cmp::Ordering::Equal {
        spec_style_order(a.style, b.style)
    } else {
        spec_weight_order(a.weight, b.weight)
    }
}

impl DefinedFontVariantSpec {
    /// Compare two defined variants in sorting order.
    pub fn compare(&self, other: &DefinedFontVariantSpec) -> (r: core::cmp::Ordering)
        ensures
            r == spec_variant_order(*self, *other),
    {
        let by_weight = self.weight.compare(&other.weight);
        match by_weight {
            core::cmp::Ordering::Equal => match (self.style, other.style) {
                (DefinedFontStyle::Regular, DefinedFontStyle::Italic) => core::cmp::Ordering::Less,
                (DefinedFontStyle::Italic, DefinedFontStyle::Regular) => core::cmp::Ordering::Greater,
                _ => core::cmp::Ordering::Equal,
            },
            _ => by_weight,
        }
    }
}

/// A request-side variant filter.
#[derive(Eq, PartialEq, Structural, Copy, Clone, Debug, Hash)]
pub struct FontVariantSpec {
    pub weight: FontWeight,
    pub style: FontStyle,
}

impl FontVariantSpec {
    /// Covering of an abstract variant by an abstract request is the
    /// conjunction of the per-dimension checks.
    pub open spec fn spec_is_covered_by(self, other: Self) -> bool {
        self.weight.spec_is_covered_by(other.weight) && self.style.spec_is_covered_by(other.style)
    }

    pub fn is_covered_by(&self, other: &FontVariantSpec) -> (r: bool)
        ensures
            r == self.spec_is_covered_by(*other),
    {
        let weight_is_covered = self.weight.is_covered_by(&other.weight);
        let style_is_covered = self.style.is_covered_by(&other.style);
        weight_is_covered && style_is_covered
    }
}

/// Law: the wildcard `All` covers every defined weight and every defined
/// style.
pub proof fn lemma_all_covers_defined(w: DefinedFontWeight, s: DefinedFontStyle)
    ensures
        FontWeight::Defined(w).spec_is_covered_by(FontWeight::All),
        FontStyle::Defined(s).spec_is_covered_by(FontStyle::All),
{
}

/// Law: `AllFixed` covers a defined weight exactly when that weight is fixed;
/// in particular it never covers `Variable`.
pub proof fn lemma_all_fixed_covers_exactly_fixed(w: DefinedFontWeight)
    ensures
        FontWeight::Defined(w).spec_is_covered_by(FontWeight::AllFixed) <==> w.spec_is_fixed(),
{
}

/// What was actually found for one family and will be downloaded: only
/// concrete variants occur here.
#[derive(Eq, PartialEq, Clone, Debug, Hash)]
pub struct DefinedFontInstallSpec {
    pub id: String,
    pub styles: Vec<DefinedFontVariantSpec>,
}

impl DefinedFontInstallSpec {
    pub fn new(id: String, styles: Vec<DefinedFontVariantSpec>) -> (r: Self)
        ensures
            r.id == id,
            r.styles == styles,
    {
        DefinedFontInstallSpec { id, styles }
    }
}

/// What the caller asked for: an identifier plus abstract variant filters.
#[derive(Eq, PartialEq, Clone, Debug, Hash)]
pub struct FontInstallSpec {
    pub id: String,
    pub styles: Vec<FontVariantSpec>,
}

impl FontInstallSpec {
    pub fn new(id: String, styles: Vec<FontVariantSpec>) -> (r: Self)
        ensures
            r.id == id,
            r.styles == styles,
    {
        FontInstallSpec { id, styles }
    }

    /// The request that covers every variant of a family.
    pub fn new_all_styles(id: String) -> (r: Self)
        ensures
            r.id == id,
            r.styles@ =~= seq![
                FontVariantSpec { weight: FontWeight::All, style: FontStyle::All },
            ],
    {
        let mut styles: Vec<FontVariantSpec> = Vec::new();
        styles.push(FontVariantSpec { weight: FontWeight::All, style: FontStyle::All });
        FontInstallSpec::new(id, styles)
    }
}

/// Informational description of a font, immutable once produced by a source.
#[derive(Eq, PartialEq, Clone, Debug, Hash)]
pub struct FontDescription {
    pub name: String,
    pub id: String,
    pub version: String,
}

impl FontDescription {
    pub fn new(name: String, id: String, version: String) -> (r: Self)
        ensures
            r.name == name,
            r.id == id,
            r.version == version,
    {
        FontDescription { name, id, version }
    }
}

} // verus!
