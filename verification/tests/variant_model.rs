use std::cmp::Ordering;

use fontpm::{
    DefinedFontStyle, DefinedFontVariantSpec, DefinedFontWeight, FontStyle, FontVariantSpec,
    FontWeight,
};

#[test]
fn all_covers_every_defined_weight() {
    for w in [
        DefinedFontWeight::Fixed(100),
        DefinedFontWeight::Fixed(400),
        DefinedFontWeight::Fixed(700),
        DefinedFontWeight::Fixed(900),
        DefinedFontWeight::Variable,
    ] {
        assert!(FontWeight::Defined(w).is_covered_by(&FontWeight::All));
    }
}

#[test]
fn all_covers_every_defined_style() {
    for s in [DefinedFontStyle::Regular, DefinedFontStyle::Italic] {
        assert!(FontStyle::Defined(s).is_covered_by(&FontStyle::All));
    }
}

#[test]
fn all_fixed_covers_fixed_700() {
    let w = FontWeight::Defined(DefinedFontWeight::Fixed(700));
    assert!(w.is_covered_by(&FontWeight::AllFixed));
}

#[test]
fn all_fixed_never_covers_variable() {
    let w = FontWeight::Defined(DefinedFontWeight::Variable);
    assert!(!w.is_covered_by(&FontWeight::AllFixed));
}

#[test]
fn variable_covered_only_by_variable_or_all() {
    let v = DefinedFontWeight::Variable;
    assert!(v.is_covered_by(&DefinedFontWeight::Variable));
    assert!(!v.is_covered_by(&DefinedFontWeight::Fixed(400)));
    assert!(FontWeight::Defined(v).is_covered_by(&FontWeight::All));
}

#[test]
fn fixed_weight_matches_only_on_equality() {
    let w = DefinedFontWeight::Fixed(500);
    assert!(w.is_covered_by(&DefinedFontWeight::Fixed(500)));
    assert!(!w.is_covered_by(&DefinedFontWeight::Fixed(400)));
    assert!(!w.is_covered_by(&DefinedFontWeight::Variable));
}

#[test]
fn is_fixed_distinguishes_the_two_forms() {
    assert!(DefinedFontWeight::Fixed(1).is_fixed());
    assert!(!DefinedFontWeight::Variable.is_fixed());
}

#[test]
fn style_covering_is_equality_or_wildcard() {
    let r = DefinedFontStyle::Regular;
    let i = DefinedFontStyle::Italic;
    assert!(r.is_covered_by(&DefinedFontStyle::Regular));
    assert!(!r.is_covered_by(&DefinedFontStyle::Italic));
    assert!(i.is_covered_by(&DefinedFontStyle::Italic));
    assert!(FontStyle::Defined(r).is_covered_by(&FontStyle::All));
    assert!(FontStyle::Defined(i).is_covered_by(&FontStyle::All));
}

#[test]
fn variant_covering_is_the_conjunction() {
    let v = DefinedFontVariantSpec {
        weight: DefinedFontWeight::Fixed(700),
        style: DefinedFontStyle::Italic,
    };
    let both = FontVariantSpec { weight: FontWeight::AllFixed, style: FontStyle::All };
    let wrong_style = FontVariantSpec {
        weight: FontWeight::AllFixed,
        style: FontStyle::Defined(DefinedFontStyle::Regular),
    };
    let wrong_weight = FontVariantSpec {
        weight: FontWeight::Defined(DefinedFontWeight::Fixed(400)),
        style: FontStyle::All,
    };
    let lifted = FontVariantSpec {
        weight: FontWeight::Defined(v.weight),
        style: FontStyle::Defined(v.style),
    };
    assert!(lifted.is_covered_by(&both));
    assert!(!lifted.is_covered_by(&wrong_style));
    assert!(!lifted.is_covered_by(&wrong_weight));
}

#[test]
fn defined_variant_covering_checks_both_dimensions() {
    let a = DefinedFontVariantSpec {
        weight: DefinedFontWeight::Fixed(400),
        style: DefinedFontStyle::Regular,
    };
    let b = DefinedFontVariantSpec {
        weight: DefinedFontWeight::Fixed(400),
        style: DefinedFontStyle::Italic,
    };
    assert!(a.is_covered_by(&a));
    assert!(!a.is_covered_by(&b));
    assert!(!b.is_covered_by(&a));
}

#[test]
fn weights_sort_with_variable_first() {
    let variable = DefinedFontWeight::Variable;
    let w300 = DefinedFontWeight::Fixed(300);
    let w700 = DefinedFontWeight::Fixed(700);
    assert_eq!(variable.compare(&w300), Ordering::Less);
    assert_eq!(w300.compare(&variable), Ordering::Greater);
    assert_eq!(variable.compare(&variable), Ordering::Equal);
    assert_eq!(w300.compare(&w700), Ordering::Less);
    assert_eq!(w700.compare(&w300), Ordering::Greater);
    assert_eq!(w700.compare(&w700), Ordering::Equal);
}

#[test]
fn variants_sort_by_weight_then_style() {
    let regular_400 = DefinedFontVariantSpec {
        weight: DefinedFontWeight::Fixed(400),
        style: DefinedFontStyle::Regular,
    };
    let italic_400 = DefinedFontVariantSpec {
        weight: DefinedFontWeight::Fixed(400),
        style: DefinedFontStyle::Italic,
    };
    let regular_700 = DefinedFontVariantSpec {
        weight: DefinedFontWeight::Fixed(700),
        style: DefinedFontStyle::Regular,
    };
    assert_eq!(regular_400.compare(&italic_400), Ordering::Less);
    assert_eq!(italic_400.compare(&regular_400), Ordering::Greater);
    assert_eq!(italic_400.compare(&regular_700), Ordering::Less);
    assert_eq!(regular_400.compare(&regular_400), Ordering::Equal);
}
