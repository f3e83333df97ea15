use fontpm::codec::{
    i32_to_string, string_to_variant, style_from_str, style_name, u32_to_string, u64_to_string,
    variant_to_string, weight_to_string,
};
use fontpm::{DefinedFontStyle, DefinedFontVariantSpec, DefinedFontWeight, Error};

fn variant(weight: DefinedFontWeight, style: DefinedFontStyle) -> DefinedFontVariantSpec {
    DefinedFontVariantSpec { weight, style }
}

#[test]
fn parsing_regular_yields_fixed_400_regular() {
    let v = string_to_variant("regular").unwrap();
    assert_eq!(v, variant(DefinedFontWeight::Fixed(400), DefinedFontStyle::Regular));
}

#[test]
fn parsing_italic_yields_fixed_400_italic() {
    let v = string_to_variant("italic").unwrap();
    assert_eq!(v, variant(DefinedFontWeight::Fixed(400), DefinedFontStyle::Italic));
}

#[test]
fn parsing_700italic_yields_fixed_700_italic() {
    let v = string_to_variant("700italic").unwrap();
    assert_eq!(v, variant(DefinedFontWeight::Fixed(700), DefinedFontStyle::Italic));
}

#[test]
fn parsing_non_numeric_weight_fails_with_deserialisation() {
    let e = string_to_variant("abcitalic").unwrap_err();
    assert!(matches!(e, Error::Deserialisation(_)));
}

#[test]
fn parsing_bare_number_yields_regular_style() {
    let v = string_to_variant("300").unwrap();
    assert_eq!(v, variant(DefinedFontWeight::Fixed(300), DefinedFontStyle::Regular));
}

#[test]
fn parsing_number_with_normal_suffix_yields_regular() {
    let v = string_to_variant("500normal").unwrap();
    assert_eq!(v, variant(DefinedFontWeight::Fixed(500), DefinedFontStyle::Regular));
}

#[test]
fn parsing_unknown_style_suffix_fails_with_deserialisation() {
    let e = string_to_variant("700bold").unwrap_err();
    assert!(matches!(e, Error::Deserialisation(_)));
}

#[test]
fn parsing_empty_string_fails_with_deserialisation() {
    let e = string_to_variant("").unwrap_err();
    assert!(matches!(e, Error::Deserialisation(_)));
}

#[test]
fn parsing_overflowing_weight_fails_with_deserialisation() {
    let e = string_to_variant("99999999999").unwrap_err();
    assert!(matches!(e, Error::Deserialisation(_)));
}

#[test]
fn serializing_fixed_400_regular_collapses_to_regular() {
    let s = variant_to_string(&variant(DefinedFontWeight::Fixed(400), DefinedFontStyle::Regular));
    assert_eq!(s, "regular");
}

#[test]
fn serializing_fixed_400_italic_collapses_to_italic() {
    let s = variant_to_string(&variant(DefinedFontWeight::Fixed(400), DefinedFontStyle::Italic));
    assert_eq!(s, "italic");
}

#[test]
fn serializing_fixed_300_regular_keeps_the_number() {
    let s = variant_to_string(&variant(DefinedFontWeight::Fixed(300), DefinedFontStyle::Regular));
    assert_eq!(s, "300");
}

#[test]
fn serializing_fixed_700_italic_appends_the_style() {
    let s = variant_to_string(&variant(DefinedFontWeight::Fixed(700), DefinedFontStyle::Italic));
    assert_eq!(s, "700italic");
}

#[test]
fn serializing_variable_uses_the_axis_token() {
    let s = variant_to_string(&variant(DefinedFontWeight::Variable, DefinedFontStyle::Regular));
    assert_eq!(s, "wght");
    let s = variant_to_string(&variant(DefinedFontWeight::Variable, DefinedFontStyle::Italic));
    assert_eq!(s, "wghtitalic");
}

#[test]
fn canonical_strings_round_trip() {
    for text in ["regular", "italic", "300", "700italic", "900"] {
        let v = string_to_variant(text).unwrap();
        assert_eq!(variant_to_string(&v), text);
    }
}

#[test]
fn weight_400_through_the_numeric_form_is_not_a_pure_inverse() {
    let v = string_to_variant("400").unwrap();
    assert_eq!(v, variant(DefinedFontWeight::Fixed(400), DefinedFontStyle::Regular));
    assert_eq!(variant_to_string(&v), "regular");
}

#[test]
fn style_tokens_parse_and_print() {
    assert_eq!(style_from_str("").unwrap(), DefinedFontStyle::Regular);
    assert_eq!(style_from_str("regular").unwrap(), DefinedFontStyle::Regular);
    assert_eq!(style_from_str("normal").unwrap(), DefinedFontStyle::Regular);
    assert_eq!(style_from_str("italic").unwrap(), DefinedFontStyle::Italic);
    assert!(matches!(style_from_str("oblique"), Err(Error::Deserialisation(_))));
    assert_eq!(style_name(&DefinedFontStyle::Regular), "regular");
    assert_eq!(style_name(&DefinedFontStyle::Italic), "italic");
}

#[test]
fn numbers_print_in_decimal() {
    assert_eq!(u32_to_string(0), "0");
    assert_eq!(u32_to_string(400), "400");
    assert_eq!(u32_to_string(4294967295), "4294967295");
    assert_eq!(u64_to_string(18446744073709551615), "18446744073709551615");
    assert_eq!(i32_to_string(12), "12");
    assert_eq!(i32_to_string(0), "0");
    assert_eq!(i32_to_string(-7), "-7");
    assert_eq!(i32_to_string(i32::MIN), "-2147483648");
}

#[test]
fn weights_print_as_digits_or_axis_token() {
    assert_eq!(weight_to_string(&DefinedFontWeight::Fixed(250)), "250");
    assert_eq!(weight_to_string(&DefinedFontWeight::Variable), "wght");
}

#[test]
fn leading_zeros_parse_but_do_not_round_trip() {
    let v = string_to_variant("007").unwrap();
    assert_eq!(v, variant(DefinedFontWeight::Fixed(7), DefinedFontStyle::Regular));
    assert_eq!(variant_to_string(&v), "7");
}

#[test]
fn style_errors_name_the_offending_token() {
    match style_from_str("oblique") {
        Err(Error::Deserialisation(m)) => assert_eq!(m, "No such font style: oblique"),
        other => panic!("unexpected: {:?}", other),
    }
}
