use fontpm::resolver::{
    batch_report, count_unresolved, distinct_pins, download_report, merge_outcome,
    merge_source_results, requests_for_pin, FontSpec, ResolutionOutcome,
};
use fontpm::source::SourceDescription;
use fontpm::{DefinedFontInstallSpec, Error, FontDescription};

fn source(id: &str) -> SourceDescription {
    SourceDescription { id: id.to_string(), name: id.to_string() }
}

fn success(source_id: &str, font_id: &str) -> ResolutionOutcome {
    ResolutionOutcome {
        source: source(source_id),
        result: Ok((
            DefinedFontInstallSpec { id: font_id.to_string(), styles: Vec::new() },
            FontDescription::new(font_id.to_string(), font_id.to_string(), "1".to_string()),
        )),
    }
}

fn failure(source_id: &str, message: &str) -> ResolutionOutcome {
    ResolutionOutcome {
        source: source(source_id),
        result: Err(Error::NoSuchFamily(message.to_string())),
    }
}

fn source_of(entry: &Option<ResolutionOutcome>) -> &str {
    entry.as_ref().unwrap().source.id.as_str()
}

#[test]
fn a_failure_is_replaced_by_a_later_success() {
    let mut entry = None;
    merge_outcome(&mut entry, failure("a", "x"));
    merge_outcome(&mut entry, success("b", "x"));
    assert_eq!(source_of(&entry), "b");
    assert!(entry.unwrap().result.is_ok());
}

#[test]
fn an_earlier_success_is_never_replaced() {
    let mut entry = None;
    merge_outcome(&mut entry, success("a", "x"));
    merge_outcome(&mut entry, success("b", "x"));
    assert_eq!(source_of(&entry), "a");

    let mut entry = None;
    merge_outcome(&mut entry, success("a", "x"));
    merge_outcome(&mut entry, failure("b", "x"));
    assert_eq!(source_of(&entry), "a");
    assert!(entry.unwrap().result.is_ok());
}

#[test]
fn all_failures_leave_the_last_one() {
    let mut entry = None;
    merge_outcome(&mut entry, failure("a", "first"));
    merge_outcome(&mut entry, failure("b", "second"));
    match entry.unwrap().result {
        Err(Error::NoSuchFamily(m)) => assert_eq!(m, "second"),
        other => panic!("unexpected: {:?}", other),
    }
}

#[test]
fn merge_over_a_batch_applies_per_font() {
    let mut table: Vec<Option<ResolutionOutcome>> = vec![None, None, None];
    merge_source_results(
        &mut table,
        vec![success("a", "f0"), failure("a", "f1"), failure("a", "f2")],
    );
    merge_source_results(
        &mut table,
        vec![success("b", "f0"), success("b", "f1"), failure("b", "f2")],
    );
    assert_eq!(source_of(&table[0]), "a");
    assert_eq!(source_of(&table[1]), "b");
    assert_eq!(source_of(&table[2]), "b");
    assert!(table[0].as_ref().unwrap().result.is_ok());
    assert!(table[1].as_ref().unwrap().result.is_ok());
    assert!(table[2].as_ref().unwrap().result.is_err());
}

#[test]
fn one_failing_font_of_three_reports_exactly_one_unresolved() {
    let mut table: Vec<Option<ResolutionOutcome>> = vec![None, None, None];
    merge_source_results(
        &mut table,
        vec![success("a", "f0"), failure("a", "f1"), success("a", "f2")],
    );
    merge_source_results(
        &mut table,
        vec![failure("b", "f0"), failure("b", "f1"), success("b", "f2")],
    );
    assert_eq!(count_unresolved(&table), 1);
    match batch_report(&table) {
        Err(Error::Generic(m)) => assert_eq!(m, "1 font failed to resolve"),
        other => panic!("unexpected: {:?}", other),
    }
}

#[test]
fn a_fully_resolved_batch_reports_success() {
    let mut table: Vec<Option<ResolutionOutcome>> = vec![None, None];
    merge_source_results(&mut table, vec![success("a", "f0"), success("a", "f1")]);
    assert_eq!(count_unresolved(&table), 0);
    assert!(batch_report(&table).is_ok());
}

#[test]
fn several_unresolved_fonts_are_counted_in_the_report() {
    let table: Vec<Option<ResolutionOutcome>> =
        vec![Some(failure("a", "x")), None, Some(failure("a", "y"))];
    assert_eq!(count_unresolved(&table), 3);
    match batch_report(&table) {
        Err(Error::Generic(m)) => assert_eq!(m, "3 fonts failed to resolve"),
        other => panic!("unexpected: {:?}", other),
    }
}

#[test]
fn fontspec_without_pin_parses_whole_identifier() {
    let fs = FontSpec::parse("noto-sans").unwrap();
    assert_eq!(fs.source, None);
    assert_eq!(fs.font_id, "noto-sans");
}

#[test]
fn fontspec_with_pin_splits_at_the_first_colon() {
    let fs = FontSpec::parse("google-fonts:noto-sans").unwrap();
    assert_eq!(fs.source.as_deref(), Some("google-fonts"));
    assert_eq!(fs.font_id, "noto-sans");
}

#[test]
fn empty_fontspec_is_rejected() {
    assert!(matches!(FontSpec::parse(""), Err(Error::Generic(_))));
}

#[test]
fn second_colon_is_rejected() {
    assert!(matches!(FontSpec::parse("a:b:c"), Err(Error::Generic(_))));
}

#[test]
fn leading_colon_pins_to_the_empty_source() {
    let fs = FontSpec::parse(":x").unwrap();
    assert_eq!(fs.source.as_deref(), Some(""));
    assert_eq!(fs.font_id, "x");
}

fn spec(source: Option<&str>, font_id: &str) -> FontSpec {
    FontSpec { source: source.map(|s| s.to_string()), font_id: font_id.to_string() }
}

#[test]
fn distinct_pins_keeps_first_occurrences() {
    let requests = vec![
        spec(None, "a"),
        spec(Some("g"), "b"),
        spec(None, "c"),
        spec(Some("g"), "d"),
        spec(Some("h"), "e"),
    ];
    let pins = distinct_pins(&requests);
    assert_eq!(pins, vec![None, Some("g".to_string()), Some("h".to_string())]);
}

#[test]
fn requests_for_pin_collects_that_partition_in_order() {
    let requests = vec![
        spec(None, "a"),
        spec(Some("g"), "b"),
        spec(None, "c"),
        spec(Some("g"), "d"),
    ];
    assert_eq!(requests_for_pin(&requests, &None), vec!["a", "c"]);
    assert_eq!(requests_for_pin(&requests, &Some("g".to_string())), vec!["b", "d"]);
    assert!(requests_for_pin(&requests, &Some("h".to_string())).is_empty());
}

#[test]
fn error_messages_name_the_parse_failure() {
    match FontSpec::parse("") {
        Err(Error::Generic(m)) => assert_eq!(m, "Fontspec must not be an empty string"),
        other => panic!("unexpected: {:?}", other),
    }
    match FontSpec::parse("a:b:c") {
        Err(Error::Generic(m)) => assert_eq!(m, "Character ':' is illegal in font ID"),
        other => panic!("unexpected: {:?}", other),
    }
}

#[test]
fn download_failures_are_reported_in_aggregate() {
    assert!(download_report(0).is_ok());
    match download_report(1) {
        Err(Error::Generic(m)) => assert_eq!(m, "1 font failed to download"),
        other => panic!("unexpected: {:?}", other),
    }
    match download_report(3) {
        Err(Error::Generic(m)) => assert_eq!(m, "3 fonts failed to download"),
        other => panic!("unexpected: {:?}", other),
    }
}
