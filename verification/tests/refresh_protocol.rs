use fontpm::data::Data;
use fontpm::source::{CacheSnapshot, RefreshOutput};

fn outcome(fetch: bool) -> RefreshOutput {
    if fetch {
        RefreshOutput::Downloaded
    } else {
        RefreshOutput::AlreadyUpToDate
    }
}

fn empty_catalog() -> Data {
    Data::new(Vec::new(), Vec::new())
}

#[test]
fn refresh_twice_against_unchanged_remote_downloads_then_reuses() {
    let mut state = CacheSnapshot::empty();
    let latest = String::from("abc123");

    let first = state.refresh_check(false, &latest);
    assert_eq!(outcome(first), RefreshOutput::Downloaded);
    state.apply_download(latest.clone(), empty_catalog());

    let second = state.refresh_check(false, &latest);
    assert_eq!(outcome(second), RefreshOutput::AlreadyUpToDate);
}

#[test]
fn forced_refresh_always_fetches() {
    let mut state = CacheSnapshot::empty();
    let latest = String::from("abc123");
    assert!(state.refresh_check(true, &latest));
    state.apply_download(latest.clone(), empty_catalog());
    assert!(state.refresh_check(true, &latest));
}

#[test]
fn changed_remote_marker_forces_a_fetch() {
    let mut state = CacheSnapshot::empty();
    state.apply_download(String::from("abc123"), empty_catalog());
    assert!(state.refresh_check(false, &String::from("def456")));
}

#[test]
fn missing_catalog_forces_a_fetch_even_with_a_marker() {
    let state = CacheSnapshot { marker: Some(String::from("abc123")), catalog: None };
    assert!(state.refresh_check(false, &String::from("abc123")));
}

#[test]
fn missing_marker_forces_a_fetch_even_with_a_catalog() {
    let state = CacheSnapshot { marker: None, catalog: Some(empty_catalog()) };
    assert!(state.refresh_check(false, &String::from("abc123")));
}

#[test]
fn apply_download_records_marker_and_catalog() {
    let mut state = CacheSnapshot::empty();
    state.apply_download(String::from("abc123"), empty_catalog());
    assert_eq!(state.marker.as_deref(), Some("abc123"));
    assert!(state.catalog.is_some());
}
