use fontpm::config::{google_fonts_id, google_fonts_name, is_known_source, select_sources, sources, FpmConfig};
use fontpm::github::{GithubBranchData, GithubCommitData};
use fontpm::host::EmptyFpmHost;
use fontpm::install::{GenerateError, OutputFormat};
use fontpm::output::{kind_label, kind_to_stderr, OutputKind, OutputLevel, OutputRecord};
use fontpm::source::{SourceDescription, SourceExt};
use fontpm::util::{nice_list, plural_s, plural_s_opposite, str_eq, vec_contains_string};
use fontpm::{
    classify_transport_error, DefinedFontStyle, DefinedFontVariantSpec, DefinedFontWeight, Error,
    FontDescription,
};

#[test]
fn error_messages_are_kept_by_kind() {
    let e = Error::ConnectionError("down".to_string());
    assert_eq!(e.message().as_str(), "down");
    let e = Error::NoSuchFamily("lora".to_string());
    assert_eq!(e.message().as_str(), "lora");
}

#[test]
fn transport_errors_are_classified_by_connectedness() {
    assert!(matches!(
        classify_transport_error(true, "x".to_string()),
        Error::ConnectionError(_)
    ));
    assert!(matches!(classify_transport_error(false, "x".to_string()), Error::Generic(_)));
}

#[test]
fn plural_suffixes_follow_the_count() {
    assert_eq!(plural_s(0), "s");
    assert_eq!(plural_s(1), "");
    assert_eq!(plural_s(2), "s");
    assert_eq!(plural_s_opposite(1), "s");
    assert_eq!(plural_s_opposite(2), "");
}

#[test]
fn nice_list_handles_small_sizes() {
    assert_eq!(nice_list(&Vec::new(), "and"), "");
    assert_eq!(nice_list(&vec!["a".to_string()], "and"), "a");
    assert_eq!(nice_list(&vec!["a".to_string(), "b".to_string()], "and"), "a and b");
}

#[test]
fn nice_list_joins_longer_lists_with_the_closing_word() {
    let items = vec!["a".to_string(), "b".to_string(), "c".to_string()];
    assert_eq!(nice_list(&items, "and"), "a, b, and c");
    let items = vec!["a".to_string(), "b".to_string(), "c".to_string(), "d".to_string()];
    assert_eq!(nice_list(&items, "or"), "a, b, c, or d");
}

#[test]
fn str_eq_compares_characters() {
    assert!(str_eq("abc", "abc"));
    assert!(!str_eq("abc", "abd"));
    assert!(!str_eq("abc", "ab"));
    assert!(str_eq("", ""));
}

#[test]
fn vec_contains_string_compares_contents() {
    let v = vec!["a".to_string(), "b".to_string()];
    assert!(vec_contains_string(&v, &"a".to_string()));
    assert!(!vec_contains_string(&v, &"c".to_string()));
}

#[test]
fn errors_always_print_except_when_very_silent() {
    assert!(OutputLevel::Silent.is_enabled(OutputKind::Error));
    assert!(OutputLevel::Normal.is_enabled(OutputKind::Error));
    assert!(!OutputLevel::VerySilent.is_enabled(OutputKind::Error));
}

#[test]
fn each_level_widens_the_kinds_shown() {
    assert!(!OutputLevel::Silent.is_enabled(OutputKind::Info));
    assert!(OutputLevel::Silent.is_enabled(OutputKind::Okay));
    assert!(OutputLevel::Normal.is_enabled(OutputKind::Info));
    assert!(!OutputLevel::Normal.is_enabled(OutputKind::Debug));
    assert!(OutputLevel::Verbose.is_enabled(OutputKind::Debug));
    assert!(!OutputLevel::Verbose.is_enabled(OutputKind::Trace));
    assert!(OutputLevel::VeryVerbose.is_enabled(OutputKind::Trace));
}

#[test]
fn labels_and_streams_follow_the_kind() {
    assert_eq!(kind_label(OutputKind::Okay), "ok!");
    assert_eq!(kind_label(OutputKind::Error), "error!");
    assert_eq!(kind_label(OutputKind::Warning), "warning!");
    assert_eq!(kind_label(OutputKind::Info), "info");
    assert!(kind_to_stderr(OutputKind::Error));
    assert!(kind_to_stderr(OutputKind::Warning));
    assert!(!kind_to_stderr(OutputKind::Okay));
    assert!(!kind_to_stderr(OutputKind::Trace));
    let record = OutputRecord { kind: OutputKind::Info, message: "hello".to_string() };
    assert_eq!(record.message, "hello");
}

#[test]
fn default_config_enables_the_known_backends() {
    let cfg = FpmConfig::default();
    assert_eq!(cfg.enabled_sources, vec!["google-fonts"]);
    assert_eq!(cfg.cache_dir, None);
    assert_eq!(cfg.font_install_dir, None);
    assert_eq!(sources(), vec!["google-fonts"]);
}

#[test]
fn directories_fall_back_to_the_platform_default() {
    let cfg = FpmConfig {
        enabled_sources: Vec::new(),
        cache_dir: Some("/custom".to_string()),
        font_install_dir: None,
    };
    assert_eq!(cfg.cache_dir_or("/default".to_string()), "/custom");
    assert_eq!(cfg.font_install_dir_or("/fonts".to_string()), "/fonts");
}

#[test]
fn only_known_sources_are_selected() {
    let enabled = vec!["google-fonts".to_string(), "unknown".to_string()];
    assert_eq!(select_sources(&enabled, &None), vec!["google-fonts"]);
    assert_eq!(
        select_sources(&enabled, &Some(vec!["google-fonts".to_string()])),
        vec!["google-fonts"]
    );
    assert!(select_sources(&enabled, &Some(vec!["unknown".to_string()])).is_empty());
    assert!(select_sources(&enabled, &Some(vec!["other".to_string()])).is_empty());
    assert!(is_known_source(&"google-fonts".to_string()));
    assert!(!is_known_source(&"fontsource".to_string()));
    assert_eq!(google_fonts_id(), "google-fonts");
    assert_eq!(google_fonts_name(), "Google Fonts");
}

struct FixedSource;

impl SourceExt for FixedSource {
    fn description(&self) -> SourceDescription {
        SourceDescription { id: "fixed".to_string(), name: "Fixed".to_string() }
    }
}

#[test]
fn source_descriptions_carry_id_and_name() {
    let d = FixedSource.description();
    assert_eq!(d.id, "fixed");
    assert_eq!(d.name, "Fixed");
    let _ = EmptyFpmHost::new();
}

#[test]
fn branch_data_yields_its_commit_marker() {
    let branch = GithubBranchData { commit: GithubCommitData { sha: "abc123".to_string() } };
    assert_eq!(branch.marker(), "abc123");
}

#[test]
fn install_paths_follow_the_output_format() {
    let spec = fontpm::DefinedFontInstallSpec { id: "noto".to_string(), styles: Vec::new() };
    let regular = DefinedFontVariantSpec {
        weight: DefinedFontWeight::Fixed(400),
        style: DefinedFontStyle::Regular,
    };
    let bold_italic = DefinedFontVariantSpec {
        weight: DefinedFontWeight::Fixed(700),
        style: DefinedFontStyle::Italic,
    };
    let italic = DefinedFontVariantSpec {
        weight: DefinedFontWeight::Fixed(400),
        style: DefinedFontStyle::Italic,
    };
    let variable = DefinedFontVariantSpec {
        weight: DefinedFontWeight::Variable,
        style: DefinedFontStyle::Regular,
    };
    let src = "cache/g/noto/regular/abc.ttf";
    assert_eq!(
        OutputFormat::Flat.get_path("out", &spec, &regular, src),
        "out/noto-regular.ttf"
    );
    assert_eq!(
        OutputFormat::FlatDirectory.get_path("out", &spec, &regular, src),
        "out/noto/noto-regular.ttf"
    );
    assert_eq!(
        OutputFormat::Flat.get_path("out", &spec, &bold_italic, src),
        "out/noto-700-italic.ttf"
    );
    assert_eq!(OutputFormat::Flat.get_path("out", &spec, &italic, src), "out/noto-italic.ttf");
    assert_eq!(OutputFormat::Flat.get_path("out", &spec, &variable, src), "out/noto-wght.ttf");
}

#[test]
fn misc_paths_follow_the_output_format() {
    let desc = FontDescription::new("Noto".to_string(), "noto".to_string(), "1".to_string());
    assert_eq!(
        OutputFormat::Flat.get_misc_path("out", &desc, "noto.css"),
        "out/noto.css"
    );
    assert_eq!(
        OutputFormat::FlatDirectory.get_misc_path("out", &desc, "noto.css"),
        "out/noto/noto.css"
    );
    let e = GenerateError::PathError("bad".to_string());
    assert!(matches!(e, GenerateError::PathError(_)));
}

#[test]
fn a_description_of_an_identifier_alone_repeats_it() {
    let d = SourceDescription::of_id("google-fonts".to_string());
    assert_eq!(d.id, "google-fonts");
    assert_eq!(d.name, "google-fonts");
}
