use sha2::{Digest, Sha256};

use fontpm::acquire::{
    acquire_variant, extension_of, location_hash, plan_font_download, variant_download_path,
};
use fontpm::data::{Data, FontDescription};
use fontpm::source::CacheSnapshot;
use fontpm::{DefinedFontInstallSpec, DefinedFontStyle, DefinedFontVariantSpec, DefinedFontWeight, Error};

fn hex_of(data: &[u8]) -> String {
    Sha256::digest(data).iter().map(|b| format!("{:02x}", b)).collect()
}

#[test]
fn location_hash_is_the_lowercase_sha256_hex() {
    assert_eq!(
        location_hash("abc"),
        "ba7816bf8f01cfea414140de5dae2223b00361a396177a9cb410ff61f20015ad"
    );
    assert_eq!(location_hash(""), hex_of(b""));
    assert_eq!(
        location_hash("fonts.example/s/noto/v1/file.ttf"),
        hex_of(b"fonts.example/s/noto/v1/file.ttf")
    );
}

#[test]
fn extension_is_taken_from_the_last_component() {
    assert_eq!(extension_of("host/fonts/a.ttf"), ".ttf");
    assert_eq!(extension_of("host/fonts/archive.tar.gz"), ".gz");
    assert_eq!(extension_of("host/fonts/noext"), "");
    assert_eq!(extension_of("host/fonts/.hidden"), "");
    assert_eq!(extension_of("host.dir/noext"), "");
    assert_eq!(extension_of("plain.woff2"), ".woff2");
}

#[test]
fn variant_paths_are_content_addressed() {
    let v = DefinedFontVariantSpec {
        weight: DefinedFontWeight::Fixed(700),
        style: DefinedFontStyle::Italic,
    };
    let remote = "host/noto/c.ttf";
    let path = variant_download_path("cache/google-fonts", "noto-sans", &v, remote);
    let expected = format!("cache/google-fonts/noto-sans/700italic/{}.ttf", hex_of(remote.as_bytes()));
    assert_eq!(path, expected);
}

fn catalog_with_files() -> Data {
    let fam = FontDescription {
        id: "noto-sans".to_string(),
        display_name: "Noto Sans".to_string(),
        version: 1,
        tags: Vec::new(),
        last_modified: 0,
        files: vec![
            ("regular".to_string(), "host/noto/a.ttf".to_string()),
            ("700italic".to_string(), "host/noto/c.woff".to_string()),
        ],
        variants: vec!["regular".to_string(), "700italic".to_string()],
    };
    Data::new(vec![fam], Vec::new())
}

fn install_spec() -> DefinedFontInstallSpec {
    DefinedFontInstallSpec {
        id: "noto-sans".to_string(),
        styles: vec![
            DefinedFontVariantSpec {
                weight: DefinedFontWeight::Fixed(400),
                style: DefinedFontStyle::Regular,
            },
            DefinedFontVariantSpec {
                weight: DefinedFontWeight::Fixed(700),
                style: DefinedFontStyle::Italic,
            },
        ],
    }
}

#[test]
fn a_download_plan_names_paths_and_endpoints() {
    let cache = CacheSnapshot { marker: None, catalog: Some(catalog_with_files()) };
    let items = plan_font_download(&cache, &install_spec(), &"cache/g".to_string()).unwrap();
    assert_eq!(items.len(), 2);
    assert_eq!(items[0].variant, install_spec().styles[0]);
    assert_eq!(
        items[0].path,
        format!("cache/g/noto-sans/regular/{}.ttf", hex_of(b"host/noto/a.ttf"))
    );
    assert_eq!(items[0].url, "https://host/noto/a.ttf");
    assert_eq!(
        items[1].path,
        format!("cache/g/noto-sans/700italic/{}.woff", hex_of(b"host/noto/c.woff"))
    );
    assert_eq!(items[1].url, "https://host/noto/c.woff");
}

#[test]
fn planning_without_a_catalog_is_a_not_found_error() {
    let cache = CacheSnapshot::empty();
    let r = plan_font_download(&cache, &install_spec(), &"cache/g".to_string());
    assert!(matches!(r, Err(Error::IO(_))));
}

#[test]
fn planning_an_unknown_family_is_a_generic_error() {
    let cache = CacheSnapshot { marker: None, catalog: Some(catalog_with_files()) };
    let spec = DefinedFontInstallSpec { id: "missing".to_string(), styles: Vec::new() };
    assert!(matches!(
        plan_font_download(&cache, &spec, &"cache/g".to_string()),
        Err(Error::Generic(_))
    ));
}

#[test]
fn planning_a_variant_without_a_file_is_a_generic_error() {
    let cache = CacheSnapshot { marker: None, catalog: Some(catalog_with_files()) };
    let spec = DefinedFontInstallSpec {
        id: "noto-sans".to_string(),
        styles: vec![DefinedFontVariantSpec {
            weight: DefinedFontWeight::Fixed(300),
            style: DefinedFontStyle::Regular,
        }],
    };
    assert!(matches!(
        plan_font_download(&cache, &spec, &"cache/g".to_string()),
        Err(Error::Generic(_))
    ));
}

#[test]
fn acquiring_the_same_path_twice_fetches_only_once() {
    let mut present: Vec<String> = Vec::new();
    let path = "cache/g/noto-sans/regular/abc.ttf".to_string();
    assert!(acquire_variant(&mut present, &path));
    assert!(!acquire_variant(&mut present, &path));
    assert_eq!(present, vec![path]);
}

#[test]
fn acquisition_only_fetches_missing_paths() {
    let mut present = vec!["cache/a".to_string()];
    assert!(!acquire_variant(&mut present, &"cache/a".to_string()));
    assert!(acquire_variant(&mut present, &"cache/b".to_string()));
    assert_eq!(present, vec!["cache/a".to_string(), "cache/b".to_string()]);
}
