use cargo_msrv_pin::registry::{select_compatible_version, CrateVersion};
use cargo_msrv_pin::version::parse_version;

fn version(num: &str, yanked: bool, rust_version: Option<&str>) -> CrateVersion {
    CrateVersion {
        num: num.to_owned(),
        yanked,
        rust_version: rust_version.map(str::to_owned),
    }
}

#[test]
fn picks_highest_compatible_version() {
    let versions = vec![
        version("2.8.6", false, Some("1.82")),
        version("2.8.2", false, Some("1.75")),
        version("2.8.0", false, Some("1.70")),
    ];
    let toolchain = parse_version("1.75").unwrap();
    assert_eq!(
        select_compatible_version(&versions, &toolchain),
        Some("2.8.2".to_owned())
    );
}

#[test]
fn skips_yanked_versions() {
    let versions = vec![
        version("2.8.2", true, Some("1.70")),
        version("2.8.0", false, Some("1.70")),
    ];
    let toolchain = parse_version("1.75").unwrap();
    assert_eq!(
        select_compatible_version(&versions, &toolchain),
        Some("2.8.0".to_owned())
    );
}

#[test]
fn skips_pre_release_versions() {
    let versions = vec![
        version("2.9.0-beta.1", false, Some("1.70")),
        version("2.8.0", false, Some("1.70")),
    ];
    let toolchain = parse_version("1.75").unwrap();
    assert_eq!(
        select_compatible_version(&versions, &toolchain),
        Some("2.8.0".to_owned())
    );
}

#[test]
fn treats_missing_rust_version_as_always_compatible() {
    let versions = vec![version("2.8.0", false, None)];
    let toolchain = parse_version("1.75").unwrap();
    assert_eq!(
        select_compatible_version(&versions, &toolchain),
        Some("2.8.0".to_owned())
    );
}

#[test]
fn returns_none_when_nothing_fits() {
    let versions = vec![version("2.8.0", false, Some("1.80"))];
    let toolchain = parse_version("1.75").unwrap();
    assert_eq!(select_compatible_version(&versions, &toolchain), None);
}

#[test]
fn order_of_the_listing_does_not_matter() {
    let versions = vec![
        version("1.0.0", false, None),
        version("1.10.0", false, Some("1.60")),
        version("1.9.0", false, None),
        version("2.0.0", false, Some("1.90")),
    ];
    let toolchain = parse_version("1.75").unwrap();
    assert_eq!(select_compatible_version(&versions, &toolchain), Some("1.10.0".to_owned()));
}

#[test]
fn an_unparsable_rust_version_does_not_fit_and_an_unparsable_number_is_skipped() {
    let versions = vec![
        version("3.0.0", false, Some("soon")),
        version("garbage", false, None),
        version("2", false, None),
    ];
    let toolchain = parse_version("1.75").unwrap();
    // "2" is padded to 2.0.0 and returned as written.
    assert_eq!(select_compatible_version(&versions, &toolchain), Some("2".to_owned()));
    assert_eq!(select_compatible_version(&[], &toolchain), None);
}

#[test]
fn equal_versions_keep_the_first_listed() {
    let versions = vec![version("1.2", false, None), version("1.2.0", false, None)];
    let toolchain = parse_version("1.75").unwrap();
    assert_eq!(select_compatible_version(&versions, &toolchain), Some("1.2".to_owned()));
}

#[test]
fn a_newer_toolchain_never_gets_a_lower_version() {
    let versions = vec![
        version("1.0.0", false, None),
        version("1.1.0", false, Some("1.70")),
        version("1.2.0", false, Some("1.78.0-beta.1")),
        version("1.3.0", false, Some("1.80")),
    ];
    let picks: Vec<Option<String>> = ["1.60", "1.75", "1.78.0-beta.1", "1.78", "1.80"]
        .iter()
        .map(|t| select_compatible_version(&versions, &parse_version(t).unwrap()))
        .collect();
    assert_eq!(
        picks,
        vec![
            Some("1.0.0".to_owned()),
            Some("1.1.0".to_owned()),
            Some("1.2.0".to_owned()),
            Some("1.2.0".to_owned()),
            Some("1.3.0".to_owned()),
        ]
    );
}
