use cargo_msrv_pin::error::PinError;
use cargo_msrv_pin::version::{pad_version, parse_version, Requirement, SemVer, Toolchain, VersionOrder};

#[test]
fn pads_major_only() {
    assert_eq!(parse_version("1").unwrap(), SemVer::new(1, 0, 0));
}

#[test]
fn pads_major_minor() {
    assert_eq!(parse_version("1.75").unwrap(), SemVer::new(1, 75, 0));
}

#[test]
fn keeps_full_version() {
    assert_eq!(parse_version("1.75.0").unwrap(), SemVer::new(1, 75, 0));
}

#[test]
fn rejects_garbage() {
    assert!(parse_version("not-a-version").is_err());
}

#[test]
fn orders_as_expected() {
    assert!(parse_version("1.75").unwrap().is_less_than(&parse_version("1.75.1").unwrap()));
    // Semver compares components numerically, not lexically: minor 8 < 75.
    assert!(parse_version("1.8").unwrap().is_less_than(&parse_version("1.75").unwrap()));
}

#[test]
fn pad_version_fills_in_missing_components() {
    assert_eq!(pad_version("1"), "1.0.0");
    assert_eq!(pad_version("1.75"), "1.75.0");
    assert_eq!(pad_version("1.75.2"), "1.75.2");
    assert_eq!(pad_version("1.2.3.4"), "1.2.3.4");
    assert_eq!(pad_version(""), ".0.0");
}

#[test]
fn invalid_version_error_names_the_unpadded_text() {
    match parse_version("1.x") {
        Err(PinError::InvalidVersion { version, .. }) => assert_eq!(version, "1.x"),
        other => panic!("unexpected result: {other:?}"),
    }
}

#[test]
fn parses_pre_release_and_build_metadata() {
    let v = parse_version("1.2.3-beta.1+build.5").unwrap();
    assert_eq!((v.major(), v.minor(), v.patch()), (1, 2, 3));
    assert!(!v.is_release());
    assert!(parse_version("1.2.3").unwrap().is_release());
}

#[test]
fn exact_parse_does_not_pad() {
    assert!(SemVer::parse("1.75").is_err());
    assert_eq!(SemVer::parse("1.75.0").unwrap(), SemVer::new(1, 75, 0));
    match SemVer::parse("1.75") {
        Err(PinError::InvalidVersion { version, .. }) => assert_eq!(version, "1.75"),
        other => panic!("unexpected result: {other:?}"),
    }
}

#[test]
fn orders_by_numbers_then_release_over_pre_release() {
    let a = parse_version("1.2.3").unwrap();
    let b = parse_version("1.10.0").unwrap();
    assert_eq!(a.order(&b), VersionOrder::Less);
    assert_eq!(b.order(&a), VersionOrder::Greater);
    assert_eq!(a.order(&parse_version("1.2.3").unwrap()), VersionOrder::Equal);
    let pre = parse_version("1.2.3-rc.1").unwrap();
    assert_eq!(a.order(&pre), VersionOrder::Greater);
    assert_eq!(pre.order(&a), VersionOrder::Less);
    assert!(!a.is_less_than(&a));
}

#[test]
fn toolchain_keeps_the_raw_text_and_builds_the_plus_argument() {
    let t = Toolchain::parse("1.75").unwrap();
    assert_eq!(t.raw, "1.75");
    assert_eq!(t.version, SemVer::new(1, 75, 0));
    assert_eq!(t.arg(), "+1.75");
    assert!(Toolchain::parse("nightly").is_err());
}

#[test]
fn requirements_match_as_semver_says() {
    let v = SemVer::new(4, 5, 61);
    assert!(!Requirement::parse("4.6.7").unwrap().matches(&v));
    assert!(Requirement::parse(">=4.5.0").unwrap().matches(&v));
    assert!(Requirement::parse("=4.5.61").unwrap().matches(&v));
    assert!(Requirement::parse("not a requirement").is_none());
}

#[test]
fn orders_pre_release_tags_identifier_by_identifier() {
    let chain = [
        "1.0.0-alpha",
        "1.0.0-alpha.1",
        "1.0.0-alpha.beta",
        "1.0.0-beta",
        "1.0.0-beta.2",
        "1.0.0-beta.11",
        "1.0.0-rc.1",
        "1.0.0",
    ];
    for pair in chain.windows(2) {
        let lower = SemVer::parse(pair[0]).unwrap();
        let upper = SemVer::parse(pair[1]).unwrap();
        assert_eq!(lower.order(&upper), VersionOrder::Less, "{} < {}", pair[0], pair[1]);
        assert_eq!(upper.order(&lower), VersionOrder::Greater, "{} > {}", pair[1], pair[0]);
    }
}

#[test]
fn orders_build_metadata_after_everything_else() {
    let plain = SemVer::parse("1.0.0").unwrap();
    let build = SemVer::parse("1.0.0+build.9").unwrap();
    let later = SemVer::parse("1.0.0+build.10").unwrap();
    let alpha = SemVer::parse("1.0.0+build.a").unwrap();
    assert_eq!(plain.order(&build), VersionOrder::Less);
    assert_eq!(build.order(&later), VersionOrder::Less);
    assert_eq!(later.order(&alpha), VersionOrder::Less);
    assert_eq!(build.order(&SemVer::parse("1.0.0+build.9").unwrap()), VersionOrder::Equal);
    assert_eq!(build.order(&SemVer::parse("1.0.1").unwrap()), VersionOrder::Less);
}
