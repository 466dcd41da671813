use cargo_msrv_pin::metadata::{
    direct_parent_ids, find_package, incompatible_packages, metadata_args, package_named, root_id, CargoMetadata,
    MetadataPackage, Resolve, ResolveNode, ResolveNodeDep,
};
use cargo_msrv_pin::version::parse_version;

fn pkg(name: &str, version: &str, source: Option<&str>, rust_version: Option<&str>) -> MetadataPackage {
    MetadataPackage {
        name: name.to_owned(),
        version: version.to_owned(),
        id: format!("id#{name}@{version}"),
        source: source.map(str::to_owned),
        rust_version: rust_version.map(str::to_owned),
    }
}

fn metadata(packages: Vec<MetadataPackage>) -> CargoMetadata {
    CargoMetadata {
        packages,
        resolve: Resolve {
            nodes: vec![],
            root: None,
        },
    }
}

#[test]
fn flags_packages_above_toolchain() {
    let metadata = metadata(vec![
        pkg(
            "clap",
            "4.6.6",
            Some("registry+https://github.com/rust-lang/crates.io-index"),
            Some("1.80"),
        ),
        pkg(
            "serde",
            "1.0.229",
            Some("registry+https://github.com/rust-lang/crates.io-index"),
            Some("1.70"),
        ),
    ]);
    let toolchain = parse_version("1.75").unwrap();
    let incompatible = incompatible_packages(&metadata, &toolchain);
    assert_eq!(incompatible, vec![("clap".to_owned(), "4.6.6".to_owned())]);
}

#[test]
fn ignores_path_and_git_dependencies() {
    let metadata = metadata(vec![
        pkg("my-workspace-crate", "0.1.0", None, Some("1.80")),
        pkg(
            "some-git-dep",
            "0.1.0",
            Some("git+https://example.com/dep"),
            Some("1.80"),
        ),
    ]);
    let toolchain = parse_version("1.75").unwrap();
    assert!(incompatible_packages(&metadata, &toolchain).is_empty());
}

#[test]
fn ignores_packages_without_rust_version() {
    let metadata = metadata(vec![pkg(
        "no-msrv",
        "0.1.0",
        Some("registry+https://github.com/rust-lang/crates.io-index"),
        None,
    )]);
    let toolchain = parse_version("1.75").unwrap();
    assert!(incompatible_packages(&metadata, &toolchain).is_empty());
}

#[test]
fn skips_unparsable_rust_version_with_a_warning() {
    let metadata = metadata(vec![pkg(
        "weird-msrv",
        "0.1.0",
        Some("registry+https://github.com/rust-lang/crates.io-index"),
        Some("not-a-version"),
    )]);
    let toolchain = parse_version("1.75").unwrap();
    assert!(incompatible_packages(&metadata, &toolchain).is_empty());
}

#[test]
fn finds_the_direct_parent_of_a_package() {
    let mut metadata = metadata(vec![
        pkg("wasip2", "1.0.4", Some("registry+..."), Some("1.87")),
        pkg("getrandom", "0.3.4", Some("registry+..."), Some("1.70")),
        pkg("tempfile", "3.27.0", Some("registry+..."), Some("1.70")),
    ]);
    metadata.resolve = Resolve {
        root: Some("id#kerosd@1.0.0".to_owned()),
        nodes: vec![
            ResolveNode {
                id: "id#getrandom@0.3.4".to_owned(),
                deps: vec![ResolveNodeDep {
                    pkg: "id#wasip2@1.0.4".to_owned(),
                }],
            },
            ResolveNode {
                id: "id#tempfile@3.27.0".to_owned(),
                deps: vec![ResolveNodeDep {
                    pkg: "id#getrandom@0.3.4".to_owned(),
                }],
            },
        ],
    };

    assert_eq!(
        direct_parent_ids(&metadata, "id#wasip2@1.0.4"),
        vec!["id#getrandom@0.3.4"]
    );
    assert_eq!(
        find_package(&metadata, "id#getrandom@0.3.4").map(|p| p.name.as_str()),
        Some("getrandom")
    );
    assert_eq!(root_id(&metadata), Some("id#kerosd@1.0.0"));
}

#[test]
fn finds_a_package_by_name_or_reports_it_absent() {
    let metadata = metadata(vec![pkg(
        "wasip2",
        "1.0.4",
        Some("registry+..."),
        Some("1.87"),
    )]);
    assert_eq!(
        package_named(&metadata, "wasip2").map(|p| p.version.as_str()),
        Some("1.0.4")
    );
    assert!(package_named(&metadata, "getrandom").is_none());
}

#[test]
fn reports_no_parents_for_a_package_nothing_depends_on() {
    let metadata = metadata(vec![pkg(
        "standalone",
        "1.0.0",
        Some("registry+..."),
        Some("1.70"),
    )]);
    assert!(direct_parent_ids(&metadata, "id#standalone@1.0.0").is_empty());
}

#[test]
fn keeps_graph_order_and_flags_only_strictly_newer_msrvs() {
    let metadata = metadata(vec![
        pkg("b", "1.0.0", Some("registry+x"), Some("1.76")),
        pkg("exact", "1.0.0", Some("registry+x"), Some("1.75.0")),
        pkg("a", "2.0.0", Some("registry+x"), Some("2")),
        pkg("pre", "1.0.0", Some("registry+x"), Some("1.75.0-nightly")),
    ]);
    let toolchain = parse_version("1.75").unwrap();
    assert_eq!(
        incompatible_packages(&metadata, &toolchain),
        vec![("b".to_owned(), "1.0.0".to_owned()), ("a".to_owned(), "2.0.0".to_owned())]
    );
}

#[test]
fn several_parents_and_first_matches() {
    let mut metadata = metadata(vec![
        pkg("dup", "1.0.0", Some("registry+x"), None),
        pkg("dup", "2.0.0", Some("registry+x"), None),
    ]);
    metadata.resolve.nodes = vec![
        ResolveNode { id: "p1".to_owned(), deps: vec![ResolveNodeDep { pkg: "x".to_owned() }] },
        ResolveNode { id: "p2".to_owned(), deps: vec![] },
        ResolveNode {
            id: "p3".to_owned(),
            deps: vec![ResolveNodeDep { pkg: "y".to_owned() }, ResolveNodeDep { pkg: "x".to_owned() }],
        },
    ];
    assert_eq!(direct_parent_ids(&metadata, "x"), vec!["p1", "p3"]);
    assert_eq!(package_named(&metadata, "dup").map(|p| p.version.as_str()), Some("1.0.0"));
    assert!(find_package(&metadata, "id#dup@3.0.0").is_none());
    assert_eq!(root_id(&metadata), None);
}

#[test]
fn builds_the_metadata_command() {
    assert_eq!(metadata_args(None), vec!["cargo", "metadata", "--format-version", "1"]);
    assert_eq!(
        metadata_args(Some("1.75")),
        vec!["cargo", "+1.75", "metadata", "--format-version", "1"]
    );
}

#[test]
fn a_newer_toolchain_flags_a_sublist() {
    let metadata = metadata(vec![
        pkg("a", "1.0.0", Some("registry+x"), Some("1.80")),
        pkg("b", "1.0.0", Some("registry+x"), Some("1.76")),
        pkg("c", "1.0.0", Some("registry+x"), Some("1.78.0-beta.2")),
        pkg("d", "1.0.0", Some("registry+x"), Some("1.70")),
    ]);
    let older = parse_version("1.75").unwrap();
    let newer = parse_version("1.78.0-beta.1").unwrap();
    let newest = parse_version("1.78").unwrap();
    let pair = |n: &str| (n.to_owned(), "1.0.0".to_owned());
    assert_eq!(incompatible_packages(&metadata, &older), vec![pair("a"), pair("b"), pair("c")]);
    assert_eq!(incompatible_packages(&metadata, &newer), vec![pair("a"), pair("c")]);
    assert_eq!(incompatible_packages(&metadata, &newest), vec![pair("a")]);
}
