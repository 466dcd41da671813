use cargo_msrv_pin::command::{command_run, CommandOutput};
use cargo_msrv_pin::downgrade::{run, Action, Downgrade, Event, Outcome, Phase, MAX_UPDATES};
use cargo_msrv_pin::error::PinError;
use cargo_msrv_pin::metadata::{CargoMetadata, MetadataPackage, Resolve, ResolveNode, ResolveNodeDep};
use cargo_msrv_pin::registry::CrateVersion;

fn registry_pkg(name: &str, version: &str, rust_version: &str) -> MetadataPackage {
    MetadataPackage {
        name: name.to_owned(),
        version: version.to_owned(),
        id: format!("{name}@{version}"),
        source: Some("registry+https://github.com/rust-lang/crates.io-index".to_owned()),
        rust_version: Some(rust_version.to_owned()),
    }
}

fn metadata(packages: Vec<MetadataPackage>) -> CargoMetadata {
    CargoMetadata { packages, resolve: Resolve { nodes: vec![], root: None } }
}

fn published(num: &str, rust_version: &str) -> CrateVersion {
    CrateVersion { num: num.to_owned(), yanked: false, rust_version: Some(rust_version.to_owned()) }
}

fn failed(stderr: &str) -> PinError {
    let out = CommandOutput { success: false, code: Some(101), stdout: String::new(), stderr: stderr.to_owned() };
    command_run(&["cargo"], &out).unwrap_err()
}

fn start(toolchain: &str) -> Downgrade {
    let (d, a) = run(toolchain).unwrap();
    match a {
        Action::CheckLockfile { args } => {
            assert_eq!(args, vec!["cargo", &format!("+{toolchain}"), "metadata", "--format-version", "1"])
        }
        _ => panic!("expected a lock file check"),
    }
    d
}

#[test]
fn rejects_an_invalid_toolchain() {
    assert!(matches!(run("stable"), Err(PinError::InvalidVersion { .. })));
}

#[test]
fn a_compatible_graph_goes_straight_to_the_check() {
    let mut d = start("1.75");
    assert!(matches!(d.step(Event::LockfileChecked(Ok(()))).unwrap(), Action::ReadMetadata { .. }));
    let a = d.step(Event::Metadata(metadata(vec![registry_pkg("serde", "1.0.0", "1.60")]))).unwrap();
    match a {
        Action::Verify { outcome, args } => {
            assert_eq!(outcome, Outcome::Resolved);
            assert_eq!(args, vec!["cargo", "+1.75", "check"]);
        }
        _ => panic!("expected the final check"),
    }
    assert!(matches!(d.step(Event::Verified).unwrap(), Action::Done));
    assert_eq!(d.phase, Phase::Finished);
}

#[test]
fn regenerates_a_lock_file_of_a_newer_format() {
    let mut d = start("1.75");
    let e = failed("lock file version `4` was found, but this version of Cargo does not understand this lock file");
    match d.step(Event::LockfileChecked(Err(e))).unwrap() {
        Action::RegenerateLockfile { args } => {
            assert_eq!(args, vec!["cargo", "+1.75", "metadata", "--format-version", "1"])
        }
        _ => panic!("expected regeneration"),
    }
    assert!(matches!(d.step(Event::LockfileRegenerated).unwrap(), Action::ReadMetadata { .. }));
}

#[test]
fn other_lock_file_failures_are_left_for_the_check() {
    let mut d = start("1.75");
    let a = d.step(Event::LockfileChecked(Err(failed("error: something else")))).unwrap();
    assert!(matches!(a, Action::ReadMetadata { .. }));
    assert_eq!(d.iterations, 1);
}

#[test]
fn downgrades_one_package_then_rereads_the_metadata() {
    let mut d = start("1.75");
    d.step(Event::LockfileChecked(Ok(()))).unwrap();
    let graph = metadata(vec![registry_pkg("pest", "2.8.2", "1.80"), registry_pkg("pest_derive", "2.8.2", "1.80")]);
    match d.step(Event::Metadata(graph)).unwrap() {
        Action::LookUpVersions { name, version } => assert_eq!((name.as_str(), version.as_str()), ("pest", "2.8.2")),
        _ => panic!("expected a lookup"),
    }
    let versions = vec![published("2.8.2", "1.80"), published("2.8.0", "1.65")];
    match d.step(Event::Versions(versions)).unwrap() {
        Action::Relax { name, new_version } => assert_eq!((name.as_str(), new_version.as_str()), ("pest", "2.8.0")),
        _ => panic!("expected relaxing"),
    }
    match d.step(Event::Relaxed(false)).unwrap() {
        Action::Update { name, version, new_version, args } => {
            assert_eq!((name.as_str(), version.as_str(), new_version.as_str()), ("pest", "2.8.2", "2.8.0"));
            assert_eq!(args, vec!["cargo", "+1.75", "update", "pest@2.8.2", "--precise", "2.8.0"]);
        }
        _ => panic!("expected an update"),
    }
    assert!(matches!(d.step(Event::Updated(Ok(()))).unwrap(), Action::ReadMetadata { .. }));
    assert_eq!(d.iterations, 2);
}

#[test]
fn a_conflicting_update_defers_to_the_next_package_and_then_gives_up() {
    let mut d = start("1.75");
    d.step(Event::LockfileChecked(Ok(()))).unwrap();
    let graph = metadata(vec![registry_pkg("a", "2.0.0", "1.80"), registry_pkg("b", "3.0.0", "1.80")]);
    d.step(Event::Metadata(graph)).unwrap();
    // No published version of `a` fits: skip to `b`.
    match d.step(Event::Versions(vec![published("2.0.0", "1.80")])).unwrap() {
        Action::LookUpVersions { name, .. } => assert_eq!(name, "b"),
        _ => panic!("expected the next lookup"),
    }
    d.step(Event::Versions(vec![published("2.9.0", "1.70")])).unwrap();
    d.step(Event::Relaxed(true)).unwrap();
    // `cargo update` refuses: nothing left to try.
    match d.step(Event::Updated(Err(failed("error: failed to select a version")))).unwrap() {
        Action::Verify { outcome, .. } => assert_eq!(outcome, Outcome::Stuck),
        _ => panic!("expected the final check"),
    }
}

#[test]
fn other_update_errors_end_the_run() {
    let mut d = start("1.75");
    d.step(Event::LockfileChecked(Ok(()))).unwrap();
    d.step(Event::Metadata(metadata(vec![registry_pkg("a", "2.0.0", "1.80")]))).unwrap();
    d.step(Event::Versions(vec![published("1.0.0", "1.70")])).unwrap();
    d.step(Event::Relaxed(false)).unwrap();
    let e = d.step(Event::Updated(Err(PinError::CommandNotFound("cargo".to_owned())))).unwrap_err();
    assert!(matches!(e, PinError::CommandNotFound(_)));
    assert_eq!(d.phase, Phase::Finished);
}

#[test]
fn stops_after_the_safety_limit() {
    let mut d = start("1.75");
    let mut a = d.step(Event::LockfileChecked(Ok(()))).unwrap();
    let mut rounds = 0;
    loop {
        match a {
            Action::ReadMetadata { .. } => {
                rounds += 1;
                a = d.step(Event::Metadata(metadata(vec![registry_pkg("a", "2.0.0", "1.80")]))).unwrap();
            }
            Action::LookUpVersions { .. } => a = d.step(Event::Versions(vec![published("1.0.0", "1.70")])).unwrap(),
            Action::Relax { .. } => a = d.step(Event::Relaxed(false)).unwrap(),
            Action::Update { .. } => a = d.step(Event::Updated(Ok(()))).unwrap(),
            Action::Verify { outcome, .. } => {
                assert_eq!(outcome, Outcome::LimitReached);
                break;
            }
            _ => panic!("unexpected action"),
        }
    }
    assert_eq!(rounds, MAX_UPDATES);
}

fn graph_with_parents() -> CargoMetadata {
    let mut m = metadata(vec![
        registry_pkg("wasip2", "1.0.4", "1.87"),
        registry_pkg("getrandom", "0.3.4", "1.70"),
        registry_pkg("tempfile", "3.27.0", "1.70"),
        MetadataPackage {
            name: "app".to_owned(),
            version: "1.0.0".to_owned(),
            id: "app@1.0.0".to_owned(),
            source: None,
            rust_version: None,
        },
    ]);
    m.resolve = Resolve {
        root: Some("app@1.0.0".to_owned()),
        nodes: vec![
            ResolveNode { id: "getrandom@0.3.4".to_owned(), deps: vec![ResolveNodeDep { pkg: "wasip2@1.0.4".to_owned() }] },
            ResolveNode { id: "tempfile@3.27.0".to_owned(), deps: vec![ResolveNodeDep { pkg: "getrandom@0.3.4".to_owned() }] },
            ResolveNode { id: "app@1.0.0".to_owned(), deps: vec![ResolveNodeDep { pkg: "tempfile@3.27.0".to_owned() }] },
        ],
    };
    m
}

#[test]
fn without_a_compatible_version_the_dependent_is_downgraded() {
    let mut d = start("1.75");
    d.step(Event::LockfileChecked(Ok(()))).unwrap();
    match d.step(Event::Metadata(graph_with_parents())).unwrap() {
        Action::LookUpVersions { name, .. } => assert_eq!(name, "wasip2"),
        _ => panic!("expected a lookup"),
    }
    match d.step(Event::Versions(vec![published("1.0.4", "1.87"), published("1.0.0", "1.82")])).unwrap() {
        Action::LookUpVersions { name, version } => {
            assert_eq!((name.as_str(), version.as_str()), ("getrandom", "0.3.4"));
            assert_eq!(d.phase, Phase::LookingUpDependent);
        }
        _ => panic!("expected the dependent's lookup"),
    }
    let getrandom = vec![published("0.3.4", "1.70"), published("0.3.3", "1.63"), published("0.2.15", "1.60")];
    match d.step(Event::Versions(getrandom)).unwrap() {
        Action::Relax { name, new_version } => assert_eq!((name.as_str(), new_version.as_str()), ("getrandom", "0.3.3")),
        _ => panic!("expected relaxing the dependent"),
    }
    match d.step(Event::Relaxed(false)).unwrap() {
        Action::Update { args, .. } => {
            assert_eq!(args, vec!["cargo", "+1.75", "update", "getrandom@0.3.4", "--precise", "0.3.3"])
        }
        _ => panic!("expected the dependent's update"),
    }
    assert!(matches!(d.step(Event::Updated(Ok(()))).unwrap(), Action::ReadMetadata { .. }));
}

#[test]
fn climbs_further_and_never_to_the_local_package() {
    let mut d = start("1.75");
    d.step(Event::LockfileChecked(Ok(()))).unwrap();
    d.step(Event::Metadata(graph_with_parents())).unwrap();
    d.step(Event::Versions(vec![published("1.0.4", "1.87")])).unwrap();
    // getrandom has nothing older that fits: climb to tempfile.
    match d.step(Event::Versions(vec![published("0.3.4", "1.70"), published("0.3.5", "1.70")])).unwrap() {
        Action::LookUpVersions { name, version } => {
            assert_eq!((name.as_str(), version.as_str()), ("tempfile", "3.27.0"))
        }
        _ => panic!("expected the next dependent's lookup"),
    }
    // tempfile's update is refused; its parent is the local package: give up.
    d.step(Event::Versions(vec![published("3.26.0", "1.63")])).unwrap();
    d.step(Event::Relaxed(false)).unwrap();
    match d.step(Event::Updated(Err(failed("error: failed to select a version")))).unwrap() {
        Action::Verify { outcome, .. } => assert_eq!(outcome, Outcome::Stuck),
        _ => panic!("expected the final check"),
    }
}

#[test]
fn each_dependent_is_tried_once() {
    let mut m = metadata(vec![
        registry_pkg("wasip2", "1.0.4", "1.87"),
        registry_pkg("a", "1.0.0", "1.60"),
        registry_pkg("b", "1.0.0", "1.60"),
        registry_pkg("c", "1.0.0", "1.60"),
    ]);
    let edge = |pkg: &str| ResolveNodeDep { pkg: pkg.to_owned() };
    m.resolve.nodes = vec![
        ResolveNode { id: "a@1.0.0".to_owned(), deps: vec![edge("wasip2@1.0.4")] },
        ResolveNode { id: "b@1.0.0".to_owned(), deps: vec![edge("wasip2@1.0.4")] },
        ResolveNode { id: "c@1.0.0".to_owned(), deps: vec![edge("a@1.0.0"), edge("b@1.0.0")] },
    ];
    let mut d = start("1.75");
    d.step(Event::LockfileChecked(Ok(()))).unwrap();
    let mut action = d.step(Event::Metadata(m)).unwrap();
    let mut looked_up = Vec::new();
    loop {
        match action {
            Action::LookUpVersions { name, .. } => {
                looked_up.push(name);
                // Nothing published fits, and nothing older than what is locked.
                action = d.step(Event::Versions(vec![published("9.0.0", "1.90")])).unwrap();
            }
            Action::Verify { outcome, .. } => {
                assert_eq!(outcome, Outcome::Stuck);
                break;
            }
            _ => panic!("unexpected action"),
        }
    }
    assert_eq!(looked_up, vec!["wasip2", "a", "b", "c"]);
}
