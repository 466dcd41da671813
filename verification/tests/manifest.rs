use cargo_msrv_pin::error::PinError;
use cargo_msrv_pin::manifest::{relax_manifest, relax_requirement};
use toml_edit::DocumentMut;

#[test]
fn pins_a_plain_string_requirement() {
    let mut doc: DocumentMut = "[dependencies]\nclap = \"4.6.7\"\n".parse().unwrap();
    assert!(relax_requirement(&mut doc, "clap", "4.5.61").unwrap());
    assert_eq!(doc.to_string(), "[dependencies]\nclap = \"=4.5.61\"\n");
}

#[test]
fn pins_the_version_key_of_an_inline_table_and_keeps_its_other_keys() {
    let mut doc: DocumentMut =
        "[dependencies]\nclap = { version = \"4.6.7\", features = [\"derive\"] }\n"
            .parse()
            .unwrap();
    assert!(relax_requirement(&mut doc, "clap", "4.5.61").unwrap());
    assert_eq!(
        doc.to_string(),
        "[dependencies]\nclap = { version = \"=4.5.61\", features = [\"derive\"] }\n"
    );
}

#[test]
fn pins_the_version_key_of_a_dotted_table() {
    let mut doc: DocumentMut = "[dependencies.clap]\nversion = \"4.6.7\"\n"
        .parse()
        .unwrap();
    assert!(relax_requirement(&mut doc, "clap", "4.5.61").unwrap());
    assert_eq!(
        doc.to_string(),
        "[dependencies.clap]\nversion = \"=4.5.61\"\n"
    );
}

#[test]
fn leaves_a_requirement_that_already_allows_the_new_version() {
    let mut doc: DocumentMut = "[dependencies]\nclap = \">=4.5.0\"\n".parse().unwrap();
    assert!(!relax_requirement(&mut doc, "clap", "4.5.61").unwrap());
    assert_eq!(doc.to_string(), "[dependencies]\nclap = \">=4.5.0\"\n");
}

#[test]
fn ignores_a_package_that_is_not_a_direct_dependency() {
    let mut doc: DocumentMut = "[dependencies]\nclap = \"4.6.7\"\n".parse().unwrap();
    assert!(!relax_requirement(&mut doc, "clap_builder", "4.5.61").unwrap());
    assert_eq!(doc.to_string(), "[dependencies]\nclap = \"4.6.7\"\n");
}

#[test]
fn checks_dev_and_build_dependencies_too() {
    let mut doc: DocumentMut = "[build-dependencies]\nclap = \"4.6.7\"\n".parse().unwrap();
    assert!(relax_requirement(&mut doc, "clap", "4.5.61").unwrap());
    assert_eq!(
        doc.to_string(),
        "[build-dependencies]\nclap = \"=4.5.61\"\n"
    );
}

#[test]
fn pins_only_the_first_blocking_table_and_keeps_comments() {
    let text = "[dependencies]\nclap = \">=4\" # any four\n\n[dev-dependencies]\nclap = \"4.6.7\" # tests\n\n[build-dependencies]\nclap = \"4.6.7\"\n";
    let mut doc: DocumentMut = text.parse().unwrap();
    assert!(relax_requirement(&mut doc, "clap", "4.5.61").unwrap());
    assert_eq!(
        doc.to_string(),
        "[dependencies]\nclap = \">=4\" # any four\n\n[dev-dependencies]\nclap = \"=4.5.61\" # tests\n\n[build-dependencies]\nclap = \"4.6.7\"\n"
    );
}

#[test]
fn skips_entries_without_a_string_requirement() {
    for text in [
        "[dependencies]\nclap = { path = \"../clap\" }\n",
        "[dependencies]\nclap = { version = 4 }\n",
        "[dependencies]\nclap = 4\n",
        "dependencies = 3\n",
        "[dependencies]\nclap = \"not a requirement\"\n",
    ] {
        let mut doc: DocumentMut = text.parse().unwrap();
        assert!(!relax_requirement(&mut doc, "clap", "4.5.61").unwrap(), "{text}");
        assert_eq!(doc.to_string(), text);
    }
}

#[test]
fn rejects_an_invalid_new_version_and_leaves_the_document() {
    let text = "[dependencies]\nclap = \"4.6.7\"\n";
    let mut doc: DocumentMut = text.parse().unwrap();
    match relax_requirement(&mut doc, "clap", "4.5") {
        Err(PinError::InvalidVersion { version, .. }) => assert_eq!(version, "4.5"),
        other => panic!("unexpected result: {other:?}"),
    }
    assert_eq!(doc.to_string(), text);
}

#[test]
fn relaxes_manifest_text() {
    assert_eq!(
        relax_manifest("[dependencies]\nclap = \"4.6.7\"\n", "clap", "4.5.61").unwrap(),
        Some("[dependencies]\nclap = \"=4.5.61\"\n".to_owned())
    );
    assert_eq!(relax_manifest("[dependencies]\nclap = \"4\"\n", "clap", "4.5.61").unwrap(), None);
    assert!(matches!(
        relax_manifest("[dependencies\n", "clap", "4.5.61"),
        Err(PinError::ParseManifest(_))
    ));
    assert!(matches!(
        relax_manifest("[dependencies]\n", "clap", "x"),
        Err(PinError::InvalidVersion { .. })
    ));
}
