//! The library's error type.

use crate::command::CommandFailure;
use vstd::prelude::*;

verus! {

/// `std::io::Error`, carried through as the source of an I/O failure.
#[verifier::external_type_specification]
#[verifier::external_body]
pub struct ExIoError(std::io::Error);

/// `semver::Error`, carried through as the source of a version parse failure.
#[verifier::external_type_specification]
#[verifier::external_body]
pub struct ExSemverError(semver::Error);

/// `serde_json::Error`, carried through as the source of a metadata decode failure.
#[verifier::external_type_specification]
#[verifier::external_body]
pub struct ExJsonError(serde_json::Error);

/// `reqwest::Error`, carried through as the source of a crates.io failure.
#[verifier::external_type_specification]
#[verifier::external_body]
pub struct ExHttpError(reqwest::Error);

/// `toml_edit::TomlError`, carried through as the source of a manifest parse failure.
#[verifier::external_type_specification]
#[verifier::external_body]
pub struct ExTomlError(toml_edit::TomlError);

/// Everything that can stop a run.
#[derive(Debug)]
#[allow(inconsistent_fields)]
pub enum PinError {
    /// An external command ran and exited unsuccessfully.
    Command(CommandFailure),
    /// An external command could not be found.
    CommandNotFound(String),
    /// An I/O operation failed; `action` says which.
    Io { action: &'static str, source: std::io::Error },
    /// A version string is not a valid semantic version.
    InvalidVersion { version: String, source: semver::Error },
    /// `cargo metadata` printed something that is not its JSON format.
    Metadata(serde_json::Error),
    /// A crates.io request failed; `action` says which step.
    CratesIo { action: &'static str, crate_name: String, source: reqwest::Error },
    /// `Cargo.toml` is not valid TOML.
    ParseManifest(toml_edit::TomlError),
}

} // verus!
