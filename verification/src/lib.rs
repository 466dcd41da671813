//! Pin a Cargo project's registry dependencies to the newest releases whose
//! declared minimum Rust version fits a given toolchain.

pub mod command;
pub mod error;
pub mod text;
pub mod precedence;
pub mod version;
pub mod metadata;
pub mod registry;
pub mod manifest;
pub mod lockfile;
pub mod downgrade;
