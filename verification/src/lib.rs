//! A release helper for git-hosted Rust packages: it rewrites version fields
//! across a repository (the root manifest, every member manifest of a
//! workspace, and an optional application-config file), then commits, tags
//! and pushes to every configured remote.
//!
//! The library plans and decides; it performs no I/O itself. A caller reads
//! files and runs the version-control commands, hands the observed bytes in,
//! and carries out the [`actions::VcsAction`] values handed back.

pub mod actions;
pub mod appconfig;
pub mod manifest;
pub mod scan;
pub mod textops;
pub mod tool;
pub mod version;

pub use tool::{Cli, ReleaseTool};

use vstd::prelude::*;
use vstd::string::*;

verus! {

/// The errors a release run can end with.
#[derive(Debug, Clone, Copy, PartialEq, Eq, Structural)]
pub enum ReleaseError {
    InvalidVersionFormat,
    NotARepository,
    DirtyWorkingTree,
    NoManifestFound,
    TagAlreadyExists,
    ManifestParse,
    ConfigParse,
}

impl ReleaseError {
    /// The printable description of each error.
    pub open spec fn spec_message(&self) -> Seq<char> {
        match *self {
            ReleaseError::InvalidVersionFormat => "invalid version; use a semantic version such as 1.2.3 or 2.0.0-beta.1, or pass --force"@,
            ReleaseError::NotARepository => "the current directory is not inside a git repository"@,
            ReleaseError::DirtyWorkingTree => "the working tree has uncommitted changes; commit or stash them first"@,
            ReleaseError::NoManifestFound => "no Cargo.toml found"@,
            ReleaseError::TagAlreadyExists => "the tag already exists; use --re-publish to publish it again"@,
            ReleaseError::ManifestParse => "a manifest could not be parsed"@,
            ReleaseError::ConfigParse => "the application config could not be parsed"@,
        }
    }

    /// The printable description of the error.
    pub fn message(&self) -> (r: String)
        ensures
            r@ == self.spec_message(),
    {
        match *self {
            ReleaseError::InvalidVersionFormat => String::from_str(
                "invalid version; use a semantic version such as 1.2.3 or 2.0.0-beta.1, or pass --force",
            ),
            ReleaseError::NotARepository => String::from_str(
                "the current directory is not inside a git repository",
            ),
            ReleaseError::DirtyWorkingTree => String::from_str(
                "the working tree has uncommitted changes; commit or stash them first",
            ),
            ReleaseError::NoManifestFound => String::from_str("no Cargo.toml found"),
            ReleaseError::TagAlreadyExists => String::from_str(
                "the tag already exists; use --re-publish to publish it again",
            ),
            ReleaseError::ManifestParse => String::from_str("a manifest could not be parsed"),
            ReleaseError::ConfigParse => String::from_str(
                "the application config could not be parsed",
            ),
        }
    }
}

} // verus!
