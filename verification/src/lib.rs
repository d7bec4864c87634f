//! Verified orchestration engine for migrating vendored third-party crates
//! into a centrally managed monorepo directory.
//!
//! The library models the durable state the workflow acts on (the managed
//! directory listing, the legacy vendoring area, the pseudo-project manifest
//! and its persisted crate list) as plain values, and verifies every decision
//! the workflow makes: health verdicts, batch migration, dependency-closure
//! discovery, consistency checks, and the ignore rules for tree comparison.
//! The surrounding process work (directory scans, subprocess invocations,
//! network fetches) stays outside the library and hands it plain values.

use vstd::prelude::*;

pub mod ignore;
pub mod managed_crate;
pub mod manifest_text;
pub mod names;
pub mod pseudo;
pub mod records;
pub mod repo;
pub mod version;

verus! {

/// The error taxonomy of the workflow.
pub enum Error {
    /// A crate is present where it must be absent.
    AlreadyExists,
    /// A legacy location holds zero or multiple versions of a crate.
    AmbiguousVersion { count: usize },
    /// A self-contained prerequisite (build file, generator config, or
    /// migration permission) is missing.
    PrerequisiteMissing,
    /// The build-metadata generator did not exit successfully.
    GeneratorFailure,
    /// Generator output or tree contents diverged from the checked-in state.
    DriftDetected,
    /// One or more stored patches failed to apply.
    PatchFailure,
    /// License requirements could not all be satisfied.
    LicenseUnsatisfied,
    /// The manifest, the crate-list file and the managed directory
    /// disagree: each side of the mismatched pair reports the names only it
    /// holds.
    ConsistencyViolation { left_only: Vec<String>, right_only: Vec<String> },
    /// A filesystem or subprocess operation failed.
    IoFailure,
}

} // verus!
