//! The per-crate workflow object, staged through two states: `ManagedCrate`
//! is a bare reference to a crate's location, and `StagedCrate` additionally
//! owns what staging observed: the generator outcome, the build-file
//! comparison, the per-patch results, the versions, and the tree diff.
//! Staged values are disposable scratch state; writing anything back is an
//! explicit action the caller performs.

use vstd::prelude::*;

use crate::Error;
use crate::ignore::{spec_diffs_clean, diffs_clean};
use crate::version::Version;

verus! {

/// The result of applying one stored patch file, with the process output
/// captured for diagnostics.
pub struct PatchOutcome {
    pub file: String,
    pub applied: bool,
    pub stdout: Vec<u8>,
    pub stderr: Vec<u8>,
}

/// Whether every patch applied without conflict.
pub open spec fn all_patches_applied(ps: Seq<PatchOutcome>) -> bool {
    forall|i: int| 0 <= i < ps.len() ==> (#[trigger] ps[i]).applied
}

/// A crate referenced by name only, not yet staged.
pub struct ManagedCrate {
    pub name: String,
}

/// An action the write-back paths ask the caller to perform on a crate.
pub enum CrateAction {
    /// Run the build-metadata generator against a fresh staging copy and
    /// overwrite the checked-in build artifacts.
    RegenerateBuildFiles { name: String },
    /// Refresh the provenance metadata file.
    UpdateMetadata { name: String },
    /// Rewrite stored patch path prefixes after the crate moved location.
    RecontextualizePatches { name: String },
}

impl ManagedCrate {
    /// References the crate at its location.
    pub fn new(name: String) -> (r: ManagedCrate)
        ensures
            r.name == name,
    {
        ManagedCrate { name }
    }

    /// Stages the crate: takes up what the staging run observed.
    pub fn stage(
        self,
        android_version: Version,
        vendored_version: Version,
        generator_success: bool,
        build_file_unchanged: bool,
        patches: Vec<PatchOutcome>,
        diffs: Vec<Vec<String>>,
    ) -> (r: StagedCrate)
        ensures
            r.name@ == self.name@,
            r.android_version == android_version,
            r.vendored_version == vendored_version,
            r.generator_success == generator_success,
            r.build_file_unchanged == build_file_unchanged,
            r.patches@ == patches@,
            r.diffs@ == diffs@,
    {
        StagedCrate {
            name: self.name,
            android_version,
            vendored_version,
            generator_success,
            build_file_unchanged,
            patches,
            diffs,
        }
    }

    /// The write-back path for accepted drift: regenerate the build
    /// artifacts against a freshly vendored reference, refreshing provenance
    /// metadata when asked to.
    pub fn regenerate(&self, update_metadata: bool) -> (r: Vec<CrateAction>)
        ensures
            update_metadata ==> r@.len() == 2 && (r@[0] matches CrateAction::RegenerateBuildFiles {
                name,
            } && name == self.name) && (r@[1] matches CrateAction::UpdateMetadata { name }
                && name == self.name),
            !update_metadata ==> r@.len() == 1 && (r@[0]
                matches CrateAction::RegenerateBuildFiles { name } && name == self.name),
    {
        let mut r: Vec<CrateAction> = Vec::new();
        r.push(CrateAction::RegenerateBuildFiles { name: self.name.clone() });
        if update_metadata {
            r.push(CrateAction::UpdateMetadata { name: self.name.clone() });
        }
        r
    }

    /// Rewrites stored patch path prefixes after the crate moved location.
    pub fn recontextualize_patches(&self) -> (r: CrateAction)
        ensures
            r matches CrateAction::RecontextualizePatches { name } && name == self.name,
    {
        CrateAction::RecontextualizePatches { name: self.name.clone() }
    }
}

/// A staged crate: a working copy was created, the generator was run and the
/// stored patches were applied.
pub struct StagedCrate {
    pub name: String,
    /// The version of the checked-in copy the staging started from.
    pub android_version: Version,
    /// The version found in the vendored reference copy.
    pub vendored_version: Version,
    /// Whether the build-metadata generator exited successfully.
    pub generator_success: bool,
    /// Whether the generator output matches the checked-in build file.
    pub build_file_unchanged: bool,
    /// The outcome of each stored patch, applied independently.
    pub patches: Vec<PatchOutcome>,
    /// The differing paths between the crate's tree and the staged tree,
    /// each split into components.
    pub diffs: Vec<Vec<String>>,
}

impl StagedCrate {
    /// True iff the build-metadata generator exited successfully.
    pub fn cargo_embargo_success(&self) -> (r: bool)
        ensures
            r == self.generator_success,
    {
        self.generator_success
    }

    /// True iff the generator output matches the checked-in build file.
    pub fn android_bp_unchanged(&self) -> (r: bool)
        ensures
            r == self.build_file_unchanged,
    {
        self.build_file_unchanged
    }

    /// True iff every stored patch applied without conflict. A failing patch
    /// never masks the others: each outcome is recorded independently.
    pub fn patch_success(&self) -> (r: bool)
        ensures
            r == all_patches_applied(self.patches@),
    {
        let mut i: usize = 0;
        while i < self.patches.len()
            invariant
                0 <= i <= self.patches.len(),
                forall|k: int| 0 <= k < i ==> (#[trigger] self.patches@[k]).applied,
            decreases self.patches.len() - i,
        {
            if !self.patches[i].applied {
                return false;
            }
            i += 1;
        }
        true
    }

    /// Read-only verification for pre-submit checks: the staging must be
    /// reproducible. Never mutates the managed tree.
    pub fn check_staged(&self) -> (r: Result<(), Error>)
        ensures
            r is Ok <==> all_patches_applied(self.patches@) && self.generator_success
                && self.build_file_unchanged,
            !all_patches_applied(self.patches@) ==> r matches Err(Error::PatchFailure),
            all_patches_applied(self.patches@) && !self.generator_success ==> r matches Err(
                Error::GeneratorFailure,
            ),
            all_patches_applied(self.patches@) && self.generator_success
                && !self.build_file_unchanged ==> r matches Err(Error::DriftDetected),
    {
        if !self.patch_success() {
            Err(Error::PatchFailure)
        } else if !self.generator_success {
            Err(Error::GeneratorFailure)
        } else if !self.build_file_unchanged {
            Err(Error::DriftDetected)
        } else {
            Ok(())
        }
    }

    /// Read-only tree comparison for pre-submit checks: any difference not
    /// confined to ignored names is drift.
    pub fn diff_staged(&self) -> (r: Result<(), Error>)
        ensures
            r is Ok <==> spec_diffs_clean(self.diffs.deep_view()),
            r is Err ==> r matches Err(Error::DriftDetected),
    {
        if diffs_clean(&self.diffs) {
            Ok(())
        } else {
            Err(Error::DriftDetected)
        }
    }
}

} // verus!
