//! The top-level orchestrator: migration health checking, batch migration,
//! dependency-closure import, re-generation, staging verification and the
//! pre-submit consistency check, all as verified decisions over the modeled
//! repository state.

use vstd::prelude::*;

use crate::Error;
use crate::ignore::spec_diffs_clean;
use crate::ignore::diffs_clean;
use crate::managed_crate::{all_patches_applied, StagedCrate};
use crate::names::{
    clone_names, contains_name, lemma_pop_front_contains, lemma_push_contains, names_contain,
    names_difference, views_of,
};
use crate::pseudo::{
    entry_names, lemma_deps_of_in_universe, lemma_table_universe_finite, manifest_contains,
    spec_deps_of, table_universe, ManifestEntry, PseudoCrate, Resolution,
};
use crate::records::{count_matching, record_names, spec_record_for, CrateCollection, CrateRecord};
use crate::version::{stub_rep, Version, VersionReq};

verus! {

/// One structured diagnostic record, reported alongside (not instead of) the
/// terminal verdict of a health check.
#[derive(Clone, Copy, PartialEq, Eq, Structural, Debug)]
pub enum Diagnostic {
    /// The crate is on the migration denylist.
    MigrationDenied,
    /// The legacy copy has no checked-in build file.
    MissingBuildFile,
    /// The legacy copy has no generator configuration.
    MissingGeneratorConfig,
    /// The generator failed on the standalone staging.
    StandaloneGeneratorFailed,
    /// The generator changed the build file on the standalone staging.
    StandaloneBuildFileChanged,
    /// The vendored copy resolves to a different version than the legacy one
    /// (informational, not fatal).
    VersionChanged,
    /// One or more stored patches did not apply to the vendored staging.
    PatchesFailed,
    /// The generator failed on the vendored staging.
    VendoredGeneratorFailed,
    /// The generator changed the build file on the vendored staging.
    VendoredBuildFileChanged,
    /// The legacy and staged trees differ beyond the ignored names.
    TreeDiffers,
    /// Differences were found but the caller asked for an unpinned import,
    /// so they are accepted and flagged for manual inspection.
    UnpinnedDriftAccepted,
}

/// What the health probe observed about one legacy crate. The standalone
/// staging runs only when the self-contained prerequisites hold, and the
/// vendored staging only when the standalone one was reproducible, so those
/// observations are present exactly then.
pub struct HealthObservations {
    /// Whether the legacy copy has a checked-in build file.
    pub has_build_file: bool,
    /// Whether the legacy copy has a generator configuration.
    pub has_generator_config: bool,
    /// The staging of the legacy crate on its own, without the
    /// pseudo-project.
    pub standalone: Option<StagedCrate>,
    /// The staging of the legacy crate against the vendored reference copy.
    pub vendored: Option<StagedCrate>,
}

/// The health verdict, as a mathematical value.
pub enum HealthFinding {
    AlreadyExists,
    AmbiguousVersion { count: nat },
    PrerequisiteMissing,
    GeneratorFailure,
    DriftDetected,
    PatchFailure,
    Healthy { version: Version, flagged: bool },
}

/// Whether the self-contained prerequisites of a migration hold: the crate
/// is not denied, and both the build file and the generator configuration
/// are present.
pub open spec fn prereq_ok(krate: CrateRecord, obs: HealthObservations) -> bool {
    !krate.migration_denied && obs.has_build_file && obs.has_generator_config
}

/// Whether the observations have the shape the probe protocol produces:
/// staging happens only when the prerequisites hold, and vendored staging
/// only after a reproducible standalone staging.
pub open spec fn wf_health_obs(
    legacy: Seq<CrateRecord>,
    name: Seq<char>,
    obs: HealthObservations,
) -> bool {
    &&& (obs.standalone is Some <==> prereq_ok(spec_record_for(legacy, name), obs))
    &&& (obs.vendored is Some <==> (obs.standalone matches Some(st) && st.generator_success
        && st.build_file_unchanged))
}

/// The verdict of the migration health check, by the policy ordering: a
/// crate already managed or ambiguous is rejected outright; missing
/// prerequisites are unhealthy; an irreproducible standalone staging is
/// unhealthy; failed patches, a failed generator or a changed build file on
/// the vendored staging are unhealthy; a clean tree is healthy; drift is
/// accepted, flagged, only when the caller asked for an unpinned import.
pub open spec fn spec_health(
    managed: Seq<Seq<char>>,
    legacy: Seq<CrateRecord>,
    name: Seq<char>,
    obs: HealthObservations,
    unpinned: bool,
) -> HealthFinding {
    if contains_name(managed, name) {
        HealthFinding::AlreadyExists
    } else if count_matching(legacy, name) != 1 {
        HealthFinding::AmbiguousVersion { count: count_matching(legacy, name) }
    } else if !prereq_ok(spec_record_for(legacy, name), obs) {
        HealthFinding::PrerequisiteMissing
    } else {
        match obs.standalone {
            None => HealthFinding::GeneratorFailure,
            Some(st) => {
                if !st.generator_success {
                    HealthFinding::GeneratorFailure
                } else if !st.build_file_unchanged {
                    HealthFinding::DriftDetected
                } else {
                    match obs.vendored {
                        None => HealthFinding::GeneratorFailure,
                        Some(vd) => {
                            if !all_patches_applied(vd.patches@) {
                                HealthFinding::PatchFailure
                            } else if !vd.generator_success {
                                HealthFinding::GeneratorFailure
                            } else if !vd.build_file_unchanged {
                                HealthFinding::DriftDetected
                            } else if spec_diffs_clean(vd.diffs.deep_view()) {
                                HealthFinding::Healthy { version: vd.vendored_version, flagged: false }
                            } else if unpinned {
                                HealthFinding::Healthy { version: vd.vendored_version, flagged: true }
                            } else {
                                HealthFinding::DriftDetected
                            }
                        },
                    }
                }
            },
        }
    }
}

/// Whether a returned verdict carries exactly the given finding.
pub open spec fn verdict_matches(r: Result<Version, Error>, f: HealthFinding) -> bool {
    match f {
        HealthFinding::AlreadyExists => r matches Err(Error::AlreadyExists),
        HealthFinding::AmbiguousVersion { count } => r matches Err(
            Error::AmbiguousVersion { count: c },
        ) && c as nat == count,
        HealthFinding::PrerequisiteMissing => r matches Err(Error::PrerequisiteMissing),
        HealthFinding::GeneratorFailure => r matches Err(Error::GeneratorFailure),
        HealthFinding::DriftDetected => r matches Err(Error::DriftDetected),
        HealthFinding::PatchFailure => r matches Err(Error::PatchFailure),
        HealthFinding::Healthy { version, flagged } => r matches Ok(v) && v == version,
    }
}

/// The diagnostics the health check reports, in the order it discovers them.
pub open spec fn health_diags(
    managed: Seq<Seq<char>>,
    legacy: Seq<CrateRecord>,
    name: Seq<char>,
    obs: HealthObservations,
    unpinned: bool,
) -> Seq<Diagnostic> {
    if contains_name(managed, name) || count_matching(legacy, name) != 1 {
        Seq::<Diagnostic>::empty()
    } else {
        let krate = spec_record_for(legacy, name);
        let prereq = (if krate.migration_denied {
            seq![Diagnostic::MigrationDenied]
        } else {
            Seq::<Diagnostic>::empty()
        }) + (if !obs.has_build_file {
            seq![Diagnostic::MissingBuildFile]
        } else {
            Seq::<Diagnostic>::empty()
        }) + (if !obs.has_generator_config {
            seq![Diagnostic::MissingGeneratorConfig]
        } else {
            Seq::<Diagnostic>::empty()
        });
        if !prereq_ok(krate, obs) {
            prereq
        } else {
            match obs.standalone {
                None => prereq,
                Some(st) => {
                    if !st.generator_success {
                        prereq + seq![Diagnostic::StandaloneGeneratorFailed]
                    } else if !st.build_file_unchanged {
                        prereq + seq![Diagnostic::StandaloneBuildFileChanged]
                    } else {
                        match obs.vendored {
                            None => prereq,
                            Some(vd) => {
                                let ok = all_patches_applied(vd.patches@) && vd.generator_success
                                    && vd.build_file_unchanged;
                                let clean = spec_diffs_clean(vd.diffs.deep_view());
                                prereq + (if !crate::version::version_eq(
                                    vd.android_version,
                                    vd.vendored_version,
                                ) {
                                    seq![Diagnostic::VersionChanged]
                                } else {
                                    Seq::<Diagnostic>::empty()
                                }) + (if !all_patches_applied(vd.patches@) {
                                    seq![Diagnostic::PatchesFailed]
                                } else {
                                    Seq::<Diagnostic>::empty()
                                }) + (if !vd.generator_success {
                                    seq![Diagnostic::VendoredGeneratorFailed]
                                } else if !vd.build_file_unchanged {
                                    seq![Diagnostic::VendoredBuildFileChanged]
                                } else {
                                    Seq::<Diagnostic>::empty()
                                }) + (if !clean {
                                    seq![Diagnostic::TreeDiffers]
                                } else {
                                    Seq::<Diagnostic>::empty()
                                }) + (if ok && !clean && unpinned {
                                    seq![Diagnostic::UnpinnedDriftAccepted]
                                } else {
                                    Seq::<Diagnostic>::empty()
                                })
                            },
                        }
                    }
                },
            }
        }
    }
}

/// An action migration asks the caller to perform, in order: first the
/// batch's build metadata is regenerated and the crate list rewritten, then
/// each legacy location is scrubbed of its build artifacts.
pub enum MigrateAction {
    /// Run the generator against a fresh staging of the migrated crate and
    /// overwrite the checked-in build artifacts.
    RegenerateBuildFiles { name: String },
    /// Rewrite the persisted crate list from the manifest.
    RegenerateCrateList,
    /// Remove the build files (`*.bp`) from the legacy location.
    RemoveBuildFiles { name: String },
    /// Remove the generator configuration file.
    RemoveGeneratorConfig { name: String },
    /// Remove the test-mapping file, where present.
    RemoveTestMapping { name: String },
    /// Replace the legacy build file with the one-line migration pointer.
    WriteStub { name: String, content: String },
}

/// The health finding for batch element `i` of a migration, judged against
/// the managed directory as it stands once the first `i` crates of the batch
/// were copied in.
pub open spec fn migrate_finding(
    m0: Seq<Seq<char>>,
    legacy: Seq<CrateRecord>,
    names: Seq<String>,
    obs: Seq<HealthObservations>,
    unpinned: Seq<Seq<char>>,
    i: int,
) -> HealthFinding {
    spec_health(
        m0 + views_of(names).take(i),
        legacy,
        names[i]@,
        obs[i],
        contains_name(unpinned, names[i]@),
    )
}

/// Whether the first `k` batch elements are all healthy.
pub open spec fn migrate_ok_upto(
    m0: Seq<Seq<char>>,
    legacy: Seq<CrateRecord>,
    names: Seq<String>,
    obs: Seq<HealthObservations>,
    unpinned: Seq<Seq<char>>,
    k: int,
) -> bool {
    forall|j: int|
        0 <= j < k ==> migrate_finding(m0, legacy, names, obs, unpinned, j) is Healthy
}

/// The version a healthy finding carries; an arbitrary version for any
/// other finding, which no contract inspects.
pub open spec fn finding_version(f: HealthFinding) -> Version {
    match f {
        HealthFinding::Healthy { version, .. } => version,
        _ => vstd::pervasive::arbitrary::<Version>(),
    }
}

/// The manifest entry migration registers for batch element `i`: pinned to
/// the discovered version, unless the caller listed the name as unpinned.
pub open spec fn migrate_entry(
    m0: Seq<Seq<char>>,
    legacy: Seq<CrateRecord>,
    names: Seq<String>,
    obs: Seq<HealthObservations>,
    unpinned: Seq<Seq<char>>,
    i: int,
) -> ManifestEntry {
    let v = finding_version(migrate_finding(m0, legacy, names, obs, unpinned, i));
    ManifestEntry {
        name: names[i],
        req: if contains_name(unpinned, names[i]@) {
            VersionReq::Compatible(v)
        } else {
            VersionReq::Exact(v)
        },
    }
}

/// The manifest entries migration registers for the first `k` batch
/// elements.
pub open spec fn migrate_entries(
    m0: Seq<Seq<char>>,
    legacy: Seq<CrateRecord>,
    names: Seq<String>,
    obs: Seq<HealthObservations>,
    unpinned: Seq<Seq<char>>,
    k: int,
) -> Seq<ManifestEntry> {
    Seq::new(k as nat, |i: int| migrate_entry(m0, legacy, names, obs, unpinned, i))
}

/// What the import of one new dependency observed.
pub struct ImportObservations {
    /// Whether the generator-configuration bootstrap succeeded on the copy.
    pub generator_config_ok: bool,
    /// The satisfied license requirements, by name.
    pub license_satisfied: Vec<String>,
    /// The license file discovered for each satisfied requirement, aligned
    /// with `license_satisfied`.
    pub satisfied_files: Vec<String>,
    /// The unsatisfied license requirements, by name.
    pub license_unsatisfied: Vec<String>,
    /// The declared repository, where the crate has one.
    pub repository: Option<String>,
    /// Whether the copy already holds a license file at the expected name.
    pub license_file_present: bool,
    /// Whether the copy already holds a checked-in build file.
    pub build_file_present: bool,
    /// The version of the vendored copy.
    pub version: Version,
    /// The crate's declared description.
    pub description: String,
    /// The most restrictive license type among the satisfied requirements,
    /// as the license checker computes it.
    pub most_restrictive_license: String,
}

/// An action import asks the caller to perform for one new dependency.
pub enum ImportAction {
    /// Copy the vendored tree into the managed directory.
    CopyVendored { name: String },
    /// Bootstrap the generator configuration in the copy.
    GenerateConfig { name: String },
    /// Fetch the canonical permissive license text from the crate's
    /// repository and record its addition as a patch.
    FetchLicenseFallback { name: String, repository: String },
    /// Link the expected license name to the single applicable license
    /// file, named by `target`.
    SymlinkLicense { name: String, target: String },
    /// Refresh the per-module license marker files.
    UpdateModuleLicenses { name: String },
    /// Initialize the provenance metadata file from the crate's name,
    /// version, description and most restrictive license type.
    WriteMetadata { name: String, version: Version, description: String, license_type: String },
    /// Write a placeholder empty build file, since a crate without one is
    /// treated as unhealthy elsewhere. Emitted only when none exists.
    WriteEmptyBuildFile { name: String },
}

/// Whether the inline license fallback applies: exactly one requirement is
/// unsatisfied, none is satisfied, the requirement is the permissive license
/// the heuristic knows, and the crate declares a repository to fetch from.
pub open spec fn license_fallback_applies(o: ImportObservations) -> bool {
    &&& o.license_unsatisfied@.len() == 1
    &&& o.license_satisfied@.len() == 0
    &&& o.repository is Some
    &&& o.license_unsatisfied.deep_view()[0] == "Apache-2.0"@
}

/// Whether the import of a dependency is blocked on licenses: requirements
/// are unsatisfied, none is satisfied, and the fallback does not apply.
pub open spec fn license_blocked(o: ImportObservations) -> bool {
    o.license_unsatisfied@.len() > 0 && o.license_satisfied@.len() == 0 && !license_fallback_applies(
        o,
    )
}

/// Whether the single applicable license file is linked to the expected
/// name: one satisfied requirement, none unsatisfied, no file there yet.
pub open spec fn symlink_applies(o: ImportObservations) -> bool {
    o.license_satisfied@.len() == 1 && o.license_unsatisfied@.len() == 0
        && !o.license_file_present
}

/// Why the import of one dependency fails, if it does, against the managed
/// directory as it stands when that dependency is reached.
pub open spec fn import_dep_error(
    managed: Seq<Seq<char>>,
    legacy: Seq<CrateRecord>,
    dep: Seq<char>,
    o: ImportObservations,
) -> Option<Error> {
    if contains_name(managed, dep) {
        Some(Error::AlreadyExists)
    } else if contains_name(record_names(legacy), dep) {
        Some(Error::AlreadyExists)
    } else if !o.generator_config_ok {
        Some(Error::GeneratorFailure)
    } else if license_blocked(o) {
        Some(Error::LicenseUnsatisfied)
    } else {
        None
    }
}

/// The actions import performs for one dependency, in order.
pub open spec fn import_dep_actions(dep: String, o: ImportObservations) -> Seq<ImportAction> {
    let head = seq![
        ImportAction::CopyVendored { name: dep },
        ImportAction::GenerateConfig { name: dep },
    ];
    let tail = (if symlink_applies(o) {
        seq![ImportAction::SymlinkLicense { name: dep, target: o.satisfied_files[0] }]
    } else {
        Seq::<ImportAction>::empty()
    }) + seq![
        ImportAction::UpdateModuleLicenses { name: dep },
        ImportAction::WriteMetadata {
            name: dep,
            version: o.version,
            description: o.description,
            license_type: o.most_restrictive_license,
        },
    ] + (if !o.build_file_present {
        seq![ImportAction::WriteEmptyBuildFile { name: dep }]
    } else {
        Seq::<ImportAction>::empty()
    });
    match o.repository {
        Some(rep) => head + (if license_fallback_applies(o) {
            seq![ImportAction::FetchLicenseFallback { name: dep, repository: rep }]
        } else {
            Seq::<ImportAction>::empty()
        }) + tail,
        None => head + tail,
    }
}

/// The actions import performs for the first `k` dependencies.
pub open spec fn import_actions_upto(
    deps: Seq<String>,
    obs: Seq<ImportObservations>,
    k: int,
) -> Seq<ImportAction>
    decreases k,
{
    if k <= 0 {
        Seq::<ImportAction>::empty()
    } else {
        import_actions_upto(deps, obs, k - 1) + import_dep_actions(deps[k - 1], obs[k - 1])
    }
}

/// The verdict and the diagnostics of one health check.
pub struct HealthReport {
    pub verdict: Result<Version, Error>,
    pub diagnostics: Vec<Diagnostic>,
}

/// The top-level orchestrator. It owns the modeled durable state: the root
/// path, the names in the managed directory, the scan of the legacy
/// vendoring area, and the pseudo-project manifest.
pub struct ManagedRepo {
    /// The root path of the managed area, as text.
    pub path: String,
    /// The subdirectory names of the managed crates directory.
    pub managed: Vec<String>,
    /// The records of the legacy vendoring area.
    pub legacy: CrateCollection,
    /// The pseudo-project manifest.
    pub pseudo: PseudoCrate,
}

impl ManagedRepo {
    /// Takes up the repository state as observed on disk.
    pub fn new(path: String, managed: Vec<String>, legacy: CrateCollection, pseudo: PseudoCrate) -> (r:
        ManagedRepo)
        ensures
            r.path@ == path@,
            r.managed@ == managed@,
            r.legacy.records@ == legacy.records@,
            r.pseudo.manifest@ == pseudo.manifest@,
    {
        ManagedRepo { path, managed, legacy, pseudo }
    }

    /// Whether the managed directory holds a crate of this name.
    fn contains(&self, crate_name: &String) -> (r: bool)
        ensures
            r == contains_name(self.managed.deep_view(), crate_name@),
    {
        names_contain(&self.managed, crate_name)
    }

    /// The names of all managed crates, as the managed directory lists them.
    pub fn all_crate_names(&self) -> (r: Vec<String>)
        ensures
            r.deep_view() == self.managed.deep_view(),
    {
        clone_names(&self.managed)
    }

    /// Judges whether the legacy crate `crate_name` is safe to migrate,
    /// returning the vendored version on success together with the
    /// structured diagnostics discovered along the way.
    ///
    /// The probe never mutates durable state: the manifest registration it
    /// needs is scratch work that its protocol removes again (see
    /// `crate::pseudo::lemma_add_then_remove_restores`).
    pub fn migration_health(
        &self,
        crate_name: &String,
        obs: &HealthObservations,
        unpinned: bool,
    ) -> (r: HealthReport)
        requires
            count_matching(self.legacy.records@, crate_name@) == 1 ==> wf_health_obs(
                self.legacy.records@,
                crate_name@,
                *obs,
            ),
        ensures
            verdict_matches(
                r.verdict,
                spec_health(
                    self.managed.deep_view(),
                    self.legacy.records@,
                    crate_name@,
                    *obs,
                    unpinned,
                ),
            ),
            r.diagnostics@ == health_diags(
                self.managed.deep_view(),
                self.legacy.records@,
                crate_name@,
                *obs,
                unpinned,
            ),
    {
        let ghost f = spec_health(
            self.managed.deep_view(),
            self.legacy.records@,
            crate_name@,
            *obs,
            unpinned,
        );
        let ghost ds = health_diags(
            self.managed.deep_view(),
            self.legacy.records@,
            crate_name@,
            *obs,
            unpinned,
        );
        if self.contains(crate_name) {
            let r = HealthReport { verdict: Err(Error::AlreadyExists), diagnostics: Vec::new() };
            assert(r.diagnostics@ =~= ds);
            return r;
        }
        let idx = match self.legacy.single_version(crate_name) {
            Err(e) => {
                let r = HealthReport { verdict: Err(e), diagnostics: Vec::new() };
                assert(r.diagnostics@ =~= ds);
                return r;
            },
            Ok(idx) => idx,
        };
        let krate = &self.legacy.records[idx];
        let mut diags: Vec<Diagnostic> = Vec::new();
        let mut healthy_self_contained = true;
        if krate.migration_denied {
            diags.push(Diagnostic::MigrationDenied);
            healthy_self_contained = false;
        }
        if !obs.has_build_file {
            diags.push(Diagnostic::MissingBuildFile);
            healthy_self_contained = false;
        }
        if !obs.has_generator_config {
            diags.push(Diagnostic::MissingGeneratorConfig);
            healthy_self_contained = false;
        }
        if !healthy_self_contained {
            let r = HealthReport { verdict: Err(Error::PrerequisiteMissing), diagnostics: diags };
            assert(r.diagnostics@ =~= ds);
            return r;
        }
        let st = match &obs.standalone {
            None => {
                // Excluded by the observation protocol: the prerequisites
                // hold, so the standalone staging ran.
                assert(false);
                let r = HealthReport { verdict: Err(Error::GeneratorFailure), diagnostics: diags };
                return r;
            },
            Some(st) => st,
        };
        if !st.cargo_embargo_success() {
            diags.push(Diagnostic::StandaloneGeneratorFailed);
            let r = HealthReport { verdict: Err(Error::GeneratorFailure), diagnostics: diags };
            assert(r.diagnostics@ =~= ds);
            return r;
        }
        if !st.android_bp_unchanged() {
            diags.push(Diagnostic::StandaloneBuildFileChanged);
            let r = HealthReport { verdict: Err(Error::DriftDetected), diagnostics: diags };
            assert(r.diagnostics@ =~= ds);
            return r;
        }
        let vd = match &obs.vendored {
            None => {
                // Excluded by the observation protocol: the standalone
                // staging was reproducible, so the vendored staging ran.
                assert(false);
                let r = HealthReport { verdict: Err(Error::GeneratorFailure), diagnostics: diags };
                return r;
            },
            Some(vd) => vd,
        };
        let version = vd.vendored_version.duplicate();
        if vd.android_version != vd.vendored_version {
            diags.push(Diagnostic::VersionChanged);
        }
        let patches_ok = vd.patch_success();
        if !patches_ok {
            diags.push(Diagnostic::PatchesFailed);
        }
        if !vd.cargo_embargo_success() {
            diags.push(Diagnostic::VendoredGeneratorFailed);
        } else if !vd.android_bp_unchanged() {
            diags.push(Diagnostic::VendoredBuildFileChanged);
        }
        let clean = diffs_clean(&vd.diffs);
        if !clean {
            diags.push(Diagnostic::TreeDiffers);
        }
        if !patches_ok {
            let r = HealthReport { verdict: Err(Error::PatchFailure), diagnostics: diags };
            assert(r.diagnostics@ =~= ds);
            return r;
        }
        if !vd.cargo_embargo_success() {
            let r = HealthReport { verdict: Err(Error::GeneratorFailure), diagnostics: diags };
            assert(r.diagnostics@ =~= ds);
            return r;
        }
        if !vd.android_bp_unchanged() {
            let r = HealthReport { verdict: Err(Error::DriftDetected), diagnostics: diags };
            assert(r.diagnostics@ =~= ds);
            return r;
        }
        if clean {
            let r = HealthReport { verdict: Ok(version), diagnostics: diags };
            assert(r.diagnostics@ =~= ds);
            return r;
        }
        if unpinned {
            diags.push(Diagnostic::UnpinnedDriftAccepted);
            let r = HealthReport { verdict: Ok(version), diagnostics: diags };
            assert(r.diagnostics@ =~= ds);
            return r;
        }
        let r = HealthReport { verdict: Err(Error::DriftDetected), diagnostics: diags };
        assert(r.diagnostics@ =~= ds);
        r
    }

    /// Migrates a batch of legacy crates: each is health-checked against the
    /// state the batch has reached, copied into the managed directory and
    /// registered in the manifest, pinned unless listed in `unpinned`. The
    /// first unhealthy crate aborts the batch, keeping what was migrated so
    /// far. On success the returned actions, in order, regenerate the build
    /// metadata for the whole batch, rewrite the crate list from the
    /// manifest, and only then scrub each legacy location, leaving the
    /// migration-pointer stub there.
    pub fn migrate(
        &mut self,
        names: &Vec<String>,
        unpinned: &Vec<String>,
        observations: &Vec<HealthObservations>,
    ) -> (r: Result<Vec<MigrateAction>, Error>)
        requires
            observations@.len() == names@.len(),
            forall|i: int|
                0 <= i < names@.len() && count_matching(
                    old(self).legacy.records@,
                    #[trigger] names@[i]@,
                ) == 1 ==> wf_health_obs(old(self).legacy.records@, names@[i]@, observations@[i]),
            crate::names::names_subset(
                entry_names(old(self).pseudo.manifest@),
                old(self).managed.deep_view(),
            ),
        ensures
            final(self).path@ == old(self).path@,
            final(self).legacy.records@ == old(self).legacy.records@,
            r matches Ok(actions) ==> {
                &&& migrate_ok_upto(
                    old(self).managed.deep_view(),
                    old(self).legacy.records@,
                    names@,
                    observations@,
                    unpinned.deep_view(),
                    names@.len() as int,
                )
                &&& final(self).managed.deep_view() == old(self).managed.deep_view() + views_of(
                    names@,
                )
                &&& final(self).pseudo.manifest@ == old(self).pseudo.manifest@ + migrate_entries(
                    old(self).managed.deep_view(),
                    old(self).legacy.records@,
                    names@,
                    observations@,
                    unpinned.deep_view(),
                    names@.len() as int,
                )
                &&& actions@.len() == 5 * names@.len() + 1
                &&& forall|i: int|
                    0 <= i < names@.len() ==> (#[trigger] actions@[i]
                        matches MigrateAction::RegenerateBuildFiles { name } && name == names@[i])
                &&& actions@[names@.len() as int] is RegenerateCrateList
                &&& forall|i: int|
                    0 <= i < names@.len() ==> {
                        &&& (#[trigger] actions@[names@.len() + 1 + 4 * i]
                            matches MigrateAction::RemoveBuildFiles { name } && name == names@[i])
                        &&& (actions@[names@.len() + 2 + 4 * i]
                            matches MigrateAction::RemoveGeneratorConfig { name } && name
                            == names@[i])
                        &&& (actions@[names@.len() + 3 + 4 * i]
                            matches MigrateAction::RemoveTestMapping { name } && name
                            == names@[i])
                        &&& (actions@[names@.len() + 4 + 4 * i]
                            matches MigrateAction::WriteStub { name, content } && name
                            == names@[i] && content@ == stub_rep(old(self).path@))
                    }
            },
            r matches Err(e) ==> exists|k: int|
                {
                    &&& 0 <= k < names@.len()
                    &&& #[trigger] migrate_ok_upto(
                        old(self).managed.deep_view(),
                        old(self).legacy.records@,
                        names@,
                        observations@,
                        unpinned.deep_view(),
                        k,
                    )
                    &&& !(migrate_finding(
                        old(self).managed.deep_view(),
                        old(self).legacy.records@,
                        names@,
                        observations@,
                        unpinned.deep_view(),
                        k,
                    ) is Healthy)
                    &&& verdict_matches(
                        Err(e),
                        migrate_finding(
                            old(self).managed.deep_view(),
                            old(self).legacy.records@,
                            names@,
                            observations@,
                            unpinned.deep_view(),
                            k,
                        ),
                    )
                    &&& final(self).managed.deep_view() == old(self).managed.deep_view()
                        + views_of(names@).take(k)
                    &&& final(self).pseudo.manifest@ == old(self).pseudo.manifest@
                        + migrate_entries(
                        old(self).managed.deep_view(),
                        old(self).legacy.records@,
                        names@,
                        observations@,
                        unpinned.deep_view(),
                        k,
                    )
                },
    {
        let ghost m0 = self.managed.deep_view();
        let ghost e0 = self.pseudo.manifest@;
        let ghost leg = self.legacy.records@;
        let ghost unp = unpinned.deep_view();
        let mut i: usize = 0;
        while i < names.len()
            invariant
                0 <= i <= names@.len(),
                observations@.len() == names@.len(),
                forall|j: int|
                    0 <= j < names@.len() && count_matching(leg, #[trigger] names@[j]@) == 1
                        ==> wf_health_obs(leg, names@[j]@, observations@[j]),
                m0 == old(self).managed.deep_view(),
                e0 == old(self).pseudo.manifest@,
                leg == old(self).legacy.records@,
                unp == unpinned.deep_view(),
                self.path@ == old(self).path@,
                self.legacy.records@ == leg,
                self.managed.deep_view() == m0 + views_of(names@).take(i as int),
                self.pseudo.manifest@ == e0 + migrate_entries(m0, leg, names@, observations@, unp, i as int),
                migrate_ok_upto(m0, leg, names@, observations@, unp, i as int),
                crate::names::names_subset(
                    entry_names(self.pseudo.manifest@),
                    self.managed.deep_view(),
                ),
            decreases names.len() - i,
        {
            let is_unpinned = names_contain(unpinned, &names[i]);
            let report = self.migration_health(&names[i], &observations[i], is_unpinned);
            let ghost f = migrate_finding(m0, leg, names@, observations@, unp, i as int);
            proof {
                assert(m0 + views_of(names@).take(i as int) == self.managed.deep_view());
                assert(f == spec_health(
                    self.managed.deep_view(),
                    leg,
                    names@[i as int]@,
                    observations@[i as int],
                    contains_name(unp, names@[i as int]@),
                ));
            }
            match report.verdict {
                Err(e) => {
                    proof {
                        assert(migrate_ok_upto(m0, leg, names@, observations@, unp, i as int)
                            && !(migrate_finding(m0, leg, names@, observations@, unp, i as int)
                            is Healthy) && verdict_matches(
                            Err(e),
                            migrate_finding(m0, leg, names@, observations@, unp, i as int),
                        ));
                    }
                    return Err(e);
                },
                Ok(version) => {
                    proof {
                        assert(f matches HealthFinding::Healthy { version: v, .. } && v == version);
                        assert(!contains_name(self.managed.deep_view(), names@[i as int]@));
                        if manifest_contains(self.pseudo.manifest@, names@[i as int]@) {
                            let j = choose|j: int|
                                0 <= j < entry_names(self.pseudo.manifest@).len() && entry_names(
                                    self.pseudo.manifest@,
                                )[j] == names@[i as int]@;
                            assert(contains_name(
                                self.managed.deep_view(),
                                entry_names(self.pseudo.manifest@)[j],
                            ));
                        }
                    }
                    let ghost managed_before = self.managed.deep_view();
                    let ghost manifest_before = self.pseudo.manifest@;
                    self.managed.push(names[i].clone());
                    if is_unpinned {
                        self.pseudo.cargo_add_unpinned(&names[i], version);
                    } else {
                        self.pseudo.cargo_add(&names[i], version);
                    }
                    proof {
                        assert(self.managed.deep_view() =~= managed_before.push(
                            names@[i as int]@,
                        ));
                        assert(m0 + views_of(names@).take(i + 1) =~= (m0 + views_of(names@).take(
                            i as int,
                        )).push(names@[i as int]@));
                        assert(self.pseudo.manifest@ == manifest_before.push(
                            migrate_entry(m0, leg, names@, observations@, unp, i as int),
                        ));
                        assert(e0 + migrate_entries(m0, leg, names@, observations@, unp, i + 1)
                            =~= (e0 + migrate_entries(m0, leg, names@, observations@, unp, i as int)).push(
                            migrate_entry(m0, leg, names@, observations@, unp, i as int),
                        ));
                        assert forall|k: int|
                            0 <= k < entry_names(self.pseudo.manifest@).len() implies contains_name(
                            self.managed.deep_view(),
                            #[trigger] entry_names(self.pseudo.manifest@)[k],
                        ) by {
                            if k < manifest_before.len() {
                                assert(entry_names(self.pseudo.manifest@)[k] == entry_names(
                                    manifest_before,
                                )[k]);
                                lemma_push_contains(
                                    managed_before,
                                    names@[i as int]@,
                                    entry_names(manifest_before)[k],
                                );
                            } else {
                                assert(entry_names(self.pseudo.manifest@)[k] == names@[i as int]@);
                                lemma_push_contains(
                                    managed_before,
                                    names@[i as int]@,
                                    names@[i as int]@,
                                );
                            }
                        }
                    }
                },
            }
            i += 1;
        }
        proof {
            assert(views_of(names@).take(names@.len() as int) =~= views_of(names@));
        }
        let mut actions: Vec<MigrateAction> = Vec::new();
        let mut j: usize = 0;
        while j < names.len()
            invariant
                0 <= j <= names@.len(),
                self.path@ == old(self).path@,
                actions@.len() == j,
                forall|i2: int|
                    0 <= i2 < j ==> (#[trigger] actions@[i2]
                        matches MigrateAction::RegenerateBuildFiles { name } && name
                        == names@[i2]),
            decreases names.len() - j,
        {
            actions.push(MigrateAction::RegenerateBuildFiles { name: names[j].clone() });
            j += 1;
        }
        actions.push(MigrateAction::RegenerateCrateList);
        let mut j2: usize = 0;
        while j2 < names.len()
            invariant
                0 <= j2 <= names@.len(),
                self.path@ == old(self).path@,
                actions@.len() == names@.len() + 1 + 4 * j2,
                forall|i2: int|
                    0 <= i2 < names@.len() ==> (#[trigger] actions@[i2]
                        matches MigrateAction::RegenerateBuildFiles { name } && name
                        == names@[i2]),
                actions@[names@.len() as int] is RegenerateCrateList,
                forall|i2: int|
                    0 <= i2 < j2 ==> {
                        &&& (#[trigger] actions@[names@.len() + 1 + 4 * i2]
                            matches MigrateAction::RemoveBuildFiles { name } && name
                            == names@[i2])
                        &&& (actions@[names@.len() + 2 + 4 * i2]
                            matches MigrateAction::RemoveGeneratorConfig { name } && name
                            == names@[i2])
                        &&& (actions@[names@.len() + 3 + 4 * i2]
                            matches MigrateAction::RemoveTestMapping { name } && name
                            == names@[i2])
                        &&& (actions@[names@.len() + 4 + 4 * i2]
                            matches MigrateAction::WriteStub { name, content } && name
                            == names@[i2] && content@ == stub_rep(old(self).path@))
                    },
            decreases names.len() - j2,
        {
            actions.push(MigrateAction::RemoveBuildFiles { name: names[j2].clone() });
            actions.push(MigrateAction::RemoveGeneratorConfig { name: names[j2].clone() });
            actions.push(MigrateAction::RemoveTestMapping { name: names[j2].clone() });
            let content = crate::version::stub_line(&self.path);
            actions.push(MigrateAction::WriteStub { name: names[j2].clone(), content });
            j2 += 1;
        }
        Ok(actions)
    }

    /// Discovers the dependency closure of `crate_name` by breadth-first
    /// search: each pending crate is registered unversioned in the manifest
    /// and its direct dependencies, as the resolver's joint answer gives
    /// them, are enqueued unless already discovered, already in the manifest,
    /// or present in the legacy collection. Terminates with each discovered
    /// name once, the start among them; every dependency of a discovered
    /// crate is itself discovered, already in the manifest, or legacy. The
    /// discovered names are returned together with the final vendored
    /// pseudo-project, whose manifest is the manifest as this call leaves
    /// it, so the caller can copy exact vendored bytes for each name.
    ///
    /// One joint resolver answer serves the whole run: the setting in which
    /// discovery provably terminates and is complete. The on-line workflow,
    /// which re-vendors after every single addition precisely because joint
    /// resolution is not additive, drives the same discovery one step at a
    /// time through `closure_pop` and `closure_enqueue`, handing each step
    /// the fresh vendored answer.
    pub fn add_crate_and_dependencies(
        &mut self,
        crate_name: &String,
        resolution: Resolution,
        crate_list: Vec<String>,
    ) -> (r: (Vec<String>, crate::pseudo::VendoredPseudoCrate))
        requires
            !manifest_contains(old(self).pseudo.manifest@, crate_name@),
        ensures
            r.1.manifest@ == final(self).pseudo.manifest@,
            r.1.resolution.dep_table@ == resolution.dep_table@,
            r.1.crate_list@ == crate_list@,
            final(self).path@ == old(self).path@,
            final(self).managed@ == old(self).managed@,
            final(self).legacy.records@ == old(self).legacy.records@,
            r.0.deep_view().no_duplicates(),
            contains_name(r.0.deep_view(), crate_name@),
            forall|i: int|
                0 <= i < r.0.deep_view().len() ==> !contains_name(
                    entry_names(old(self).pseudo.manifest@),
                    #[trigger] r.0.deep_view()[i],
                ) && (r.0.deep_view()[i] == crate_name@ || !contains_name(
                    record_names(old(self).legacy.records@),
                    r.0.deep_view()[i],
                )),
            forall|i: int, k: int|
                0 <= i < r.0.deep_view().len() && 0 <= k < spec_deps_of(
                    resolution.dep_table@,
                    r.0.deep_view()[i],
                ).len() ==> {
                    let d = #[trigger] spec_deps_of(resolution.dep_table@, r.0.deep_view()[i])[k];
                    contains_name(r.0.deep_view(), d) || contains_name(
                        entry_names(old(self).pseudo.manifest@),
                        d,
                    ) || contains_name(record_names(old(self).legacy.records@), d)
                },
            final(self).pseudo.manifest@ == old(self).pseudo.manifest@
                + crate::pseudo::unversioned_entries(r.0@),
            forall|s: Set<Seq<char>>|
                #[trigger] s.contains(crate_name@) && crate::pseudo::closed_under_deps(
                    resolution.dep_table@,
                    entry_names(old(self).pseudo.manifest@),
                    record_names(old(self).legacy.records@),
                    s,
                ) ==> crate::names::all_in(s, r.0.deep_view()),
    {
        let ghost t = resolution.dep_table@;
        let ghost e0 = self.pseudo.manifest@;
        let ghost leg = record_names(self.legacy.records@);
        let ghost u = table_universe(t).insert(crate_name@);
        proof {
            lemma_table_universe_finite(t);
        }
        let migrated = self.pseudo.names();
        let mut pending: Vec<String> = Vec::new();
        pending.push(crate_name.clone());
        let mut added: Vec<String> = Vec::new();
        proof {
            assert(pending.deep_view() =~= seq![crate_name@]);
            assert(added.deep_view() =~= Seq::<Seq<char>>::empty());
            assert(e0 + crate::pseudo::unversioned_entries(added@) =~= e0);
            assert(contains_name(pending.deep_view(), crate_name@)) by {
                assert(pending.deep_view()[0] == crate_name@);
            }
            assert forall|s: Set<Seq<char>>|
                #[trigger] s.contains(crate_name@) && crate::pseudo::closed_under_deps(
                    t,
                    entry_names(e0),
                    leg,
                    s,
                ) implies crate::names::all_in(s, added.deep_view()) && crate::names::all_in(
                s,
                pending.deep_view(),
            ) by {
                assert forall|i: int| 0 <= i < pending.deep_view().len() implies s.contains(
                    #[trigger] pending.deep_view()[i],
                ) by {
                    assert(pending.deep_view()[i] == crate_name@);
                }
            }
        }
        while pending.len() > 0
            invariant
                self.path@ == old(self).path@,
                self.managed@ == old(self).managed@,
                self.legacy.records@ == old(self).legacy.records@,
                e0 == old(self).pseudo.manifest@,
                leg == record_names(old(self).legacy.records@),
                t == resolution.dep_table@,
                u == table_universe(t).insert(crate_name@),
                u.finite(),
                migrated.deep_view() == entry_names(e0),
                pending.deep_view().no_duplicates(),
                added.deep_view().no_duplicates(),
                forall|i: int|
                    0 <= i < pending.deep_view().len() ==> !contains_name(
                        added.deep_view(),
                        #[trigger] pending.deep_view()[i],
                    ),
                forall|i: int|
                    0 <= i < pending.deep_view().len() ==> u.contains(
                        #[trigger] pending.deep_view()[i],
                    ),
                forall|i: int|
                    0 <= i < added.deep_view().len() ==> u.contains(
                        #[trigger] added.deep_view()[i],
                    ),
                forall|i: int|
                    0 <= i < pending.deep_view().len() ==> !contains_name(
                        entry_names(e0),
                        #[trigger] pending.deep_view()[i],
                    ) && (pending.deep_view()[i] == crate_name@ || !contains_name(
                        leg,
                        pending.deep_view()[i],
                    )),
                forall|i: int|
                    0 <= i < added.deep_view().len() ==> !contains_name(
                        entry_names(e0),
                        #[trigger] added.deep_view()[i],
                    ) && (added.deep_view()[i] == crate_name@ || !contains_name(
                        leg,
                        added.deep_view()[i],
                    )),
                self.pseudo.manifest@ == e0 + crate::pseudo::unversioned_entries(added@),
                forall|i: int, k: int|
                    0 <= i < added.deep_view().len() && 0 <= k < spec_deps_of(
                        t,
                        added.deep_view()[i],
                    ).len() ==> {
                        let d = #[trigger] spec_deps_of(t, added.deep_view()[i])[k];
                        contains_name(added.deep_view(), d) || contains_name(
                            pending.deep_view(),
                            d,
                        ) || contains_name(entry_names(e0), d) || contains_name(leg, d)
                    },
                contains_name(added.deep_view(), crate_name@) || contains_name(
                    pending.deep_view(),
                    crate_name@,
                ),
                added.deep_view().len() <= u.len(),
                forall|s: Set<Seq<char>>|
                    #[trigger] s.contains(crate_name@) && crate::pseudo::closed_under_deps(
                        t,
                        entry_names(e0),
                        leg,
                        s,
                    ) ==> crate::names::all_in(s, added.deep_view()) && crate::names::all_in(
                        s,
                        pending.deep_view(),
                    ),
            decreases u.len() - added.deep_view().len(), pending.len(),
        {
            let ghost pending0 = pending.deep_view();
            let ghost added0 = added.deep_view();
            let cur = pending.remove(0);
            proof {
                assert(pending.deep_view() =~= pending0.remove(0));
                assert(cur@ == pending0[0]);
                assert forall|i: int| 0 <= i < pending.deep_view().len() implies pending0.contains(
                    #[trigger] pending.deep_view()[i],
                ) by {
                    assert(pending.deep_view()[i] == pending0[i + 1]);
                }
                // the popped name is new to the manifest
                assert(!manifest_contains(self.pseudo.manifest@, cur@)) by {
                    if manifest_contains(self.pseudo.manifest@, cur@) {
                        let j = choose|j: int|
                            0 <= j < entry_names(self.pseudo.manifest@).len() && entry_names(
                                self.pseudo.manifest@,
                            )[j] == cur@;
                        if j < e0.len() {
                            assert(entry_names(self.pseudo.manifest@)[j] == entry_names(e0)[j]);
                            assert(contains_name(entry_names(e0), cur@));
                        } else {
                            assert(entry_names(self.pseudo.manifest@)[j] == added0[j - e0.len()]);
                            assert(contains_name(added0, cur@));
                        }
                    }
                }
            }
            self.pseudo.cargo_add_unversioned(&cur);
            let ghost manifest_mid = self.pseudo.manifest@;
            added.push(cur.clone());
            proof {
                assert(added.deep_view() =~= added0.push(cur@));
                assert(e0 + crate::pseudo::unversioned_entries(added@) =~= manifest_mid);
                // the popped name was not yet discovered, so uniqueness holds
                assert(!contains_name(added0, cur@));
                assert forall|i: int, j2: int|
                    0 <= i < j2 < added.deep_view().len() implies added.deep_view()[i]
                    != added.deep_view()[j2] by {
                    if j2 == added0.len() {
                        if added.deep_view()[i] == cur@ {
                            assert(contains_name(added0, cur@));
                        }
                    }
                }
                // cardinality: the discovered set stays within the universe
                assert(u.contains(cur@));
                assert(added.deep_view().to_set() <= u) by {
                    assert forall|x: Seq<char>| added.deep_view().to_set().contains(x) implies u.contains(
                        x,
                    ) by {
                        let i = choose|i: int|
                            0 <= i < added.deep_view().len() && added.deep_view()[i] == x;
                    }
                }
                added.deep_view().unique_seq_to_set();
                vstd::set_lib::lemma_len_subset(added.deep_view().to_set(), u);
                // what held of the queue and of the discovered set still
                // holds now that the front of the queue moved over
                assert(contains_name(added.deep_view(), cur@)) by {
                    assert(added.deep_view()[added0.len() as int] == cur@);
                }
                assert forall|i: int|
                    0 <= i < pending.deep_view().len() implies pending.deep_view()[i] == pending0[i
                    + 1] by {
                    assert(pending0.remove(0)[i] == pending0[i + 1]);
                }
                assert forall|i: int|
                    0 <= i < pending.deep_view().len() implies !contains_name(
                    added.deep_view(),
                    #[trigger] pending.deep_view()[i],
                ) by {
                    let p = pending.deep_view()[i];
                    assert(p == pending0[i + 1]);
                    assert(p != pending0[0]);
                    if contains_name(added.deep_view(), p) {
                        let j = choose|j: int|
                            0 <= j < added.deep_view().len() && added.deep_view()[j] == p;
                        if j < added0.len() {
                            assert(contains_name(added0, p));
                        }
                    }
                }
                assert forall|i: int, k2: int|
                    0 <= i < added.deep_view().len() - 1 && 0 <= k2 < spec_deps_of(
                        t,
                        added.deep_view()[i],
                    ).len() implies {
                    let d = #[trigger] spec_deps_of(t, added.deep_view()[i])[k2];
                    contains_name(added.deep_view(), d) || contains_name(pending.deep_view(), d)
                        || contains_name(entry_names(e0), d) || contains_name(leg, d)
                } by {
                    assert(added.deep_view()[i] == added0[i]);
                    let d = spec_deps_of(t, added0[i])[k2];
                    if contains_name(added0, d) {
                        lemma_push_contains(added0, cur@, d);
                    } else if contains_name(pending0, d) {
                        lemma_pop_front_contains(pending0, d);
                        if d == pending0[0] {
                            lemma_push_contains(added0, cur@, d);
                        }
                    }
                }
                if contains_name(pending0, crate_name@) {
                    lemma_pop_front_contains(pending0, crate_name@);
                    if crate_name@ == pending0[0] {
                        lemma_push_contains(added0, cur@, crate_name@);
                    }
                } else {
                    lemma_push_contains(added0, cur@, crate_name@);
                }
                assert forall|s: Set<Seq<char>>|
                    #[trigger] s.contains(crate_name@) && crate::pseudo::closed_under_deps(
                        t,
                        entry_names(e0),
                        leg,
                        s,
                    ) implies crate::names::all_in(s, added.deep_view()) && crate::names::all_in(
                    s,
                    pending.deep_view(),
                ) by {
                    assert(crate::names::all_in(s, added0) && crate::names::all_in(s, pending0));
                    assert(s.contains(cur@)) by {
                        assert(pending0[0] == cur@);
                    }
                    assert forall|i: int| 0 <= i < added.deep_view().len() implies s.contains(
                        #[trigger] added.deep_view()[i],
                    ) by {
                        if i < added0.len() {
                            assert(added.deep_view()[i] == added0[i]);
                        } else {
                            assert(added.deep_view()[i] == cur@);
                        }
                    }
                    assert forall|i: int| 0 <= i < pending.deep_view().len() implies s.contains(
                        #[trigger] pending.deep_view()[i],
                    ) by {
                        assert(pending.deep_view()[i] == pending0[i + 1]);
                    }
                }
            }
            let deps = resolution.deps_of(&cur);
            proof {
                lemma_deps_of_in_universe(t, cur@);
            }
            let mut k: usize = 0;
            while k < deps.len()
                invariant
                    0 <= k <= deps@.len(),
                    deps.deep_view() == spec_deps_of(t, cur@),
                    t == resolution.dep_table@,
                    e0 == old(self).pseudo.manifest@,
                    leg == record_names(old(self).legacy.records@),
                    u == table_universe(t).insert(crate_name@),
                    u.finite(),
                    migrated.deep_view() == entry_names(e0),
                    self.path@ == old(self).path@,
                    self.managed@ == old(self).managed@,
                    self.legacy.records@ == old(self).legacy.records@,
                    self.pseudo.manifest@ == e0 + crate::pseudo::unversioned_entries(added@),
                    pending.deep_view().no_duplicates(),
                    added.deep_view().no_duplicates(),
                    added.deep_view().len() <= u.len(),
                    contains_name(added.deep_view(), cur@),
                    forall|i: int|
                        0 <= i < pending.deep_view().len() ==> !contains_name(
                            added.deep_view(),
                            #[trigger] pending.deep_view()[i],
                        ),
                    forall|i: int|
                        0 <= i < pending.deep_view().len() ==> u.contains(
                            #[trigger] pending.deep_view()[i],
                        ),
                    forall|i: int|
                        0 <= i < added.deep_view().len() ==> u.contains(
                            #[trigger] added.deep_view()[i],
                        ),
                    forall|i: int|
                        0 <= i < pending.deep_view().len() ==> !contains_name(
                            entry_names(e0),
                            #[trigger] pending.deep_view()[i],
                        ) && (pending.deep_view()[i] == crate_name@ || !contains_name(
                            leg,
                            pending.deep_view()[i],
                        )),
                    forall|i: int|
                        0 <= i < added.deep_view().len() ==> !contains_name(
                            entry_names(e0),
                            #[trigger] added.deep_view()[i],
                        ) && (added.deep_view()[i] == crate_name@ || !contains_name(
                            leg,
                            added.deep_view()[i],
                        )),
                    forall|i: int, k2: int|
                        0 <= i < added.deep_view().len() - 1 && 0 <= k2 < spec_deps_of(
                            t,
                            added.deep_view()[i],
                        ).len() ==> {
                            let d = #[trigger] spec_deps_of(t, added.deep_view()[i])[k2];
                            contains_name(added.deep_view(), d) || contains_name(
                                pending.deep_view(),
                                d,
                            ) || contains_name(entry_names(e0), d) || contains_name(leg, d)
                        },
                    forall|k2: int|
                        0 <= k2 < k ==> {
                            let d = #[trigger] spec_deps_of(t, cur@)[k2];
                            contains_name(added.deep_view(), d) || contains_name(
                                pending.deep_view(),
                                d,
                            ) || contains_name(entry_names(e0), d) || contains_name(leg, d)
                        },
                    contains_name(added.deep_view(), crate_name@) || contains_name(
                        pending.deep_view(),
                        crate_name@,
                    ),
                    forall|s: Set<Seq<char>>|
                        #[trigger] s.contains(crate_name@) && crate::pseudo::closed_under_deps(
                            t,
                            entry_names(e0),
                            leg,
                            s,
                        ) ==> crate::names::all_in(s, added.deep_view()) && crate::names::all_in(
                            s,
                            pending.deep_view(),
                        ),
                decreases deps.len() - k,
            {
                let already_added = names_contain(&added, &deps[k]);
                let already_pending = names_contain(&pending, &deps[k]);
                let already_migrated = names_contain(&migrated, &deps[k]);
                let in_legacy = self.legacy.contains_name(&deps[k]);
                if !already_added && !already_pending && !already_migrated && !in_legacy {
                    let ghost pending_before = pending.deep_view();
                    pending.push(deps[k].clone());
                    proof {
                        assert(pending.deep_view() =~= pending_before.push(deps.deep_view()[
                            k as int
                        ]));
                        let d = deps.deep_view()[k as int];
                        assert(u.contains(d)) by {
                            lemma_deps_of_in_universe(t, cur@);
                            assert(spec_deps_of(t, cur@)[k as int] == d);
                            assert(table_universe(t).contains(d));
                        }
                        assert forall|i: int, j2: int|
                            0 <= i < j2 < pending.deep_view().len() implies pending.deep_view()[i]
                            != pending.deep_view()[j2] by {
                            if j2 == pending_before.len() {
                                if pending.deep_view()[i] == d {
                                    assert(contains_name(pending_before, d));
                                }
                            }
                        }
                        assert forall|k2: int| 0 <= k2 < k + 1 implies {
                            let d2 = #[trigger] spec_deps_of(t, cur@)[k2];
                            contains_name(added.deep_view(), d2) || contains_name(
                                pending.deep_view(),
                                d2,
                            ) || contains_name(entry_names(e0), d2) || contains_name(leg, d2)
                        } by {
                            let d2 = spec_deps_of(t, cur@)[k2];
                            if k2 == k {
                                lemma_push_contains(pending_before, d, d2);
                            } else if contains_name(pending_before, d2) {
                                lemma_push_contains(pending_before, d, d2);
                            }
                        }
                        assert forall|i: int, k2: int|
                            0 <= i < added.deep_view().len() - 1 && 0 <= k2 < spec_deps_of(
                                t,
                                added.deep_view()[i],
                            ).len() implies {
                            let d2 = #[trigger] spec_deps_of(t, added.deep_view()[i])[k2];
                            contains_name(added.deep_view(), d2) || contains_name(
                                pending.deep_view(),
                                d2,
                            ) || contains_name(entry_names(e0), d2) || contains_name(leg, d2)
                        } by {
                            let d2 = spec_deps_of(t, added.deep_view()[i])[k2];
                            if contains_name(pending_before, d2) {
                                lemma_push_contains(pending_before, d, d2);
                            }
                        }
                        if contains_name(pending_before, crate_name@) {
                            lemma_push_contains(pending_before, d, crate_name@);
                        }
                        assert(!contains_name(entry_names(e0), d));
                        assert(!contains_name(leg, d));
                        assert forall|s: Set<Seq<char>>|
                            #[trigger] s.contains(crate_name@)
                                && crate::pseudo::closed_under_deps(
                                t,
                                entry_names(e0),
                                leg,
                                s,
                            ) implies crate::names::all_in(s, added.deep_view())
                            && crate::names::all_in(s, pending.deep_view()) by {
                            assert(crate::names::all_in(s, added.deep_view())
                                && crate::names::all_in(s, pending_before));
                            assert(s.contains(cur@)) by {
                                let ci = choose|ci: int|
                                    0 <= ci < added.deep_view().len() && added.deep_view()[ci]
                                        == cur@;
                                assert(s.contains(added.deep_view()[ci]));
                            }
                            assert(s.contains(d)) by {
                                assert(spec_deps_of(t, cur@)[k as int] == d);
                                assert(s.contains(spec_deps_of(t, cur@)[k as int])
                                    || contains_name(
                                    entry_names(e0),
                                    spec_deps_of(t, cur@)[k as int],
                                ) || contains_name(leg, spec_deps_of(t, cur@)[k as int]));
                            }
                            assert forall|i: int|
                                0 <= i < pending.deep_view().len() implies s.contains(
                                #[trigger] pending.deep_view()[i],
                            ) by {
                                if i < pending_before.len() {
                                    assert(pending.deep_view()[i] == pending_before[i]);
                                } else {
                                    assert(pending.deep_view()[i] == d);
                                }
                            }
                        }
                    }
                }
                k += 1;
            }
            proof {
                // the new crate's dependencies are accounted for, and the
                // older ones kept theirs when the front of the queue moved
                // into the discovered set
                assert forall|i: int, k2: int|
                    0 <= i < added.deep_view().len() && 0 <= k2 < spec_deps_of(
                        t,
                        added.deep_view()[i],
                    ).len() implies {
                    let d = #[trigger] spec_deps_of(t, added.deep_view()[i])[k2];
                    contains_name(added.deep_view(), d) || contains_name(pending.deep_view(), d)
                        || contains_name(entry_names(e0), d) || contains_name(leg, d)
                } by {
                    if i == added.deep_view().len() - 1 {
                        assert(added.deep_view()[i] == cur@);
                    }
                }
            }
        }
        proof {
            assert(contains_name(added.deep_view(), crate_name@));
            assert forall|i: int, k: int|
                0 <= i < added.deep_view().len() && 0 <= k < spec_deps_of(
                    t,
                    added.deep_view()[i],
                ).len() implies {
                let d = #[trigger] spec_deps_of(t, added.deep_view()[i])[k];
                contains_name(added.deep_view(), d) || contains_name(entry_names(e0), d)
                    || contains_name(leg, d)
            } by {
                assert(pending.deep_view().len() == 0);
            }
        }
        let vendored = crate::pseudo::VendoredPseudoCrate {
            manifest: self.pseudo.snapshot(),
            resolution,
            crate_list,
        };
        (added, vendored)
    }

    /// One step of the on-line closure discovery, first half: takes the
    /// front of the queue and registers it, unversioned, in the manifest.
    /// The caller then re-vendors — the registration dirtied the manifest,
    /// and the next dependency query must reflect the resolver's joint
    /// resolution of everything added so far — and hands the fresh vendored
    /// project to `closure_enqueue`.
    pub fn closure_pop(&mut self, pending: &mut Vec<String>) -> (cur: String)
        requires
            old(pending)@.len() > 0,
            !manifest_contains(old(self).pseudo.manifest@, old(pending)@[0]@),
        ensures
            cur == old(pending)@[0],
            final(pending)@ == old(pending)@.remove(0),
            final(self).pseudo.manifest@ == old(self).pseudo.manifest@.push(
                ManifestEntry { name: old(pending)@[0], req: VersionReq::Unversioned },
            ),
            final(self).path@ == old(self).path@,
            final(self).managed@ == old(self).managed@,
            final(self).legacy.records@ == old(self).legacy.records@,
    {
        let cur = pending.remove(0);
        self.pseudo.cargo_add_unversioned(&cur);
        cur
    }

    /// One step of the on-line closure discovery, second half: with the
    /// pseudo-project freshly vendored after `cur` was registered — which
    /// the precondition on its manifest witnesses — records `cur` as
    /// discovered and enqueues each of its direct dependencies, as that
    /// vendor's joint answer gives them, unless already queued, already
    /// discovered, already in the manifest, or present in the legacy
    /// collection.
    pub fn closure_enqueue(
        &self,
        cur: &String,
        pending: &mut Vec<String>,
        added: &mut Vec<String>,
        pc: &crate::pseudo::VendoredPseudoCrate,
    )
        requires
            pc.manifest@ == self.pseudo.manifest@,
        ensures
            final(added)@ == old(added)@.push(*cur),
            final(pending).deep_view() == enqueue_deps(
                old(pending).deep_view(),
                final(added).deep_view(),
                entry_names(pc.manifest@),
                record_names(self.legacy.records@),
                spec_deps_of(pc.resolution.dep_table@, cur@),
                spec_deps_of(pc.resolution.dep_table@, cur@).len() as int,
            ),
    {
        let ghost leg = record_names(self.legacy.records@);
        let ghost dspec = spec_deps_of(pc.resolution.dep_table@, cur@);
        added.push(cur.clone());
        let deps = pc.deps_of(cur);
        let mnames = pc.deps();
        let mut k: usize = 0;
        proof {
            assert(added@ =~= old(added)@.push(*cur));
        }
        while k < deps.len()
            invariant
                0 <= k <= deps@.len(),
                deps.deep_view() == dspec,
                dspec == spec_deps_of(pc.resolution.dep_table@, cur@),
                leg == record_names(self.legacy.records@),
                added@ == old(added)@.push(*cur),
                mnames.deep_view() == entry_names(pc.manifest@),
                pending.deep_view() == enqueue_deps(
                    old(pending).deep_view(),
                    added.deep_view(),
                    entry_names(pc.manifest@),
                    leg,
                    dspec,
                    k as int,
                ),
            decreases deps.len() - k,
        {
            let d = &deps[k];
            proof {
                assert(deps.deep_view()[k as int] == deps@[k as int]@);
            }
            if !names_contain(added, d) && !names_contain(pending, d) && !names_contain(
                &mnames,
                d,
            ) && !self.legacy.contains_name(d) {
                let ghost p0 = pending.deep_view();
                pending.push(d.clone());
                proof {
                    assert(pending.deep_view() =~= p0.push(dspec[k as int]));
                }
            }
            k += 1;
        }
    }

    /// Imports the newly discovered dependencies of a closure: each must be
    /// absent from both the managed directory and the legacy area, is copied
    /// in, has its generator configuration bootstrapped, its license
    /// requirements resolved (with the narrow fetch fallback where it
    /// applies), its provenance metadata initialized and a placeholder build
    /// file written. The first failing dependency aborts the batch. The
    /// dependencies come from `add_crate_and_dependencies`, and on success
    /// the caller regenerates build metadata for the whole set (see
    /// `regenerate`).
    pub fn import(
        &mut self,
        new_deps: &Vec<String>,
        observations: &Vec<ImportObservations>,
    ) -> (r: Result<Vec<ImportAction>, Error>)
        requires
            observations@.len() == new_deps@.len(),
            forall|i: int|
                0 <= i < observations@.len() ==> (#[trigger] observations@[i]).satisfied_files@.len()
                    == observations@[i].license_satisfied@.len(),
        ensures
            final(self).path@ == old(self).path@,
            final(self).legacy.records@ == old(self).legacy.records@,
            final(self).pseudo.manifest@ == old(self).pseudo.manifest@,
            r matches Ok(actions) ==> {
                &&& forall|i: int|
                    0 <= i < new_deps@.len() ==> #[trigger] import_dep_error(
                        old(self).managed.deep_view() + views_of(new_deps@).take(i),
                        old(self).legacy.records@,
                        new_deps@[i]@,
                        observations@[i],
                    ) is None
                &&& final(self).managed.deep_view() == old(self).managed.deep_view() + views_of(
                    new_deps@,
                )
                &&& actions@ == import_actions_upto(
                    new_deps@,
                    observations@,
                    new_deps@.len() as int,
                )
            },
            r matches Err(e) ==> exists|k: int|
                {
                    &&& 0 <= k < new_deps@.len()
                    &&& forall|j: int|
                        0 <= j < k ==> #[trigger] import_dep_error(
                            old(self).managed.deep_view() + views_of(new_deps@).take(j),
                            old(self).legacy.records@,
                            new_deps@[j]@,
                            observations@[j],
                        ) is None
                    &&& #[trigger] import_dep_error(
                        old(self).managed.deep_view() + views_of(new_deps@).take(k),
                        old(self).legacy.records@,
                        new_deps@[k]@,
                        observations@[k],
                    ) == Some(e)
                    &&& final(self).managed.deep_view() == old(self).managed.deep_view()
                        + views_of(new_deps@).take(
                        if e is AlreadyExists {
                            k
                        } else {
                            k + 1
                        },
                    )
                },
    {
        let ghost m0 = self.managed.deep_view();
        let ghost leg = self.legacy.records@;
        let mut actions: Vec<ImportAction> = Vec::new();
        let mut i: usize = 0;
        proof {
            assert(m0 + views_of(new_deps@).take(0) =~= m0);
        }
        while i < new_deps.len()
            invariant
                0 <= i <= new_deps@.len(),
                observations@.len() == new_deps@.len(),
                forall|j: int|
                    0 <= j < observations@.len() ==> (
                    #[trigger] observations@[j]).satisfied_files@.len()
                        == observations@[j].license_satisfied@.len(),
                m0 == old(self).managed.deep_view(),
                leg == old(self).legacy.records@,
                self.path@ == old(self).path@,
                self.legacy.records@ == leg,
                self.pseudo.manifest@ == old(self).pseudo.manifest@,
                self.managed.deep_view() == m0 + views_of(new_deps@).take(i as int),
                actions@ == import_actions_upto(new_deps@, observations@, i as int),
                forall|j: int|
                    0 <= j < i ==> #[trigger] import_dep_error(
                        m0 + views_of(new_deps@).take(j),
                        leg,
                        new_deps@[j]@,
                        observations@[j],
                    ) is None,
            decreases new_deps.len() - i,
        {
            let dep = &new_deps[i];
            let o = &observations[i];
            let ghost managed_at = self.managed.deep_view();
            let ghost err = import_dep_error(managed_at, leg, new_deps@[i as int]@, observations@[
                i as int
            ]);
            if self.contains(dep) {
                return Err(Error::AlreadyExists);
            }
            if self.legacy.contains_name(dep) {
                return Err(Error::AlreadyExists);
            }
            self.managed.push(dep.clone());
            proof {
                assert(self.managed.deep_view() =~= managed_at.push(new_deps@[i as int]@));
                assert(m0 + views_of(new_deps@).take(i + 1) =~= managed_at.push(new_deps@[
                    i as int
                ]@));
            }
            actions.push(ImportAction::CopyVendored { name: dep.clone() });
            actions.push(ImportAction::GenerateConfig { name: dep.clone() });
            if !o.generator_config_ok {
                return Err(Error::GeneratorFailure);
            }
            if o.license_unsatisfied.len() > 0 && o.license_satisfied.len() == 0 {
                let mut satisfied = false;
                if o.license_unsatisfied.len() == 1 {
                    match &o.repository {
                        Some(rep) => {
                            if crate::names::str_is(&o.license_unsatisfied[0], "Apache-2.0") {
                                assert(o.license_unsatisfied.deep_view()[0] == o.license_unsatisfied@[0]@);
                                actions.push(
                                    ImportAction::FetchLicenseFallback {
                                        name: dep.clone(),
                                        repository: rep.clone(),
                                    },
                                );
                                satisfied = true;
                            }
                        },
                        None => {},
                    }
                }
                if !satisfied {
                    return Err(Error::LicenseUnsatisfied);
                }
            }
            if o.license_satisfied.len() == 1 && o.license_unsatisfied.len() == 0
                && !o.license_file_present {
                actions.push(
                    ImportAction::SymlinkLicense {
                        name: dep.clone(),
                        target: o.satisfied_files[0].clone(),
                    },
                );
            }
            actions.push(ImportAction::UpdateModuleLicenses { name: dep.clone() });
            actions.push(
                ImportAction::WriteMetadata {
                    name: dep.clone(),
                    version: o.version.duplicate(),
                    description: o.description.clone(),
                    license_type: o.most_restrictive_license.clone(),
                },
            );
            if !o.build_file_present {
                actions.push(ImportAction::WriteEmptyBuildFile { name: dep.clone() });
            }
            proof {
                assert(err is None);
                assert(actions@ =~= import_actions_upto(new_deps@, observations@, i + 1));
            }
            i += 1;
        }
        proof {
            assert(views_of(new_deps@).take(new_deps@.len() as int) =~= views_of(new_deps@));
        }
        Ok(actions)
    }

    /// Re-runs the generator for each named crate against the given
    /// freshly vendored reference, refreshing provenance metadata when asked
    /// to: the write-back path for accepted drift. The reference must have
    /// been vendored from the manifest as it now stands, which is what makes
    /// its reads trustworthy. Each crate's regeneration outcome is taken up
    /// in order; the first failure aborts the remainder and leaves the crate
    /// list untouched, and on success the persisted crate list is rewritten
    /// from the manifest, so the two agree again.
    pub fn regenerate(
        &self,
        names: &Vec<String>,
        update_metadata: bool,
        pc: &mut crate::pseudo::VendoredPseudoCrate,
        outcomes: &Vec<bool>,
    ) -> (r: Result<Vec<crate::managed_crate::CrateAction>, Error>)
        requires
            old(pc).manifest@ == self.pseudo.manifest@,
            outcomes@.len() == names@.len(),
        ensures
            final(pc).manifest@ == old(pc).manifest@,
            final(pc).resolution.dep_table@ == old(pc).resolution.dep_table@,
            r is Ok <==> forall|i: int|
                0 <= i < names@.len() ==> #[trigger] regen_error(
                    self.managed.deep_view(),
                    names@[i]@,
                    outcomes@[i],
                ) is None,
            r matches Err(e) ==> exists|k: int|
                0 <= k < names@.len() && #[trigger] regen_error(
                    self.managed.deep_view(),
                    names@[k]@,
                    outcomes@[k],
                ) == Some(e) && forall|j: int|
                    0 <= j < k ==> #[trigger] regen_error(
                        self.managed.deep_view(),
                        names@[j]@,
                        outcomes@[j],
                    ) is None,
            r is Err ==> final(pc).crate_list@ == old(pc).crate_list@,
            r is Ok ==> final(pc).crate_list.deep_view() == entry_names(self.pseudo.manifest@),
            r matches Ok(actions) ==> {
                let width: int = if update_metadata {
                    2
                } else {
                    1
                };
                &&& actions@.len() == width * names@.len()
                &&& forall|i: int|
                    0 <= i < names@.len() ==> (#[trigger] actions@[width * i]
                        matches crate::managed_crate::CrateAction::RegenerateBuildFiles { name }
                        && name == names@[i])
                &&& update_metadata ==> forall|i: int|
                    0 <= i < names@.len() ==> (#[trigger] actions@[2 * i + 1]
                        matches crate::managed_crate::CrateAction::UpdateMetadata { name } && name
                        == names@[i])
            },
    {
        let ghost width: int = if update_metadata {
            2
        } else {
            1
        };
        let mut actions: Vec<crate::managed_crate::CrateAction> = Vec::new();
        let mut i: usize = 0;
        while i < names.len()
            invariant
                0 <= i <= names@.len(),
                outcomes@.len() == names@.len(),
                pc.manifest@ == old(pc).manifest@,
                pc.resolution.dep_table@ == old(pc).resolution.dep_table@,
                pc.crate_list@ == old(pc).crate_list@,
                width == if update_metadata {
                    2int
                } else {
                    1int
                },
                actions@.len() == width * i,
                forall|k: int|
                    0 <= k < i ==> #[trigger] regen_error(
                        self.managed.deep_view(),
                        names@[k]@,
                        outcomes@[k],
                    ) is None,
                forall|k: int|
                    0 <= k < i ==> (#[trigger] actions@[width * k]
                        matches crate::managed_crate::CrateAction::RegenerateBuildFiles { name }
                        && name == names@[k]),
                update_metadata ==> forall|k: int|
                    0 <= k < i ==> (#[trigger] actions@[2 * k + 1]
                        matches crate::managed_crate::CrateAction::UpdateMetadata { name } && name
                        == names@[k]),
            decreases names.len() - i,
        {
            if !self.contains(&names[i]) {
                proof {
                    assert(regen_error(
                        self.managed.deep_view(),
                        names@[i as int]@,
                        outcomes@[i as int],
                    ) == Some(Error::IoFailure));
                }
                return Err(Error::IoFailure);
            }
            let mc = crate::managed_crate::ManagedCrate::new(names[i].clone());
            let acts = mc.regenerate(update_metadata);
            let mut k: usize = 0;
            while k < acts.len()
                invariant
                    0 <= k <= acts@.len(),
                    actions@.len() == width * i + k,
                    width == if update_metadata {
                        2int
                    } else {
                        1int
                    },
                    update_metadata ==> acts@.len() == 2,
                    !update_metadata ==> acts@.len() == 1,
                    forall|k2: int| 0 <= k2 < k ==> actions@[width * i + k2] == acts@[k2],
                    forall|k2: int|
                        0 <= k2 < i ==> (#[trigger] actions@[width * k2]
                            matches crate::managed_crate::CrateAction::RegenerateBuildFiles {
                            name,
                        } && name == names@[k2]),
                    update_metadata ==> forall|k2: int|
                        0 <= k2 < i ==> (#[trigger] actions@[2 * k2 + 1]
                            matches crate::managed_crate::CrateAction::UpdateMetadata { name }
                            && name == names@[k2]),
                    (acts@[0] matches crate::managed_crate::CrateAction::RegenerateBuildFiles {
                        name,
                    } && name == names@[i as int]),
                    update_metadata ==> (acts@[1]
                        matches crate::managed_crate::CrateAction::UpdateMetadata { name } && name
                        == names@[i as int]),
                decreases acts.len() - k,
            {
                // CrateAction carries a String, so hand each action over by
                // rebuilding it field for field
                match &acts[k] {
                    crate::managed_crate::CrateAction::RegenerateBuildFiles { name } => {
                        actions.push(
                            crate::managed_crate::CrateAction::RegenerateBuildFiles {
                                name: name.clone(),
                            },
                        );
                    },
                    crate::managed_crate::CrateAction::UpdateMetadata { name } => {
                        actions.push(
                            crate::managed_crate::CrateAction::UpdateMetadata {
                                name: name.clone(),
                            },
                        );
                    },
                    crate::managed_crate::CrateAction::RecontextualizePatches { name } => {
                        actions.push(
                            crate::managed_crate::CrateAction::RecontextualizePatches {
                                name: name.clone(),
                            },
                        );
                    },
                }
                k += 1;
            }
            if !outcomes[i] {
                proof {
                    assert(regen_error(
                        self.managed.deep_view(),
                        names@[i as int]@,
                        outcomes@[i as int],
                    ) == Some(Error::GeneratorFailure));
                }
                return Err(Error::GeneratorFailure);
            }
            i += 1;
        }
        pc.regenerate_crate_list();
        Ok(actions)
    }

    /// Verifies each staged crate for pre-submit: every staging must have
    /// applied its patches, run the generator successfully and left the
    /// build file unchanged, and each crate must be managed. The first
    /// failure is returned.
    pub fn stage(&self, staged: &Vec<StagedCrate>) -> (r: Result<(), Error>)
        ensures
            r is Ok <==> forall|i: int|
                0 <= i < staged@.len() ==> #[trigger] stage_error(
                    self.managed.deep_view(),
                    staged@[i],
                ) is None,
            r matches Err(e) ==> exists|k: int|
                0 <= k < staged@.len() && #[trigger] stage_error(
                    self.managed.deep_view(),
                    staged@[k],
                ) == Some(e) && forall|j: int|
                    0 <= j < k ==> #[trigger] stage_error(
                        self.managed.deep_view(),
                        staged@[j],
                    ) is None,
    {
        let mut i: usize = 0;
        while i < staged.len()
            invariant
                0 <= i <= staged@.len(),
                forall|j: int|
                    0 <= j < i ==> #[trigger] stage_error(
                        self.managed.deep_view(),
                        staged@[j],
                    ) is None,
            decreases staged.len() - i,
        {
            if !self.contains(&staged[i].name) {
                proof {
                    assert(stage_error(self.managed.deep_view(), staged@[i as int]) == Some(
                        Error::IoFailure,
                    ));
                }
                return Err(Error::IoFailure);
            }
            match staged[i].check_staged() {
                Ok(()) => {
                    proof {
                        assert(stage_error(self.managed.deep_view(), staged@[i as int]) is None);
                    }
                },
                Err(e) => {
                    proof {
                        assert(stage_error(self.managed.deep_view(), staged@[i as int]) == Some(e));
                    }
                    return Err(e);
                },
            }
            i += 1;
        }
        Ok(())
    }

    /// The pre-submit consistency check. First the three records of the
    /// managed set must agree pairwise: the manifest's dependency names, the
    /// managed directory's names and the persisted crate list; any
    /// mismatch fails with the names only one side holds. Then the names of
    /// the managed crates touched by the changed files are returned, each
    /// once, for the caller to re-stage and re-diff.
    pub fn preupload_check(&self, crate_list: &Vec<String>, files: &Vec<Vec<String>>) -> (r: Result<
        Vec<String>,
        Error,
    >)
        ensures
            r is Ok <==> crate::names::same_names(
                self.managed.deep_view(),
                entry_names(self.pseudo.manifest@),
            ) && crate::names::same_names(entry_names(self.pseudo.manifest@), crate_list.deep_view()),
            r matches Err(e) ==> e matches Error::ConsistencyViolation { left_only, right_only },
            !crate::names::same_names(self.managed.deep_view(), entry_names(self.pseudo.manifest@))
                ==> (r matches Err(Error::ConsistencyViolation { left_only, right_only })
                && (forall|d: Seq<char>|
                    contains_name(left_only.deep_view(), d) <==> contains_name(
                        self.managed.deep_view(),
                        d,
                    ) && !contains_name(entry_names(self.pseudo.manifest@), d)) && (forall|
                    d: Seq<char>,
                |
                    contains_name(right_only.deep_view(), d) <==> contains_name(
                        entry_names(self.pseudo.manifest@),
                        d,
                    ) && !contains_name(self.managed.deep_view(), d))),
            crate::names::same_names(self.managed.deep_view(), entry_names(self.pseudo.manifest@))
                && !crate::names::same_names(
                entry_names(self.pseudo.manifest@),
                crate_list.deep_view(),
            ) ==> (r matches Err(Error::ConsistencyViolation { left_only, right_only })
                && (forall|d: Seq<char>|
                    contains_name(left_only.deep_view(), d) <==> contains_name(
                        entry_names(self.pseudo.manifest@),
                        d,
                    ) && !contains_name(crate_list.deep_view(), d)) && (forall|d: Seq<char>|
                    contains_name(right_only.deep_view(), d) <==> contains_name(
                        crate_list.deep_view(),
                        d,
                    ) && !contains_name(entry_names(self.pseudo.manifest@), d))),
            r matches Ok(out) ==> {
                &&& out.deep_view().no_duplicates()
                &&& forall|n: Seq<char>|
                    contains_name(out.deep_view(), n) <==> exists|f: int|
                        0 <= f < files.deep_view().len() && (#[trigger] files.deep_view()[f]).len()
                            > 2 && files.deep_view()[f][0] == "crates"@
                            && files.deep_view()[f][1] == n
            },
    {
        let deps = self.pseudo.names();
        let d1 = names_difference(&self.managed, &deps);
        let d2 = names_difference(&deps, &self.managed);
        if d1.len() > 0 || d2.len() > 0 {
            proof {
                if d1@.len() > 0 {
                    assert(!crate::names::names_subset(
                        self.managed.deep_view(),
                        entry_names(self.pseudo.manifest@),
                    ));
                }
                if d2@.len() > 0 {
                    assert(!crate::names::names_subset(
                        entry_names(self.pseudo.manifest@),
                        self.managed.deep_view(),
                    ));
                }
            }
            return Err(Error::ConsistencyViolation { left_only: d1, right_only: d2 });
        }
        let l1 = names_difference(&deps, crate_list);
        let l2 = names_difference(crate_list, &deps);
        if l1.len() > 0 || l2.len() > 0 {
            proof {
                if l1@.len() > 0 {
                    assert(!crate::names::names_subset(
                        entry_names(self.pseudo.manifest@),
                        crate_list.deep_view(),
                    ));
                }
                if l2@.len() > 0 {
                    assert(!crate::names::names_subset(
                        crate_list.deep_view(),
                        entry_names(self.pseudo.manifest@),
                    ));
                }
            }
            return Err(Error::ConsistencyViolation { left_only: l1, right_only: l2 });
        }
        let mut out: Vec<String> = Vec::new();
        let mut i: usize = 0;
        while i < files.len()
            invariant
                0 <= i <= files@.len(),
                out.deep_view().no_duplicates(),
                forall|n: Seq<char>|
                    contains_name(out.deep_view(), n) <==> exists|f: int|
                        0 <= f < i && (#[trigger] files.deep_view()[f]).len() > 2
                            && files.deep_view()[f][0] == "crates"@ && files.deep_view()[f][1] == n,
            decreases files.len() - i,
        {
            let f = &files[i];
            if f.len() > 2 && crate::names::str_is(&f[0], "crates") {
                if !names_contain(&out, &f[1]) {
                    let ghost out0 = out.deep_view();
                    out.push(f[1].clone());
                    proof {
                        assert(out.deep_view() =~= out0.push(files.deep_view()[i as int][1]));
                        assert forall|j2: int, j3: int|
                            0 <= j2 < j3 < out.deep_view().len() implies out.deep_view()[j2]
                            != out.deep_view()[j3] by {
                            if j3 == out0.len() {
                                if out.deep_view()[j2] == files.deep_view()[i as int][1] {
                                    assert(contains_name(out0, files.deep_view()[i as int][1]));
                                }
                            }
                        }
                        assert forall|n: Seq<char>| contains_name(out.deep_view(), n) implies (
                        exists|f2: int|
                            0 <= f2 < i + 1 && (#[trigger] files.deep_view()[f2]).len() > 2
                                && files.deep_view()[f2][0] == "crates"@ && files.deep_view()[f2][1]
                                == n) by {
                            let j2 = choose|j2: int|
                                0 <= j2 < out.deep_view().len() && out.deep_view()[j2] == n;
                            if j2 < out0.len() {
                                assert(contains_name(out0, n));
                            } else {
                                assert(files.deep_view()[i as int].len() > 2 && files.deep_view()[
                                    i as int
                                ][0] == "crates"@ && files.deep_view()[i as int][1] == n);
                            }
                        }
                        assert forall|n: Seq<char>|
                            (exists|f2: int|
                                0 <= f2 < i + 1 && (#[trigger] files.deep_view()[f2]).len() > 2
                                    && files.deep_view()[f2][0] == "crates"@
                                    && files.deep_view()[f2][1] == n) implies contains_name(
                            out.deep_view(),
                            n,
                        ) by {
                            let f2 = choose|f2: int|
                                0 <= f2 < i + 1 && (#[trigger] files.deep_view()[f2]).len() > 2
                                    && files.deep_view()[f2][0] == "crates"@
                                    && files.deep_view()[f2][1] == n;
                            if f2 < i {
                                assert(contains_name(out0, n));
                                lemma_push_contains(out0, files.deep_view()[i as int][1], n);
                            } else {
                                assert(out.deep_view()[out0.len() as int] == n);
                            }
                        }
                    }
                } else {
                    proof {
                        assert forall|n: Seq<char>|
                            (exists|f2: int|
                                0 <= f2 < i + 1 && (#[trigger] files.deep_view()[f2]).len() > 2
                                    && files.deep_view()[f2][0] == "crates"@
                                    && files.deep_view()[f2][1] == n) implies contains_name(
                            out.deep_view(),
                            n,
                        ) by {
                            let f2 = choose|f2: int|
                                0 <= f2 < i + 1 && (#[trigger] files.deep_view()[f2]).len() > 2
                                    && files.deep_view()[f2][0] == "crates"@
                                    && files.deep_view()[f2][1] == n;
                            if f2 == i {
                                assert(files.deep_view()[i as int][1] == f.deep_view()[1]);
                            }
                        }
                    }
                }
            }
            i += 1;
        }
        Ok(out)
    }

    /// Reports, for each managed crate record, whether its unsatisfied
    /// license requirements block it or its module license markers can be
    /// refreshed.
    pub fn fix_licenses(&self, records: &CrateCollection, findings: &Vec<LicenseFinding>) -> (r:
        Vec<LicenseFixAction>)
        requires
            findings@.len() == records.records@.len(),
        ensures
            r@.len() == records.records@.len(),
            forall|i: int|
                0 <= i < r@.len() ==> if findings@[i].unsatisfied@.len() > 0 {
                    #[trigger] r@[i] matches LicenseFixAction::ReportUnsatisfied { name } && name
                        == records.records@[i].name
                } else {
                    r@[i] matches LicenseFixAction::UpdateModuleLicenses { name } && name
                        == records.records@[i].name
                },
    {
        let mut r: Vec<LicenseFixAction> = Vec::new();
        let mut i: usize = 0;
        while i < records.records.len()
            invariant
                0 <= i <= records.records@.len(),
                findings@.len() == records.records@.len(),
                r@.len() == i,
                forall|k: int|
                    0 <= k < i ==> if findings@[k].unsatisfied@.len() > 0 {
                        #[trigger] r@[k] matches LicenseFixAction::ReportUnsatisfied { name }
                            && name == records.records@[k].name
                    } else {
                        r@[k] matches LicenseFixAction::UpdateModuleLicenses { name } && name
                            == records.records@[k].name
                    },
            decreases records.records.len() - i,
        {
            if findings[i].unsatisfied.len() > 0 {
                r.push(LicenseFixAction::ReportUnsatisfied { name: records.records[i].name.clone() });
            } else {
                r.push(
                    LicenseFixAction::UpdateModuleLicenses { name: records.records[i].name.clone() },
                );
            }
            i += 1;
        }
        r
    }

    /// Lists, for each managed crate record, the provenance-metadata refresh
    /// to perform: set the version and addresses, migrate the stale fields
    /// and drop the deprecated one.
    pub fn fix_metadata(&self, records: &CrateCollection) -> (r: Vec<MetadataFix>)
        ensures
            r@.len() == records.records@.len(),
            forall|i: int|
                0 <= i < r@.len() ==> (#[trigger] r@[i]).name == records.records@[i].name && r@[i].version
                    == records.records@[i].version,
    {
        let mut r: Vec<MetadataFix> = Vec::new();
        let mut i: usize = 0;
        while i < records.records.len()
            invariant
                0 <= i <= records.records@.len(),
                r@.len() == i,
                forall|k: int|
                    0 <= k < i ==> (#[trigger] r@[k]).name == records.records@[k].name && r@[k].version
                        == records.records@[k].version,
            decreases records.records.len() - i,
        {
            r.push(
                MetadataFix {
                    name: records.records[i].name.clone(),
                    version: records.records[i].version.duplicate(),
                },
            );
            i += 1;
        }
        r
    }

    /// Asks for the stored patches of each named managed crate to be
    /// rewritten for the crate's current location.
    pub fn recontextualize_patches(&self, names: &Vec<String>) -> (r: Result<
        Vec<crate::managed_crate::CrateAction>,
        Error,
    >)
        ensures
            r is Ok <==> crate::names::names_subset(views_of(names@), self.managed.deep_view()),
            r is Err ==> r matches Err(Error::IoFailure),
            r matches Ok(actions) ==> actions@.len() == names@.len() && forall|i: int|
                0 <= i < names@.len() ==> (#[trigger] actions@[i]
                    matches crate::managed_crate::CrateAction::RecontextualizePatches { name }
                    && name == names@[i]),
    {
        let mut actions: Vec<crate::managed_crate::CrateAction> = Vec::new();
        let mut i: usize = 0;
        while i < names.len()
            invariant
                0 <= i <= names@.len(),
                actions@.len() == i,
                forall|k: int|
                    0 <= k < i ==> contains_name(
                        self.managed.deep_view(),
                        #[trigger] views_of(names@)[k],
                    ),
                forall|k: int|
                    0 <= k < i ==> (#[trigger] actions@[k]
                        matches crate::managed_crate::CrateAction::RecontextualizePatches { name }
                        && name == names@[k]),
            decreases names.len() - i,
        {
            if !self.contains(&names[i]) {
                proof {
                    assert(!contains_name(self.managed.deep_view(), views_of(names@)[i as int]));
                }
                return Err(Error::IoFailure);
            }
            let mc = crate::managed_crate::ManagedCrate::new(names[i].clone());
            let a = mc.recontextualize_patches();
            actions.push(a);
            i += 1;
        }
        Ok(actions)
    }
}

/// The queue after the direct dependencies `deps[..k]` of a just-discovered
/// crate were offered to it, in order: a dependency enters unless already
/// queued, already discovered, already in the manifest, or legacy.
pub open spec fn enqueue_deps(
    pending: Seq<Seq<char>>,
    added: Seq<Seq<char>>,
    manifest_names: Seq<Seq<char>>,
    legacy_names: Seq<Seq<char>>,
    deps: Seq<Seq<char>>,
    k: int,
) -> Seq<Seq<char>>
    decreases k,
{
    if k <= 0 {
        pending
    } else {
        let p = enqueue_deps(pending, added, manifest_names, legacy_names, deps, k - 1);
        let d = deps[k - 1];
        if contains_name(added, d) || contains_name(p, d) || contains_name(manifest_names, d)
            || contains_name(legacy_names, d) {
            p
        } else {
            p.push(d)
        }
    }
}

/// Why the regeneration of one crate fails, if it does: the crate must be
/// managed, and its generator run must have succeeded.
pub open spec fn regen_error(managed: Seq<Seq<char>>, name: Seq<char>, outcome: bool) -> Option<
    Error,
> {
    if !contains_name(managed, name) {
        Some(Error::IoFailure)
    } else if !outcome {
        Some(Error::GeneratorFailure)
    } else {
        None
    }
}

/// Why the pre-submit verification of one staged crate fails, if it does.
pub open spec fn stage_error(managed: Seq<Seq<char>>, s: StagedCrate) -> Option<Error> {
    if !contains_name(managed, s.name@) {
        Some(Error::IoFailure)
    } else if !all_patches_applied(s.patches@) {
        Some(Error::PatchFailure)
    } else if !s.generator_success {
        Some(Error::GeneratorFailure)
    } else if !s.build_file_unchanged {
        Some(Error::DriftDetected)
    } else {
        None
    }
}

/// The license requirements found for one crate: what is satisfied and what
/// is not.
pub struct LicenseFinding {
    pub satisfied: Vec<String>,
    pub unsatisfied: Vec<String>,
}

/// What the license fixer decides for one managed crate.
pub enum LicenseFixAction {
    /// Unsatisfied requirements remain: report them, change nothing.
    ReportUnsatisfied { name: String },
    /// All requirements are satisfied: refresh the module license markers.
    UpdateModuleLicenses { name: String },
}

/// The provenance-metadata refresh for one managed crate.
pub struct MetadataFix {
    pub name: String,
    pub version: Version,
}

/// Two health checks of the same unmodified state agree: the verdict and
/// the diagnostics are a function of the observed state alone.
pub proof fn lemma_health_idempotent(
    r1: HealthReport,
    r2: HealthReport,
    managed: Seq<Seq<char>>,
    legacy: Seq<CrateRecord>,
    name: Seq<char>,
    obs: HealthObservations,
    unpinned: bool,
)
    requires
        verdict_matches(r1.verdict, spec_health(managed, legacy, name, obs, unpinned)),
        verdict_matches(r2.verdict, spec_health(managed, legacy, name, obs, unpinned)),
        r1.diagnostics@ == health_diags(managed, legacy, name, obs, unpinned),
        r2.diagnostics@ == health_diags(managed, legacy, name, obs, unpinned),
    ensures
        r1.verdict == r2.verdict,
        r1.diagnostics@ == r2.diagnostics@,
{
}

/// The pinned-vs-unpinned policy, for a crate whose staging is otherwise
/// reproducible: a tree difference beyond the ignored names makes a pinned
/// check unhealthy with drift, while the identical observations checked
/// unpinned are healthy but flagged for manual inspection; with no such
/// difference the check is healthy and unflagged either way.
pub proof fn lemma_pinned_vs_unpinned(
    managed: Seq<Seq<char>>,
    legacy: Seq<CrateRecord>,
    name: Seq<char>,
    obs: HealthObservations,
)
    requires
        !contains_name(managed, name),
        count_matching(legacy, name) == 1,
        prereq_ok(spec_record_for(legacy, name), obs),
        obs.standalone matches Some(st) && st.generator_success && st.build_file_unchanged,
        obs.vendored matches Some(vd) && all_patches_applied(vd.patches@) && vd.generator_success
            && vd.build_file_unchanged,
    ensures
        obs.vendored matches Some(vd) ==> {
            &&& !spec_diffs_clean(vd.diffs.deep_view()) ==> spec_health(
                managed,
                legacy,
                name,
                obs,
                false,
            ) is DriftDetected
            &&& !spec_diffs_clean(vd.diffs.deep_view()) ==> spec_health(
                managed,
                legacy,
                name,
                obs,
                true,
            ) == (HealthFinding::Healthy { version: vd.vendored_version, flagged: true })
            &&& spec_diffs_clean(vd.diffs.deep_view()) ==> forall|u: bool|
                spec_health(managed, legacy, name, obs, u) == (HealthFinding::Healthy {
                    version: vd.vendored_version,
                    flagged: false,
                })
        },
{
}

/// Ignore-list correctness: when every difference between the legacy and
/// the staged tree is confined to ignored names, an otherwise reproducible
/// health check never judges drift, whether pinned or not.
pub proof fn lemma_ignored_diffs_never_drift(
    managed: Seq<Seq<char>>,
    legacy: Seq<CrateRecord>,
    name: Seq<char>,
    obs: HealthObservations,
    unpinned: bool,
)
    requires
        !contains_name(managed, name),
        count_matching(legacy, name) == 1,
        prereq_ok(spec_record_for(legacy, name), obs),
        obs.standalone matches Some(st) && st.generator_success && st.build_file_unchanged,
        obs.vendored matches Some(vd) && all_patches_applied(vd.patches@) && vd.generator_success
            && vd.build_file_unchanged && forall|i: int|
            0 <= i < vd.diffs.deep_view().len() ==> crate::ignore::spec_path_ignored(
                #[trigger] vd.diffs.deep_view()[i],
            ),
    ensures
        obs.vendored matches Some(vd) ==> spec_health(managed, legacy, name, obs, unpinned)
            == (HealthFinding::Healthy { version: vd.vendored_version, flagged: false }),
{
}

} // verus!
