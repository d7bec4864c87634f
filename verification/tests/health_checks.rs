use crate_health::repo::{Diagnostic, HealthObservations, ManagedRepo};
use crate_health::managed_crate::{PatchOutcome, StagedCrate};
use crate_health::pseudo::PseudoCrate;
use crate_health::records::{CrateCollection, CrateRecord};
use crate_health::version::Version;
use crate_health::Error;

fn record(name: &str, version: Version) -> CrateRecord {
    CrateRecord {
        name: name.to_string(),
        version,
        license: "Apache-2.0".to_string(),
        repository: None,
        description: String::new(),
        migration_denied: false,
    }
}

fn v(major: u64, minor: u64, patch: u64) -> Version {
    Version { major, minor, patch, pre: String::new(), build: String::new() }
}

fn staged(name: &str, ok: bool, diffs: Vec<Vec<String>>) -> StagedCrate {
    StagedCrate {
        name: name.to_string(),
        android_version: v(1, 2, 3),
        vendored_version: v(1, 2, 3),
        generator_success: ok,
        build_file_unchanged: ok,
        patches: Vec::new(),
        diffs,
    }
}

fn healthy_obs(name: &str, diffs: Vec<Vec<String>>) -> HealthObservations {
    HealthObservations {
        has_build_file: true,
        has_generator_config: true,
        standalone: Some(staged(name, true, Vec::new())),
        vendored: Some(staged(name, true, diffs)),
    }
}

fn repo_with(managed: Vec<&str>, legacy: Vec<CrateRecord>) -> ManagedRepo {
    ManagedRepo::new(
        "monorepo/crates".to_string(),
        managed.into_iter().map(|s| s.to_string()).collect(),
        CrateCollection { records: legacy },
        PseudoCrate::new(Vec::new()),
    )
}

fn path(components: &[&str]) -> Vec<String> {
    components.iter().map(|s| s.to_string()).collect()
}

#[test]
fn healthy_crate_reports_its_version() {
    let repo = repo_with(vec![], vec![record("foo", v(1, 2, 3))]);
    let report = repo.migration_health(&"foo".to_string(), &healthy_obs("foo", vec![]), false);
    match report.verdict {
        Ok(version) => assert_eq!(version, v(1, 2, 3)),
        Err(_) => panic!("expected a healthy verdict"),
    }
    assert_eq!(report.diagnostics, vec![]);
}

#[test]
fn already_managed_crate_is_rejected() {
    let repo = repo_with(vec!["foo"], vec![record("foo", v(1, 2, 3))]);
    let report = repo.migration_health(&"foo".to_string(), &healthy_obs("foo", vec![]), false);
    assert!(matches!(report.verdict, Err(Error::AlreadyExists)));
}

#[test]
fn zero_versions_are_ambiguous() {
    let repo = repo_with(vec![], vec![]);
    let report = repo.migration_health(&"foo".to_string(), &healthy_obs("foo", vec![]), false);
    assert!(matches!(report.verdict, Err(Error::AmbiguousVersion { count: 0 })));
}

#[test]
fn two_versions_are_ambiguous() {
    let repo = repo_with(vec![], vec![record("foo", v(1, 0, 0)), record("foo", v(2, 0, 0))]);
    let report = repo.migration_health(&"foo".to_string(), &healthy_obs("foo", vec![]), false);
    assert!(matches!(report.verdict, Err(Error::AmbiguousVersion { count: 2 })));
}

#[test]
fn single_version_gate_accepts_exactly_one() {
    let cc = CrateCollection { records: vec![record("foo", v(1, 0, 0))] };
    assert!(matches!(cc.single_version(&"foo".to_string()), Ok(0)));
    let none = CrateCollection { records: vec![] };
    assert!(matches!(
        none.single_version(&"foo".to_string()),
        Err(Error::AmbiguousVersion { count: 0 })
    ));
    let two = CrateCollection { records: vec![record("foo", v(1, 0, 0)), record("foo", v(2, 0, 0))] };
    assert!(matches!(
        two.single_version(&"foo".to_string()),
        Err(Error::AmbiguousVersion { count: 2 })
    ));
}

#[test]
fn denied_crate_is_a_missing_prerequisite() {
    let mut krate = record("foo", v(1, 2, 3));
    krate.migration_denied = true;
    let repo = repo_with(vec![], vec![krate]);
    let obs = HealthObservations {
        has_build_file: false,
        has_generator_config: true,
        standalone: None,
        vendored: None,
    };
    let report = repo.migration_health(&"foo".to_string(), &obs, false);
    assert!(matches!(report.verdict, Err(Error::PrerequisiteMissing)));
    // every missing prerequisite is reported before the check gives up
    assert_eq!(
        report.diagnostics,
        vec![Diagnostic::MigrationDenied, Diagnostic::MissingBuildFile]
    );
}

#[test]
fn standalone_generator_failure_is_unhealthy() {
    let repo = repo_with(vec![], vec![record("foo", v(1, 2, 3))]);
    let obs = HealthObservations {
        has_build_file: true,
        has_generator_config: true,
        standalone: Some(staged("foo", false, vec![])),
        vendored: None,
    };
    let report = repo.migration_health(&"foo".to_string(), &obs, false);
    assert!(matches!(report.verdict, Err(Error::GeneratorFailure)));
    assert_eq!(report.diagnostics, vec![Diagnostic::StandaloneGeneratorFailed]);
}

#[test]
fn failed_patches_are_unhealthy_and_all_reported() {
    let repo = repo_with(vec![], vec![record("foo", v(1, 2, 3))]);
    let mut vendored = staged("foo", true, vec![]);
    vendored.patches = vec![
        PatchOutcome {
            file: "patches/a.patch".to_string(),
            applied: false,
            stdout: Vec::new(),
            stderr: b"patch: hunk failed".to_vec(),
        },
        PatchOutcome {
            file: "patches/b.patch".to_string(),
            applied: true,
            stdout: Vec::new(),
            stderr: Vec::new(),
        },
    ];
    let obs = HealthObservations {
        has_build_file: true,
        has_generator_config: true,
        standalone: Some(staged("foo", true, vec![])),
        vendored: Some(vendored),
    };
    let report = repo.migration_health(&"foo".to_string(), &obs, false);
    assert!(matches!(report.verdict, Err(Error::PatchFailure)));
    assert_eq!(report.diagnostics, vec![Diagnostic::PatchesFailed]);
}

#[test]
fn pinned_check_rejects_drift() {
    let repo = repo_with(vec![], vec![record("foo", v(1, 2, 3))]);
    let diffs = vec![path(&["foo", "src", "lib.rs"])];
    let report = repo.migration_health(&"foo".to_string(), &healthy_obs("foo", diffs), false);
    assert!(matches!(report.verdict, Err(Error::DriftDetected)));
    assert_eq!(report.diagnostics, vec![Diagnostic::TreeDiffers]);
}

#[test]
fn unpinned_check_accepts_drift_flagged() {
    let repo = repo_with(vec![], vec![record("foo", v(1, 2, 3))]);
    let diffs = vec![path(&["foo", "src", "lib.rs"])];
    let report = repo.migration_health(&"foo".to_string(), &healthy_obs("foo", diffs), true);
    match report.verdict {
        Ok(version) => assert_eq!(version, v(1, 2, 3)),
        Err(_) => panic!("an unpinned check accepts drift"),
    }
    assert_eq!(
        report.diagnostics,
        vec![Diagnostic::TreeDiffers, Diagnostic::UnpinnedDriftAccepted]
    );
}

#[test]
fn exact_match_is_healthy_regardless_of_pinning() {
    let repo = repo_with(vec![], vec![record("foo", v(1, 2, 3))]);
    for unpinned in [false, true] {
        let report =
            repo.migration_health(&"foo".to_string(), &healthy_obs("foo", vec![]), unpinned);
        match report.verdict {
            Ok(version) => assert_eq!(version, v(1, 2, 3)),
            Err(_) => panic!("expected a healthy verdict"),
        }
        assert_eq!(report.diagnostics, vec![]);
    }
}

#[test]
fn difference_confined_to_ignored_files_is_no_drift() {
    let repo = repo_with(vec![], vec![record("foo", v(1, 2, 3))]);
    let diffs = vec![path(&["foo", "Cargo.lock"]), path(&["foo", ".github", "ci.yml"])];
    let report = repo.migration_health(&"foo".to_string(), &healthy_obs("foo", diffs), false);
    assert!(report.verdict.is_ok());
    assert_eq!(report.diagnostics, vec![]);
}

#[test]
fn version_change_is_informational() {
    let repo = repo_with(vec![], vec![record("foo", v(1, 2, 3))]);
    let mut vendored = staged("foo", true, vec![]);
    vendored.vendored_version = v(1, 3, 0);
    let obs = HealthObservations {
        has_build_file: true,
        has_generator_config: true,
        standalone: Some(staged("foo", true, vec![])),
        vendored: Some(vendored),
    };
    let report = repo.migration_health(&"foo".to_string(), &obs, false);
    match report.verdict {
        Ok(version) => assert_eq!(version, v(1, 3, 0)),
        Err(_) => panic!("a version change alone is not fatal"),
    }
    assert_eq!(report.diagnostics, vec![Diagnostic::VersionChanged]);
}

#[test]
fn health_check_is_idempotent() {
    let repo = repo_with(vec![], vec![record("foo", v(1, 2, 3))]);
    let diffs = vec![path(&["foo", "src", "lib.rs"])];
    let first = repo.migration_health(&"foo".to_string(), &healthy_obs("foo", diffs.clone()), true);
    let second =
        repo.migration_health(&"foo".to_string(), &healthy_obs("foo", diffs), true);
    match (&first.verdict, &second.verdict) {
        (Ok(a), Ok(b)) => assert_eq!(a, b),
        _ => panic!("both runs must agree"),
    }
    assert_eq!(first.diagnostics, second.diagnostics);
}

#[test]
fn health_probe_leaves_no_manifest_residue() {
    // the probe registers the crate, vendors, and removes it again
    let mut pseudo = PseudoCrate::new(Vec::new());
    pseudo.cargo_add(&"bar".to_string(), v(2, 0, 1));
    let before = pseudo.names();
    pseudo.cargo_add(&"foo".to_string(), v(1, 2, 3));
    assert!(pseudo.remove(&"foo".to_string()).is_ok());
    assert_eq!(pseudo.names(), before);
}

#[test]
fn removing_an_absent_name_fails() {
    let mut pseudo = PseudoCrate::new(Vec::new());
    assert!(matches!(pseudo.remove(&"foo".to_string()), Err(Error::IoFailure)));
}
