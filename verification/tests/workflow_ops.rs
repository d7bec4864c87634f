use crate_health::ignore::{is_ignored, path_is_ignored};
use crate_health::manifest_text::manifest_field;
use crate_health::managed_crate::{CrateAction, ManagedCrate, PatchOutcome, StagedCrate};
use crate_health::pseudo::{DepEntry, ManifestEntry, PseudoCrate, Resolution};
use crate_health::records::{CrateCollection, CrateRecord};
use crate_health::repo::{
    HealthObservations, ImportAction, ImportObservations, LicenseFinding, LicenseFixAction,
    ManagedRepo, MigrateAction,
};
use crate_health::version::{decimal_string, stub_line, Version, VersionReq};
use crate_health::Error;

fn v(major: u64, minor: u64, patch: u64) -> Version {
    Version { major, minor, patch, pre: String::new(), build: String::new() }
}

fn record(name: &str, version: Version) -> CrateRecord {
    CrateRecord {
        name: name.to_string(),
        version,
        license: "Apache-2.0".to_string(),
        repository: None,
        description: String::new(),
        migration_denied: false,
    }
}

fn staged_ok(name: &str) -> StagedCrate {
    StagedCrate {
        name: name.to_string(),
        android_version: v(1, 2, 3),
        vendored_version: v(1, 2, 3),
        generator_success: true,
        build_file_unchanged: true,
        patches: Vec::new(),
        diffs: Vec::new(),
    }
}

fn healthy_obs(name: &str) -> HealthObservations {
    HealthObservations {
        has_build_file: true,
        has_generator_config: true,
        standalone: Some(staged_ok(name)),
        vendored: Some(staged_ok(name)),
    }
}

fn repo_with(managed: Vec<&str>, legacy: Vec<CrateRecord>, manifest: Vec<ManifestEntry>) -> ManagedRepo {
    ManagedRepo::new(
        "monorepo/crates".to_string(),
        managed.into_iter().map(|s| s.to_string()).collect(),
        CrateCollection { records: legacy },
        PseudoCrate::new(manifest),
    )
}

fn names(list: &[&str]) -> Vec<String> {
    list.iter().map(|s| s.to_string()).collect()
}

fn resolution(table: &[(&str, &[&str])]) -> Resolution {
    Resolution {
        dep_table: table
            .iter()
            .map(|(name, deps)| DepEntry { name: name.to_string(), deps: names(deps) })
            .collect(),
    }
}

fn import_obs(
    satisfied: &[(&str, &str)],
    unsatisfied: &[&str],
    repository: Option<&str>,
) -> ImportObservations {
    ImportObservations {
        generator_config_ok: true,
        license_satisfied: satisfied.iter().map(|(req, _)| req.to_string()).collect(),
        satisfied_files: satisfied.iter().map(|(_, file)| file.to_string()).collect(),
        license_unsatisfied: names(unsatisfied),
        repository: repository.map(|s| s.to_string()),
        license_file_present: false,
        build_file_present: false,
        version: v(1, 4, 0),
        description: "a library".to_string(),
        most_restrictive_license: "NOTICE".to_string(),
    }
}

#[test]
fn migration_stub_scenario() {
    // migrating foo at 1.2.3 with no tree differences
    let mut repo = repo_with(vec![], vec![record("foo", v(1, 2, 3))], vec![]);
    let result = repo.migrate(&names(&["foo"]), &names(&[]), &vec![healthy_obs("foo")]);
    let actions = match result {
        Ok(actions) => actions,
        Err(_) => panic!("a clean migration succeeds"),
    };
    assert_eq!(repo.all_crate_names(), names(&["foo"]));
    // regenerate the batch and rewrite the crate list before any scrub
    assert_eq!(actions.len(), 6);
    assert!(matches!(&actions[0], MigrateAction::RegenerateBuildFiles { name } if name == "foo"));
    assert!(matches!(actions[1], MigrateAction::RegenerateCrateList));
    assert!(matches!(&actions[2], MigrateAction::RemoveBuildFiles { name } if name == "foo"));
    assert!(matches!(&actions[3], MigrateAction::RemoveGeneratorConfig { name } if name == "foo"));
    assert!(matches!(&actions[4], MigrateAction::RemoveTestMapping { name } if name == "foo"));
    match &actions[5] {
        MigrateAction::WriteStub { name, content } => {
            assert_eq!(name, "foo");
            assert_eq!(content, "// This crate has been migrated to monorepo/crates.\n");
        },
        _ => panic!("the legacy build file is replaced by the pointer stub"),
    }
    // the manifest pins the discovered version exactly
    assert_eq!(repo.pseudo.manifest.len(), 1);
    assert_eq!(repo.pseudo.manifest[0].render(), "foo = \"=1.2.3\"");
}

#[test]
fn migrate_unpinned_uses_open_constraint() {
    let mut repo = repo_with(vec![], vec![record("foo", v(1, 2, 3))], vec![]);
    let result = repo.migrate(&names(&["foo"]), &names(&["foo"]), &vec![healthy_obs("foo")]);
    assert!(result.is_ok());
    assert_eq!(repo.pseudo.manifest[0].render(), "foo = \"1.2.3\"");
    assert!(matches!(repo.pseudo.manifest[0].req, VersionReq::Compatible(_)));
}

#[test]
fn migrate_aborts_on_first_unhealthy_crate() {
    let mut repo = repo_with(
        vec![],
        vec![record("good", v(1, 0, 0)), record("bad", v(2, 0, 0))],
        vec![],
    );
    let mut bad_obs = healthy_obs("bad");
    bad_obs.has_build_file = false;
    bad_obs.standalone = None;
    bad_obs.vendored = None;
    let result = repo.migrate(
        &names(&["good", "bad"]),
        &names(&[]),
        &vec![healthy_obs("good"), bad_obs],
    );
    assert!(matches!(result, Err(Error::PrerequisiteMissing)));
    // fail-fast: the healthy prefix stays migrated, the rest never starts
    assert_eq!(repo.all_crate_names(), names(&["good"]));
    assert_eq!(repo.pseudo.manifest.len(), 1);
}

#[test]
fn closure_discovers_each_dependency_once() {
    // a depends on b and c; b depends on d
    let mut repo = repo_with(vec![], vec![], vec![]);
    let res = resolution(&[("a", &["b", "c"]), ("b", &["d"])]);
    let (added, pc) = repo.add_crate_and_dependencies(&"a".to_string(), res, names(&[]));
    let mut sorted = added.clone();
    sorted.sort();
    assert_eq!(sorted, names(&["a", "b", "c", "d"]));
    // each discovered name was registered unversioned, in discovery order
    assert_eq!(repo.pseudo.names(), added);
    assert!(repo.pseudo.manifest.iter().all(|e| matches!(e.req, VersionReq::Unversioned)));
    // the returned vendored project carries the final manifest
    assert_eq!(pc.deps(), added);
}

#[test]
fn closure_skips_migrated_and_legacy_names() {
    let manifest = vec![ManifestEntry { name: "c".to_string(), req: VersionReq::Unversioned }];
    let mut repo = repo_with(vec!["c"], vec![record("d", v(1, 0, 0))], manifest);
    let res = resolution(&[("a", &["b", "c"]), ("b", &["d"])]);
    let (added, _pc) = repo.add_crate_and_dependencies(&"a".to_string(), res, names(&[]));
    let mut sorted = added.clone();
    sorted.sort();
    // c is already in the manifest and d sits in the legacy area
    assert_eq!(sorted, names(&["a", "b"]));
}

#[test]
fn import_performs_the_per_crate_actions() {
    let mut repo = repo_with(vec![], vec![], vec![]);
    let obs = import_obs(&[("Apache-2.0", "LICENSE-APACHE")], &[], None);
    let actions = match repo.import(&names(&["dep"]), &vec![obs]) {
        Ok(actions) => actions,
        Err(_) => panic!("a clean import succeeds"),
    };
    assert_eq!(repo.all_crate_names(), names(&["dep"]));
    assert_eq!(actions.len(), 6);
    assert!(matches!(&actions[0], ImportAction::CopyVendored { name } if name == "dep"));
    assert!(matches!(&actions[1], ImportAction::GenerateConfig { name } if name == "dep"));
    // the symlink names the discovered license file as its target
    assert!(matches!(
        &actions[2],
        ImportAction::SymlinkLicense { name, target }
            if name == "dep" && target == "LICENSE-APACHE"
    ));
    assert!(matches!(&actions[3], ImportAction::UpdateModuleLicenses { name } if name == "dep"));
    // the provenance metadata is initialized from the observed fields
    assert!(matches!(
        &actions[4],
        ImportAction::WriteMetadata { name, version, description, license_type }
            if name == "dep" && *version == v(1, 4, 0) && description == "a library"
                && license_type == "NOTICE"
    ));
    assert!(matches!(&actions[5], ImportAction::WriteEmptyBuildFile { name } if name == "dep"));

    // a copy that already has a build file keeps it: no placeholder
    let mut repo2 = repo_with(vec![], vec![], vec![]);
    let mut obs2 = import_obs(&[("Apache-2.0", "LICENSE-APACHE")], &[], None);
    obs2.build_file_present = true;
    let actions2 = match repo2.import(&names(&["dep"]), &vec![obs2]) {
        Ok(actions2) => actions2,
        Err(_) => panic!("a clean import succeeds"),
    };
    assert_eq!(actions2.len(), 5);
    assert!(!actions2.iter().any(|a| matches!(a, ImportAction::WriteEmptyBuildFile { .. })));
}

#[test]
fn import_fetches_the_permissive_license_fallback() {
    let mut repo = repo_with(vec![], vec![], vec![]);
    let obs = import_obs(&[], &["Apache-2.0"], Some("https://github.com/o/r"));
    let actions = repo.import(&names(&["dep"]), &vec![obs]).unwrap_or_else(|_| {
        panic!("the fallback covers the single unsatisfied requirement")
    });
    assert!(actions.iter().any(|a| matches!(
        a,
        ImportAction::FetchLicenseFallback { name, repository }
            if name == "dep" && repository == "https://github.com/o/r"
    )));
}

#[test]
fn import_rejects_unsatisfied_licenses() {
    let mut repo = repo_with(vec![], vec![], vec![]);
    let obs = import_obs(&[], &["MIT", "BSD-3-Clause"], Some("https://github.com/o/r"));
    assert!(matches!(
        repo.import(&names(&["dep"]), &vec![obs]),
        Err(Error::LicenseUnsatisfied)
    ));
}

#[test]
fn import_rejects_a_crate_already_present() {
    let mut repo = repo_with(vec!["dep"], vec![], vec![]);
    let obs = import_obs(&[("Apache-2.0", "LICENSE-APACHE")], &[], None);
    assert!(matches!(repo.import(&names(&["dep"]), &vec![obs]), Err(Error::AlreadyExists)));
}

#[test]
fn preupload_check_passes_when_the_three_records_agree() {
    let manifest = vec![
        ManifestEntry { name: "a".to_string(), req: VersionReq::Unversioned },
        ManifestEntry { name: "b".to_string(), req: VersionReq::Unversioned },
    ];
    let repo = repo_with(vec!["a", "b"], vec![], manifest);
    let files = vec![names(&["crates", "a", "src", "lib.rs"]), names(&["docs", "readme"])];
    match repo.preupload_check(&names(&["a", "b"]), &files) {
        Ok(touched) => assert_eq!(touched, names(&["a"])),
        Err(_) => panic!("consistent records pass"),
    }
}

#[test]
fn preupload_check_reports_a_directory_missing_from_the_manifest() {
    let manifest = vec![ManifestEntry { name: "a".to_string(), req: VersionReq::Unversioned }];
    let repo = repo_with(vec!["a", "b"], vec![], manifest);
    match repo.preupload_check(&names(&["a"]), &vec![]) {
        Err(Error::ConsistencyViolation { left_only, right_only }) => {
            assert_eq!(left_only, names(&["b"]));
            assert_eq!(right_only, names(&[]));
        },
        _ => panic!("a directory absent from the manifest fails the check"),
    }
}

#[test]
fn preupload_check_compares_the_crate_list_too() {
    let manifest = vec![ManifestEntry { name: "a".to_string(), req: VersionReq::Unversioned }];
    let repo = repo_with(vec!["a"], vec![], manifest);
    match repo.preupload_check(&names(&["a", "stale"]), &vec![]) {
        Err(Error::ConsistencyViolation { left_only, right_only }) => {
            assert_eq!(left_only, names(&[]));
            assert_eq!(right_only, names(&["stale"]));
        },
        _ => panic!("a stale crate list fails the check"),
    }
}

#[test]
fn ignored_names_cover_lockfiles_and_ci_but_not_sources() {
    assert!(is_ignored(&"Cargo.lock".to_string()));
    assert!(is_ignored(&".github".to_string()));
    assert!(is_ignored(&"OWNERS".to_string()));
    assert!(!is_ignored(&"src".to_string()));
    assert!(!is_ignored(&"Cargo.toml".to_string()));
    assert!(path_is_ignored(&names(&["foo", ".git", "config"])));
    assert!(!path_is_ignored(&names(&["foo", "src", "lib.rs"])));
}

#[test]
fn staged_crate_accessors_and_checks() {
    let mut s = staged_ok("foo");
    s.patches = vec![
        PatchOutcome {
            file: "a".to_string(),
            applied: true,
            stdout: Vec::new(),
            stderr: Vec::new(),
        },
        PatchOutcome {
            file: "b".to_string(),
            applied: false,
            stdout: Vec::new(),
            stderr: b"rejected".to_vec(),
        },
    ];
    assert!(s.cargo_embargo_success());
    assert!(s.android_bp_unchanged());
    assert!(!s.patch_success());
    assert!(matches!(s.check_staged(), Err(Error::PatchFailure)));
    s.patches = vec![
        PatchOutcome {
            file: "a".to_string(),
            applied: true,
            stdout: Vec::new(),
            stderr: Vec::new(),
        },
    ];
    assert!(s.patch_success());
    assert!(s.check_staged().is_ok());
    s.diffs = vec![names(&["foo", "src", "lib.rs"])];
    assert!(matches!(s.diff_staged(), Err(Error::DriftDetected)));
    s.diffs = vec![names(&["foo", "Cargo.lock"])];
    assert!(s.diff_staged().is_ok());
}

#[test]
fn stage_reports_the_first_failing_crate() {
    let repo = repo_with(vec!["a", "b"], vec![], vec![]);
    let mut bad = staged_ok("b");
    bad.generator_success = false;
    assert!(repo.stage(&vec![staged_ok("a")]).is_ok());
    assert!(matches!(
        repo.stage(&vec![staged_ok("a"), bad]),
        Err(Error::GeneratorFailure)
    ));
    assert!(matches!(repo.stage(&vec![staged_ok("missing")]), Err(Error::IoFailure)));
}

#[test]
fn regenerate_lists_the_write_back_actions() {
    let manifest = vec![
        ManifestEntry { name: "a".to_string(), req: VersionReq::Unversioned },
        ManifestEntry { name: "b".to_string(), req: VersionReq::Unversioned },
    ];
    let repo = repo_with(vec!["a", "b"], vec![], manifest);
    // the reference must be vendored from the manifest as it stands
    let mut pc = PseudoCrate::new(repo.pseudo.snapshot())
        .vendor(resolution(&[]), names(&["stale"]));
    let actions = match repo.regenerate(&names(&["a", "b"]), true, &mut pc, &vec![true, true]) {
        Ok(actions) => actions,
        Err(_) => panic!("both crates are managed and both runs succeeded"),
    };
    assert_eq!(actions.len(), 4);
    assert!(matches!(&actions[0], CrateAction::RegenerateBuildFiles { name } if name == "a"));
    assert!(matches!(&actions[1], CrateAction::UpdateMetadata { name } if name == "a"));
    assert!(matches!(&actions[2], CrateAction::RegenerateBuildFiles { name } if name == "b"));
    assert!(matches!(&actions[3], CrateAction::UpdateMetadata { name } if name == "b"));
    // on success the crate list is rewritten from the manifest
    assert_eq!(pc.read_crate_list(), names(&["a", "b"]));

    // a failed per-crate run aborts and leaves the crate list untouched
    let mut pc2 = PseudoCrate::new(repo.pseudo.snapshot())
        .vendor(resolution(&[]), names(&["stale"]));
    assert!(matches!(
        repo.regenerate(&names(&["a", "b"]), false, &mut pc2, &vec![true, false]),
        Err(Error::GeneratorFailure)
    ));
    assert_eq!(pc2.read_crate_list(), names(&["stale"]));

    // an unmanaged name fails outright
    let mut pc3 = PseudoCrate::new(repo.pseudo.snapshot())
        .vendor(resolution(&[]), names(&["stale"]));
    assert!(matches!(
        repo.regenerate(&names(&["c"]), false, &mut pc3, &vec![true]),
        Err(Error::IoFailure)
    ));
}

#[test]
fn closure_steps_take_a_fresh_vendor_each_time() {
    // the on-line discovery: register, re-vendor, then enqueue from the
    // fresh joint answer
    let mut repo = repo_with(vec![], vec![], vec![]);
    let mut pending = names(&["a"]);
    let mut added: Vec<String> = Vec::new();
    let cur = repo.closure_pop(&mut pending);
    assert_eq!(cur, "a");
    assert_eq!(repo.pseudo.names(), names(&["a"]));
    let pc = PseudoCrate::new(repo.pseudo.snapshot())
        .vendor(resolution(&[("a", &["b", "c"])]), names(&[]));
    repo.closure_enqueue(&cur, &mut pending, &mut added, &pc);
    assert_eq!(added, names(&["a"]));
    assert_eq!(pending, names(&["b", "c"]));

    let cur = repo.closure_pop(&mut pending);
    assert_eq!(cur, "b");
    let pc = PseudoCrate::new(repo.pseudo.snapshot())
        .vendor(resolution(&[("a", &["b", "c"]), ("b", &["a", "d"])]), names(&[]));
    repo.closure_enqueue(&cur, &mut pending, &mut added, &pc);
    // a is already in the manifest, d is new
    assert_eq!(pending, names(&["c", "d"]));
    assert_eq!(added, names(&["a", "b"]));
}

#[test]
fn recontextualize_patches_maps_each_crate() {
    let repo = repo_with(vec!["a"], vec![], vec![]);
    let actions = match repo.recontextualize_patches(&names(&["a"])) {
        Ok(actions) => actions,
        Err(_) => panic!("the crate is managed"),
    };
    assert_eq!(actions.len(), 1);
    assert!(matches!(&actions[0], CrateAction::RecontextualizePatches { name } if name == "a"));
}

#[test]
fn fix_licenses_reports_or_refreshes() {
    let repo = repo_with(vec!["a", "b"], vec![], vec![]);
    let records = CrateCollection {
        records: vec![record("a", v(1, 0, 0)), record("b", v(2, 0, 0))],
    };
    let findings = vec![
        LicenseFinding { satisfied: names(&["Apache-2.0"]), unsatisfied: names(&[]) },
        LicenseFinding { satisfied: names(&[]), unsatisfied: names(&["MIT"]) },
    ];
    let fixes = repo.fix_licenses(&records, &findings);
    assert!(matches!(&fixes[0], LicenseFixAction::UpdateModuleLicenses { name } if name == "a"));
    assert!(matches!(&fixes[1], LicenseFixAction::ReportUnsatisfied { name } if name == "b"));
}

#[test]
fn fix_metadata_lists_name_and_version() {
    let repo = repo_with(vec!["a"], vec![], vec![]);
    let records = CrateCollection { records: vec![record("a", v(1, 4, 1))] };
    let fixes = repo.fix_metadata(&records);
    assert_eq!(fixes.len(), 1);
    assert_eq!(fixes[0].name, "a");
    assert_eq!(fixes[0].version, v(1, 4, 1));
}

#[test]
fn vendored_reads_follow_the_manifest() {
    let manifest = vec![
        ManifestEntry { name: "a".to_string(), req: VersionReq::Exact(v(1, 0, 0)) },
        ManifestEntry { name: "b".to_string(), req: VersionReq::Unversioned },
    ];
    let pseudo = PseudoCrate::new(manifest);
    let res = resolution(&[("a", &["b"])]);
    let mut vendored = pseudo.vendor(res, names(&["stale"]));
    assert_eq!(vendored.deps(), names(&["a", "b"]));
    assert_eq!(vendored.deps_of(&"a".to_string()), names(&["b"]));
    assert_eq!(vendored.deps_of(&"unknown".to_string()), names(&[]));
    assert_eq!(vendored.read_crate_list(), names(&["stale"]));
    vendored.regenerate_crate_list();
    assert_eq!(vendored.read_crate_list(), names(&["a", "b"]));
    let dirty = match vendored.remove(&"a".to_string()) {
        Ok(dirty) => dirty,
        Err(_) => panic!("the entry exists"),
    };
    assert_eq!(dirty.names(), names(&["b"]));
}

#[test]
fn rendering_is_exact() {
    assert_eq!(decimal_string(0), "0");
    assert_eq!(decimal_string(907), "907");
    assert_eq!(decimal_string(u64::MAX), "18446744073709551615");
    assert_eq!(v(10, 2, 33).render(), "10.2.33");
    assert_eq!(VersionReq::Exact(v(1, 2, 3)).render(), "=1.2.3");
    assert_eq!(VersionReq::Compatible(v(1, 2, 3)).render(), "1.2.3");
    assert_eq!(VersionReq::Unversioned.render(), "");
    let mut pre = v(1, 0, 0);
    pre.pre = "alpha.1".to_string();
    assert_eq!(pre.render(), "1.0.0-alpha.1");
    let mut built = v(2, 1, 0);
    built.build = "5114f85".to_string();
    assert_eq!(built.render(), "2.1.0+5114f85");
    assert_eq!(VersionReq::Exact(pre).render(), "=1.0.0-alpha.1");
    assert_eq!(
        stub_line(&"monorepo/crates".to_string()),
        "// This crate has been migrated to monorepo/crates.\n"
    );
}

#[test]
fn managed_crate_state_machine() {
    let mc = ManagedCrate::new("foo".to_string());
    let staged = mc.stage(
        v(1, 0, 0),
        v(1, 0, 1),
        true,
        true,
        vec![
            PatchOutcome {
                file: "p".to_string(),
                applied: true,
                stdout: Vec::new(),
                stderr: Vec::new(),
            },
        ],
        vec![],
    );
    assert_eq!(staged.android_version, v(1, 0, 0));
    assert_eq!(staged.vendored_version, v(1, 0, 1));
    assert!(staged.check_staged().is_ok());
    let mc2 = ManagedCrate::new("foo".to_string());
    let acts = mc2.regenerate(false);
    assert_eq!(acts.len(), 1);
    assert!(matches!(&acts[0], CrateAction::RegenerateBuildFiles { name } if name == "foo"));
}

#[test]
fn manifest_field_reads_the_first_matching_line() {
    let lines: Vec<Vec<u8>> = vec![
        b"[package]".to_vec(),
        b"name = \"foo\"".to_vec(),
        b"version = \"1.2.3\"".to_vec(),
        b"name = \"shadowed\"".to_vec(),
    ];
    assert_eq!(manifest_field(&lines, &b"name".to_vec()), Some(b"foo".to_vec()));
    assert_eq!(manifest_field(&lines, &b"version".to_vec()), Some(b"1.2.3".to_vec()));
    assert_eq!(manifest_field(&lines, &b"license".to_vec()), None);
    // a field line whose quote never closes yields nothing
    let broken: Vec<Vec<u8>> = vec![b"name = \"unterminated".to_vec()];
    assert_eq!(manifest_field(&broken, &b"name".to_vec()), None);
}
