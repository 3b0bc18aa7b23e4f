use vendor_sync::epoch::{epoch_dirs_to_delete, is_epoch_name, Epoch, OutputEntry};
use vendor_sync::fetch::{
    archived_dir_name, checksum_stub, download_url, fetch_next, fetch_start, FetchAction, FetchError,
    FetchEvent, FetchState,
};
use vendor_sync::manifest::{package_id_from_manifest, PackageId};
use vendor_sync::patch::{
    patch_command_args, patch_next, patch_order, patch_start, PatchAction, PatchEvent, PatchState,
};
use vendor_sync::placeholder::{
    placeholder_crate_metadata, DeclaredDep, DepKind, PackageInfo, ResolvedDep,
};
use vendor_sync::plan::{
    check_config, get_guppy_resolved_package_ids, is_removed, plan_vendor, skip_patches, Step,
};
use vendor_sync::version::{decimal_text, Version};

fn id(name: &str, major: u64, minor: u64, patch: u64) -> PackageId {
    PackageId::new(name.to_string(), Version::new(major, minor, patch))
}

fn strings(v: &[&str]) -> Vec<String> {
    v.iter().map(|s| s.to_string()).collect()
}

fn manifest_for(name: &str, version: &str) -> String {
    format!("[package]\nname = \"{}\"\nversion = \"{}\"\n", name, version)
}

#[test]
fn test_get_package_id_from_vendored_dir_for_happy_case() {
    let text = r#"
            [package]
            name = "some_package"
            version = "1.2.3"
        "#;
    let Some(package_id) = package_id_from_manifest(text) else {
        panic!("`None` returned from get_package_id_from_vendored_dir");
    };
    assert_eq!(package_id.name, "some_package");
    assert!(package_id.version.same_as(&Version::new(1, 2, 3)));
}

fn declared(name: &str, req: &str, features: &[&str]) -> DeclaredDep {
    DeclaredDep {
        name: name.to_string(),
        req: req.to_string(),
        uses_default_features: true,
        features: strings(features),
    }
}

fn package(pid: PackageId, deps: Vec<DeclaredDep>, resolved: Vec<ResolvedDep>) -> PackageInfo {
    PackageInfo { id: pid, dependencies: deps, features: Vec::new(), resolved }
}

#[test]
fn test_get_placeholder_crate_metadata_with_proc_macro2_dependency() {
    let normal = |pkg: usize| ResolvedDep { pkg, kinds: vec![DepKind::Normal] };
    let packages = vec![
        package(id("proc-macro2", 1, 0, 86), vec![], vec![]),
        package(id("quote", 1, 0, 36), vec![], vec![]),
        package(id("syn", 2, 0, 77), vec![], vec![]),
        package(id("synstructure", 0, 13, 1), vec![], vec![]),
        package(
            id("yoke-derive", 0, 8, 0),
            vec![
                declared("proc-macro2", "^1.0.61", &[]),
                declared("quote", "^1.0.28", &[]),
                declared("syn", "^2.0.21", &["fold"]),
                declared("synstructure", "^0.13.0", &[]),
            ],
            vec![normal(0), normal(1), normal(2), normal(3)],
        ),
    ];
    let zerocopy_derive = packages.iter().position(|p| p.id.name == "yoke-derive").unwrap();
    let placeholder = placeholder_crate_metadata(zerocopy_derive, &packages).unwrap();
    assert_eq!(placeholder.name, "yoke-derive");
    assert_eq!(placeholder.version.text(), "0.8.0");
    assert!(placeholder.features.is_empty());

    let mut i = 0;
    assert_eq!(placeholder.dependencies[i].name, "proc-macro2");
    assert_eq!(placeholder.dependencies[i].version, "^1.0.61");
    assert!(placeholder.dependencies[i].default_features);
    assert!(placeholder.dependencies[i].features.is_empty());

    i += 1;
    assert_eq!(placeholder.dependencies[i].name, "quote");
    assert_eq!(placeholder.dependencies[i].version, "^1.0.28");
    assert!(placeholder.dependencies[i].default_features);
    assert!(placeholder.dependencies[i].features.is_empty());

    i += 1;
    assert_eq!(placeholder.dependencies[i].name, "syn");
    assert_eq!(placeholder.dependencies[i].version, "^2.0.21");
    assert!(placeholder.dependencies[i].default_features);
    assert_eq!(placeholder.dependencies[i].features, &["fold"]);

    i += 1;
    assert_eq!(placeholder.dependencies[i].name, "synstructure");
    assert_eq!(placeholder.dependencies[i].version, "^0.13.0");
    assert!(placeholder.dependencies[i].default_features);
    assert!(placeholder.dependencies[i].features.is_empty());

    i += 1;
    assert_eq!(placeholder.dependencies.len(), i);
}

#[test]
fn placeholder_keeps_runtime_edges_only() {
    let packages = vec![
        package(id("a", 1, 0, 0), vec![], vec![]),
        package(id("b", 2, 0, 0), vec![], vec![]),
        package(id("c", 3, 0, 0), vec![], vec![]),
        PackageInfo {
            id: id("p", 0, 1, 0),
            dependencies: vec![
                DeclaredDep {
                    name: "c".to_string(),
                    req: "^3.0".to_string(),
                    uses_default_features: true,
                    features: vec![],
                },
                DeclaredDep {
                    name: "b".to_string(),
                    req: "^2.0".to_string(),
                    uses_default_features: false,
                    features: strings(&["x"]),
                },
                DeclaredDep {
                    name: "a".to_string(),
                    req: "^1.0".to_string(),
                    uses_default_features: true,
                    features: vec![],
                },
            ],
            features: strings(&["zeta", "alpha", "mid"]),
            resolved: vec![
                ResolvedDep { pkg: 0, kinds: vec![DepKind::Build] },
                ResolvedDep { pkg: 2, kinds: vec![DepKind::Development] },
                ResolvedDep { pkg: 1, kinds: vec![DepKind::Development, DepKind::Normal] },
            ],
        },
    ];
    let c = placeholder_crate_metadata(3, &packages).unwrap();
    assert_eq!(c.dependencies.len(), 2);
    assert_eq!(c.dependencies[0].name, "a");
    assert_eq!(c.dependencies[0].version, "^1.0");
    assert!(c.dependencies[0].default_features);
    assert!(c.dependencies[0].features.is_empty());
    assert_eq!(c.dependencies[1].name, "b");
    assert_eq!(c.dependencies[1].version, "^2.0");
    assert!(!c.dependencies[1].default_features);
    assert_eq!(c.dependencies[1].features, strings(&["x"]));
    assert_eq!(c.features, strings(&["alpha", "mid", "zeta"]));
}

#[test]
fn placeholder_reports_undeclared_edge() {
    let packages = vec![
        package(id("a", 1, 0, 0), vec![], vec![]),
        package(
            id("p", 0, 1, 0),
            vec![],
            vec![ResolvedDep { pkg: 0, kinds: vec![DepKind::Normal] }],
        ),
    ];
    let e = placeholder_crate_metadata(1, &packages).unwrap_err();
    assert_eq!(e.dependency, "a");
    assert_eq!(e.package.name, "p");
}

#[test]
fn version_text_and_parse() {
    assert_eq!(decimal_text(0), "0");
    assert_eq!(decimal_text(1207), "1207");
    assert_eq!(decimal_text(u64::MAX), "18446744073709551615");
    let v = Version::parse("1.20.3-alpha.1+build5").unwrap();
    assert_eq!((v.major, v.minor, v.patch), (1, 20, 3));
    assert_eq!(v.pre, "alpha.1");
    assert_eq!(v.build, "build5");
    assert_eq!(v.text(), "1.20.3-alpha.1+build5");
    assert!(Version::parse("1.0").is_none());
    assert!(Version::parse("1.0.01").is_none());
}

#[test]
fn vendor_dir_names() {
    assert_eq!(id("serde", 1, 0, 193).vendor_dir(), "serde-1.0.193");
    assert_eq!(archived_dir_name(&id("syn", 2, 0, 1)), "syn-2.0.1");
}

#[test]
fn manifest_without_version_declares_nothing() {
    assert!(package_id_from_manifest("[package]\nname = \"x\"\n").is_none());
    assert!(package_id_from_manifest("not toml at all [").is_none());
    assert!(package_id_from_manifest("[package]\nname = \"x\"\nversion = \"one\"\n").is_none());
    let p = package_id_from_manifest(&manifest_for("x", "0.3.1")).unwrap();
    assert!(p.same_as(&id("x", 0, 3, 1)));
}

#[test]
fn removal_and_patch_skipping() {
    let resolved = vec![id("a", 1, 0, 0)];
    assert!(!is_removed(&id("a", 1, 0, 0), &vec![], &resolved));
    assert!(is_removed(&id("a", 1, 0, 0), &strings(&["a"]), &resolved));
    assert!(is_removed(&id("a", 1, 1, 0), &vec![], &resolved));
    assert!(!skip_patches(&None, &"a".to_string()));
    assert!(skip_patches(&Some(vec![]), &"a".to_string()));
    assert!(skip_patches(&Some(strings(&["a"])), &"a".to_string()));
    assert!(!skip_patches(&Some(strings(&["b"])), &"a".to_string()));
}

#[test]
fn config_for_unknown_package_is_rejected() {
    let packages = vec![id("a", 1, 0, 0), id("b", 1, 0, 0)];
    assert!(check_config(&strings(&["a", "b"]), &packages).is_ok());
    assert_eq!(check_config(&strings(&["a", "zz", "yy"]), &packages), Err("zz".to_string()));
}

#[test]
fn resolved_ids_are_deduplicated() {
    let r = get_guppy_resolved_package_ids(&vec![id("a", 1, 0, 0), id("b", 1, 0, 0), id("a", 1, 0, 0)]);
    assert_eq!(r.len(), 2);
    assert_eq!(r[0].name, "a");
    assert_eq!(r[1].name, "b");
}

#[test]
fn plan_fetches_places_and_deletes() {
    let packages = vec![id("kept", 1, 0, 0), id("gone", 2, 0, 0), id("done", 0, 1, 0)];
    let manifests = vec![None, Some(manifest_for("gone", "1.9.0")), Some(manifest_for("done", "0.1.0"))];
    let existing = strings(&["gone-2.0.0", "old-0.1.0", "done-0.1.0", "old-0.1.0"]);
    let resolved = vec![id("kept", 1, 0, 0), id("done", 0, 1, 0)];
    let plan = plan_vendor(&packages, &manifests, &existing, &vec![], &resolved, &None);
    assert_eq!(plan.steps, vec![Step::Fetch { patch: true }, Step::Placeholder, Step::Skip]);
    assert_eq!(plan.delete, strings(&["old-0.1.0"]));
    let plan = plan_vendor(&packages, &manifests, &existing, &vec![], &resolved, &Some(vec![]));
    assert_eq!(plan.steps[0], Step::Fetch { patch: false });
}

#[test]
fn second_run_is_a_no_op() {
    let packages = vec![id("kept", 1, 0, 0), id("gone", 2, 0, 0)];
    let resolved = vec![id("kept", 1, 0, 0)];
    let manifests = vec![Some(manifest_for("kept", "1.0.0")), Some(manifest_for("gone", "2.0.0"))];
    let existing = strings(&["kept-1.0.0", "gone-2.0.0"]);
    let plan = plan_vendor(&packages, &manifests, &existing, &vec![], &resolved, &None);
    assert_eq!(plan.steps, vec![Step::Skip, Step::Skip]);
    assert!(plan.delete.is_empty());
}

#[test]
fn epoch_names() {
    assert_eq!(Epoch::parse("v1"), Some(Epoch::Major(1)));
    assert_eq!(Epoch::parse("v12"), Some(Epoch::Major(12)));
    assert_eq!(Epoch::parse("v0_3"), Some(Epoch::Minor(3)));
    assert_eq!(Epoch::parse("v0_0"), Some(Epoch::Minor(0)));
    assert_eq!(Epoch::parse("v0"), None);
    assert_eq!(Epoch::parse("v01"), None);
    assert_eq!(Epoch::parse("v"), None);
    assert_eq!(Epoch::parse("v1_2"), None);
    assert_eq!(Epoch::parse("v99999999999999999999"), None);
    assert_eq!(Epoch::parse("src"), None);
    assert!(is_epoch_name("v2"));
    assert!(!is_epoch_name("docs"));
    assert_eq!(Epoch::from_version(&Version::new(2, 5, 0)).name(), "v2");
    assert_eq!(Epoch::from_version(&Version::new(0, 5, 1)).name(), "v0_5");
}

fn entry(path: &str, name: &str, is_dir: bool) -> OutputEntry {
    OutputEntry { path: path.to_string(), name: name.to_string(), is_dir }
}

#[test]
fn stale_epoch_is_deleted_and_others_kept() {
    let entries = vec![
        entry("rust/foo/v1", "v1", true),
        entry("rust/foo/v2", "v2", true),
        entry("rust/foo/notes", "notes", true),
        entry("rust/foo/v3", "v3", false),
    ];
    let produced = strings(&["rust/foo/v2"]);
    assert_eq!(epoch_dirs_to_delete(&entries, &produced), strings(&["rust/foo/v1"]));
}

#[test]
fn failing_patch_rolls_back() {
    let (s, a) = patch_start(1);
    assert_eq!(a, PatchAction::Apply { index: 0, verbose: false });
    let (s, a) = patch_next(1, s, PatchEvent::Failed);
    assert_eq!(a, PatchAction::Apply { index: 0, verbose: true });
    let (s, a) = patch_next(1, s, PatchEvent::Failed);
    assert_eq!(a, PatchAction::RemoveDir);
    let (s, a) = patch_next(1, s, PatchEvent::Succeeded);
    assert_eq!(a, PatchAction::Report { index: 0, rollback_failed: false });
    assert_eq!(s, PatchState::Failed { index: 0, rollback_failed: false });
}

#[test]
fn patches_apply_in_turn() {
    assert_eq!(patch_start(0), (PatchState::Done, PatchAction::Finish));
    let (s, _) = patch_start(2);
    let (s, a) = patch_next(2, s, PatchEvent::Succeeded);
    assert_eq!(a, PatchAction::Apply { index: 1, verbose: false });
    let (s, a) = patch_next(2, s, PatchEvent::Succeeded);
    assert_eq!((s, a), (PatchState::Done, PatchAction::Finish));
    assert_eq!(
        patch_order(&strings(&["0002-b.patch", "0010-c.patch", "0001-a.patch"])),
        strings(&["0001-a.patch", "0002-b.patch", "0010-c.patch"])
    );
    assert_eq!(
        patch_command_args("/v/foo-1.0.0", 4, true),
        strings(&["apply", "-p4", "--directory=/v/foo-1.0.0", "-v"])
    );
    assert_eq!(patch_command_args("d", 12, false).len(), 3);
}

#[test]
fn fetch_steps() {
    let (s, a) = fetch_start();
    assert_eq!(a, FetchAction::Download);
    assert_eq!(
        fetch_next(s, FetchEvent::Status(404)).1,
        FetchAction::Fail(FetchError::Status(404))
    );
    let (s, a) = fetch_next(s, FetchEvent::Status(200));
    assert_eq!(a, FetchAction::Unpack);
    let (s, a) = fetch_next(s, FetchEvent::Succeeded);
    assert_eq!(a, FetchAction::RemoveDest);
    let (s, a) = fetch_next(s, FetchEvent::NotFound);
    assert_eq!(a, FetchAction::MoveIntoDest);
    let (s, a) = fetch_next(s, FetchEvent::Succeeded);
    assert_eq!(a, FetchAction::WriteChecksum);
    let (s, a) = fetch_next(s, FetchEvent::Succeeded);
    assert_eq!((s, a), (FetchState::Done, FetchAction::Finish));
    assert_eq!(
        fetch_next(FetchState::Clearing, FetchEvent::Failed).1,
        FetchAction::Fail(FetchError::Filesystem)
    );
    assert_eq!(
        download_url(&id("serde", 1, 0, 0)),
        "https://crates.io/api/v1/crates/serde/1.0.0/download"
    );
    assert_eq!(checksum_stub(), "{\"files\":{}}\n");
}
