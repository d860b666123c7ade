use waywallen::map::TextMap;
use waywallen::plugin::renderer_registry::PluginPackageMeta;
use waywallen::plugin::source::entry::{ENTRY_VERSION, ENTRY_VERSION_V3, ENTRY_VERSION_V4};
use waywallen::plugin::update::{
    became_available, finish_check, info_from_manifest, normalize_update_manifest_url,
    snapshot_for_package, start_checks, PluginUpdateInfo, PluginUpdateManifest,
    PluginUpdatePackage, PluginUpdateState,
};
use waywallen::plugin::version::version_cmp;
use waywallen::probe_task::is_probable;
use waywallen::renderer_manager::SPAWN_VERSION;

#[test]
fn compares_semver_with_v_prefix() {
    assert!(version_cmp("v1.2.0", "1.1.9").is_gt());
    assert!(version_cmp("1.0.0", "1.0.0").is_eq());
}

#[test]
fn releases_compare_by_their_numbers() {
    assert!(version_cmp("1.9.0", "1.10.0").is_lt());
    assert!(version_cmp("V2.0.0", " 2.0.0 ").is_eq());
}

#[test]
fn became_available_only_for_new_available_state() {
    let current = PluginUpdateInfo {
        plugin_id: "org.test".into(),
        state: PluginUpdateState::Available,
        latest_version: "2.0.0".into(),
        zip_url: "https://example.invalid/plugin.zip".into(),
        sha256: "abc".into(),
        error: String::new(),
        checked_at_ms: 1,
    };
    assert!(became_available(None, &current));

    let mut previous = current.clone();
    previous.checked_at_ms = 0;
    assert!(!became_available(Some(&previous), &current));

    previous.latest_version = "1.9.0".into();
    assert!(became_available(Some(&previous), &current));

    let mut failed = current.clone();
    failed.state = PluginUpdateState::Failed;
    assert!(!became_available(None, &failed));
}

#[test]
fn extension_filter_accepts_video_and_image() {
    assert!(is_probable("foo.MP4"));
    assert!(is_probable("a/b/c.jpg"));
    assert!(is_probable("x.JPEG"));
    assert!(!is_probable("12345/scene.pkg"));
    assert!(!is_probable("noext"));
    assert!(!is_probable("init.lua"));
}

fn package() -> PluginUpdatePackage {
    PluginUpdatePackage {
        zip_url: "https://example.invalid/plugin.zip".into(),
        sha256: "00".repeat(32),
    }
}

fn test_package(version: &str, has_entry: bool) -> PluginPackageMeta {
    PluginPackageMeta {
        id: "org.test".into(),
        name: "Test".into(),
        version: version.into(),
        update: Some("https://example.invalid/update.json".into()),
        has_entry,
        system: true,
        incompat: None,
    }
}

/// An announcement as the daemon reads it.
fn manifest(src: &str) -> Option<PluginUpdateManifest> {
    let root: serde_json::Value = serde_json::from_str(src).ok()?;
    let number = |key: &str| root[key].as_u64().map(|n| n as u32);
    let package = |key: &str| {
        let found = root.get(key)?;
        Some(PluginUpdatePackage {
            zip_url: found["zip_url"].as_str()?.into(),
            sha256: found["sha256"].as_str()?.into(),
        })
    };
    Some(PluginUpdateManifest {
        version: root["version"].as_str()?.into(),
        entry_version: number("entry_version")?,
        spawn_version: number("spawn_version")?,
        x86_64: package("x86_64"),
        aarch64: package("aarch64"),
    })
}

#[test]
fn parses_arch_packages_and_versions() {
    let src = r#"
        {
            "version": "0.2.0",
            "entry_version": 4,
            "spawn_version": 6,
            "x86_64": {
                "zip_url": "https://example.org/owe/x86_64.zip",
                "sha256": "x86_64-sha256"
            },
            "aarch64": {
                "zip_url": "https://example.org/owe/aarch64.zip",
                "sha256": "aarch64-sha256"
            }
        }
    "#;
    let m = manifest(src).expect("parses");
    assert_eq!(m.entry_version, 4);
    assert_eq!(m.spawn_version, 6);
    let x86_64 = m.package_for_arch("x86_64").expect("x86_64 package");
    assert_eq!(x86_64.zip_url, "https://example.org/owe/x86_64.zip");
    assert_eq!(x86_64.sha256, "x86_64-sha256");
    let aarch64 = m.package_for_arch("aarch64").expect("aarch64 package");
    assert_eq!(aarch64.zip_url, "https://example.org/owe/aarch64.zip");
    assert_eq!(aarch64.sha256, "aarch64-sha256");
    assert!(m.package_for_arch("riscv64").is_none());
}

#[test]
fn normalizes_github_blob_update_urls() {
    assert_eq!(
        normalize_update_manifest_url("https://github.com/example/plugin/blob/main/update.json"),
        "https://github.com/example/plugin/raw/refs/heads/main/update.json"
    );
    assert_eq!(
        normalize_update_manifest_url(
            "https://github.com/example/plugin/blob/release/meta/update.json"
        ),
        "https://github.com/example/plugin/raw/refs/heads/release/meta/update.json"
    );
}

#[test]
fn leaves_non_github_blob_update_urls_unchanged() {
    let url = "https://example.invalid/plugin/blob/main/update.json";
    assert_eq!(normalize_update_manifest_url(url), url);
    let url = "https://github.com/example/plugin/raw/refs/heads/main/update.json";
    assert_eq!(normalize_update_manifest_url(url), url);
}

#[test]
fn leaves_texts_that_are_no_url_unchanged() {
    assert_eq!(normalize_update_manifest_url("no url at all"), "no url at all");
    assert_eq!(normalize_update_manifest_url(""), "");
}

#[test]
fn marks_missing_arch_package_unsupported() {
    let manifest = PluginUpdateManifest {
        version: "2.0.0".into(),
        entry_version: ENTRY_VERSION,
        spawn_version: SPAWN_VERSION,
        x86_64: None,
        aarch64: None,
    };
    let info = info_from_manifest(&test_package("1.0.0", false), manifest, "x86_64", 7);
    assert_eq!(info.state, PluginUpdateState::Unsupported);
    assert_eq!(info.checked_at_ms, 7);
    assert_eq!(info.error, "no package for x86_64");
}

#[test]
fn accepts_update_manifests_for_entry_v3_and_v4() {
    let pkg = test_package("1.0.0", true);
    for entry_version in [ENTRY_VERSION_V3, ENTRY_VERSION_V4] {
        let manifest = PluginUpdateManifest {
            version: "2.0.0".into(),
            entry_version,
            spawn_version: SPAWN_VERSION,
            x86_64: Some(package()),
            aarch64: Some(package()),
        };
        assert_eq!(
            info_from_manifest(&pkg, manifest, "aarch64", 7).state,
            PluginUpdateState::Available
        );
    }

    let manifest = PluginUpdateManifest {
        version: "2.0.0".into(),
        entry_version: ENTRY_VERSION_V3 - 1,
        spawn_version: SPAWN_VERSION,
        x86_64: Some(package()),
        aarch64: Some(package()),
    };
    assert_eq!(
        info_from_manifest(&pkg, manifest, "x86_64", 7).state,
        PluginUpdateState::Unsupported
    );
}

#[test]
fn treats_old_manifest_without_arch_package_as_up_to_date() {
    let manifest = PluginUpdateManifest {
        version: "1.0.0".into(),
        entry_version: ENTRY_VERSION,
        spawn_version: SPAWN_VERSION,
        x86_64: None,
        aarch64: None,
    };
    let info = info_from_manifest(&test_package("2.0.0", false), manifest, "x86_64", 7);
    assert_eq!(info.state, PluginUpdateState::UpToDate);
    assert_eq!(info.latest_version, "1.0.0");
}

#[test]
fn refuses_another_release_of_the_spawn_contract() {
    let manifest = PluginUpdateManifest {
        version: "2.0.0".into(),
        entry_version: ENTRY_VERSION,
        spawn_version: SPAWN_VERSION + 1,
        x86_64: Some(package()),
        aarch64: None,
    };
    let info = info_from_manifest(&test_package("1.0.0", false), manifest, "x86_64", 7);
    assert_eq!(info.state, PluginUpdateState::Unsupported);
    assert_eq!(
        info.error,
        format!("spawn_version {} is unsupported; expected {SPAWN_VERSION}", SPAWN_VERSION + 1)
    );
}

fn silent(id: &str) -> PluginPackageMeta {
    PluginPackageMeta {
        id: id.into(),
        name: id.into(),
        version: "1.0.0".into(),
        update: None,
        has_entry: false,
        system: true,
        incompat: None,
    }
}

/// One pass over some plugins, none of which can be reached.
fn check_packages(store: &mut TextMap<PluginUpdateInfo>, ids: &[&str], retain_missing: bool) {
    let packages: Vec<PluginPackageMeta> = ids.iter().map(|id| silent(id)).collect();
    start_checks(store, &packages, retain_missing, 1);
    for pkg in &packages {
        finish_check(store, pkg, Err("unreachable".into()), "x86_64", 2);
    }
}

#[test]
fn preserves_existing_store_entries_for_partial_checks() {
    let mut store = TextMap::new();
    check_packages(&mut store, &["org.a", "org.b"], true);
    check_packages(&mut store, &["org.a"], false);
    assert!(store.get("org.b").is_some());

    check_packages(&mut store, &["org.a"], true);
    assert!(store.get("org.b").is_none());
}

#[test]
fn a_failed_check_says_why_and_a_running_one_is_marked() {
    let mut store = TextMap::new();
    let pkg = test_package("1.0.0", false);
    assert_eq!(snapshot_for_package(&store, &pkg).state, PluginUpdateState::Unknown);
    assert_eq!(snapshot_for_package(&store, &silent("org.a")).state, PluginUpdateState::NoUrl);
    start_checks(&mut store, &vec![test_package("1.0.0", false)], true, 5);
    assert_eq!(snapshot_for_package(&store, &pkg).state, PluginUpdateState::Checking);
    let info = finish_check(&mut store, &pkg, Err("timed out".into()), "x86_64", 9);
    assert_eq!(info.state, PluginUpdateState::Failed);
    assert_eq!(info.error, "timed out");
    assert_eq!(snapshot_for_package(&store, &pkg), info);
    let silent = finish_check(&mut store, &silent("org.a"), Err("unused".into()), "x86_64", 9);
    assert_eq!(silent.state, PluginUpdateState::NoUrl);
    assert_eq!(silent.error, "");
}
