use toml::{Table, Value};
use waywallen::plugin::renderer_registry::{
    default_priority, default_version, scan_plugin, scan_plugin_roots, select_active_plugins,
    standard_plugin_dirs, PluginDirectory, PluginManifest, PluginMeta, PluginRoot, PluginScan,
    PluginTranslationDocument, PluginTranslationMeta, RendererActivityMode, RendererDef,
    RendererRegistry, RendererSetting,
};
use waywallen::plugin::settings::{
    LocalizedTextDef, SettingDef, SettingType, TomlKind, TomlValue,
};
use waywallen::plugin::source::entry::{ENTRY_VERSION, SUPPORTED_ENTRY_VERSIONS};

fn plugin_meta(id: &str, version: &str, system: bool) -> PluginMeta {
    PluginMeta {
        id: id.to_string(),
        name: id.to_string(),
        version: version.to_string(),
        update: None,
        entry: None,
        entry_version: None,
        i18n: None,
        files: Vec::new(),
        system,
        translations: Vec::new(),
    }
}

fn renderer(id: &str, version: &str, system: bool, name: &str) -> RendererDef {
    RendererDef {
        name: name.to_string(),
        plugin_id: id.to_string(),
        plugin_version: version.to_string(),
        plugin_system: system,
        bin: "/dev/null".to_string(),
        types: vec!["image".to_string()],
        priority: 100,
        activity: RendererActivityMode::OnDemand,
        spawn_version: None,
        extras: Vec::new(),
        settings: Vec::new(),
        legacy_events: None,
    }
}

fn text(table: &Table, key: &str) -> Option<String> {
    table.get(key).and_then(Value::as_str).map(str::to_owned)
}

fn texts(table: &Table, key: &str) -> Option<Vec<String>> {
    let list = table.get(key)?.as_array()?;
    Some(list.iter().map(|v| v.as_str().unwrap().to_owned()).collect())
}

fn number(table: &Table, key: &str) -> Option<u32> {
    table.get(key).and_then(Value::as_integer).map(|n| n as u32)
}

fn setting(table: &Table) -> SettingDef {
    let ty = match table["type"].as_str().unwrap() {
        "u32" => SettingType::U32,
        "i32" => SettingType::I32,
        "f32" => SettingType::F32,
        "bool" => SettingType::Bool,
        _ => SettingType::String,
    };
    let shown = &table["default"];
    let kind = match shown {
        Value::Integer(i) => TomlKind::Integer(*i),
        Value::Float(f) => TomlKind::Float(f.to_string()),
        Value::String(s) => TomlKind::String(s.clone()),
        Value::Boolean(b) => TomlKind::Boolean(*b),
        _ => TomlKind::Other,
    };
    let default = TomlValue { kind, shown: shown.to_string(), single: None };
    SettingDef::new(ty, default, table["identity"].as_bool().unwrap())
}

/// A manifest as the daemon reads it.
fn manifest(src: &str) -> PluginManifest {
    let root: Table = src.parse().expect("parses");
    let plugin = root["plugin"].as_table().unwrap();
    let mut renderers = Vec::new();
    if let Some(all) = root.get("renderers").and_then(Value::as_table) {
        for (name, def) in all {
            let def = def.as_table().unwrap();
            let mut settings = Vec::new();
            if let Some(all) = def.get("settings").and_then(Value::as_table) {
                for (key, value) in all {
                    settings.push(RendererSetting {
                        key: key.clone(),
                        setting: setting(value.as_table().unwrap()),
                    });
                }
            }
            renderers.push(RendererDef {
                name: name.clone(),
                plugin_id: String::new(),
                plugin_version: String::new(),
                plugin_system: false,
                bin: text(def, "bin").unwrap(),
                types: texts(def, "types").unwrap(),
                priority: number(def, "priority").unwrap_or_else(default_priority),
                activity: RendererActivityMode::default(),
                spawn_version: number(def, "spawn_version"),
                extras: texts(def, "extras").unwrap_or_default(),
                settings,
                legacy_events: texts(def, "events"),
            });
        }
    }
    let i18n = plugin.get("i18n").and_then(Value::as_table).map(|t| PluginTranslationMeta {
        directory: text(t, "directory").unwrap(),
    });
    PluginManifest {
        plugin: PluginMeta {
            id: text(plugin, "id").unwrap(),
            name: text(plugin, "name").unwrap(),
            version: text(plugin, "version").unwrap_or_else(default_version),
            update: text(plugin, "update"),
            entry: text(plugin, "entry"),
            entry_version: number(plugin, "entry_version"),
            i18n,
            files: Vec::new(),
            system: false,
            translations: Vec::new(),
        },
        renderers,
    }
}

fn found(dir: &str, system: bool, src: &str) -> PluginDirectory {
    PluginDirectory {
        dir: dir.to_string(),
        system,
        manifest: manifest(src),
        files: Some("plugin.toml\nfiles.txt\n\n  bin/renderer  \n".to_string()),
        translations: Ok(Vec::new()),
    }
}

/// A scan of one root that holds one plugin.
fn scan_one(root: PluginRoot, src: &str) -> PluginScan {
    let mut scan = PluginScan::default();
    let id = manifest(src).plugin.id;
    let dir = format!("{}/{id}", root.dir);
    scan_plugin(&mut scan, found(&dir, root.system, src));
    scan_plugin_roots(&vec![root], vec![Some(scan)])
}

fn entry_plugin(id: &str, entry_version: Option<u32>) -> String {
    let declared = match entry_version {
        Some(v) => format!("entry_version = {v}\n"),
        None => String::new(),
    };
    format!(
        r#"[plugin]
id = "{id}"
name = "{id}"
version = "1.0.0"
entry = "main.lua"
{declared}"#
    )
}

fn test_plugin(id: &str, bin: &str) -> String {
    format!(
        r#"[plugin]
id = "{id}"
name = "{id}"
version = "1.0.0"

[renderers.test]
bin = "{bin}"
types = ["image"]
"#
    )
}

#[test]
fn manifest_preserves_legacy_events_for_rejection() {
    let src = r#"
        [plugin]
        id = "org.waywallen.wallpaper-engine"
        name = "Wallpaper Engine"
        update = "https://example.org/owe/update.json"

        [renderers.wescene-renderer]
        bin = "bin/waywallen-wescene-renderer"
        types = ["scene"]
        events = ["pointer", "mpris"]
    "#;
    let m = manifest(src);
    assert_eq!(m.plugin.update.as_deref(), Some("https://example.org/owe/update.json"));
    let r = &m.renderers[0];
    assert_eq!(r.name, "wescene-renderer");
    assert_eq!(r.legacy_events, Some(vec!["pointer".to_string(), "mpris".to_string()]));
}

#[test]
fn scan_rejects_renderer_with_legacy_events() {
    let scan = scan_one(
        PluginRoot::system("/tmp/plugins"),
        r#"[plugin]
id = "org.test.legacy"
name = "Legacy"

[renderers.test]
bin = "bin/renderer"
types = ["image"]
events = ["pointer"]
"#,
    );
    assert_eq!(scan.plugins.len(), 1);
    assert!(scan.renderers.is_empty());
}

#[test]
fn scan_reports_unsupported_entry_version_instead_of_queueing_it() {
    let scan =
        scan_one(PluginRoot::system("/tmp/plugins"), &entry_plugin("org.test.oldabi", Some(2)));

    assert_eq!(scan.plugins.len(), 1);
    assert!(scan.entries.is_empty());
    assert_eq!(scan.incompatible.len(), 1);
    let reason = &scan.incompatible[0].reason;
    assert!(reason.contains('2'));
    assert!(reason.contains(&format!("{:?}", SUPPORTED_ENTRY_VERSIONS)));

    let pkg = &scan.packages()[0];
    assert!(!pkg.has_entry);
    assert_eq!(pkg.incompat.as_deref(), Some(reason.as_str()));
}

#[test]
fn scan_reports_entry_declared_without_a_version() {
    let scan = scan_one(PluginRoot::system("/tmp/plugins"), &entry_plugin("org.test.noabi", None));

    assert!(scan.entries.is_empty());
    assert_eq!(scan.incompatible.len(), 1);
    assert_eq!(
        scan.packages()[0].incompat.as_deref(),
        Some("plugin.entry requires plugin.entry_version")
    );
}

#[test]
fn scan_keeps_a_supported_entry_version_compatible() {
    let scan = scan_one(
        PluginRoot::system("/tmp/plugins"),
        &entry_plugin("org.test.currentabi", Some(ENTRY_VERSION)),
    );

    assert_eq!(scan.entries.len(), 1);
    assert_eq!(scan.entries[0].entry, "/tmp/plugins/org.test.currentabi/main.lua");
    assert!(scan.incompatible.is_empty());
    let pkg = &scan.packages()[0];
    assert!(pkg.has_entry);
    assert!(pkg.incompat.is_none());
}

#[test]
fn scan_plugin_roots_scans_system_before_user() {
    let mut system = PluginScan::default();
    scan_plugin(
        &mut system,
        found("/sys/org.test.system", true, &test_plugin("org.test.system", "bin/renderer")),
    );
    let mut user = PluginScan::default();
    scan_plugin(
        &mut user,
        found("/usr/org.test.user", false, &test_plugin("org.test.user", "bin/renderer")),
    );

    let scan = scan_plugin_roots(
        &vec![PluginRoot::user("/usr"), PluginRoot::system("/sys")],
        vec![Some(user), Some(system)],
    );

    let ids: Vec<_> = scan.plugins.iter().map(|p| p.id.as_str()).collect();
    assert_eq!(ids, vec!["org.test.system", "org.test.user"]);
}

#[test]
fn plugin_root_owner_and_paths_are_lexical() {
    let root = PluginRoot::user("/data/external/../external/plugins");
    assert_eq!(root.dir, "/data/external/plugins");

    let scan = scan_one(root, &test_plugin("org.test.plugin", "../bin/renderer"));
    assert_eq!(scan.plugins.len(), 1);
    assert!(!scan.plugins[0].system);
    assert_eq!(scan.renderers.len(), 1);
    assert!(!scan.renderers[0].plugin_system);
    assert_eq!(scan.renderers[0].bin, "/data/external/plugins/bin/renderer");
}

#[test]
fn user_plugin_wins_equal_version() {
    let scan = select_active_plugins(PluginScan {
        plugins: vec![
            plugin_meta("org.test.plugin", "1.0.0", true),
            plugin_meta("org.test.plugin", "1.0.0", false),
        ],
        renderers: vec![
            renderer("org.test.plugin", "1.0.0", true, "system-renderer"),
            renderer("org.test.plugin", "1.0.0", false, "user-renderer"),
        ],
        ..Default::default()
    });

    assert_eq!(scan.plugins.len(), 1);
    assert!(!scan.plugins[0].system);
    assert_eq!(scan.renderers.len(), 1);
    assert_eq!(scan.renderers[0].name, "user-renderer");
    assert_eq!(scan.inactive_system, vec!["org.test.plugin".to_string()]);
    assert!(scan.inactive_user.is_empty());
}

#[test]
fn higher_system_version_wins_over_user() {
    let scan = select_active_plugins(PluginScan {
        plugins: vec![
            plugin_meta("org.test.plugin", "2.0.0", true),
            plugin_meta("org.test.plugin", "1.0.0", false),
        ],
        renderers: vec![
            renderer("org.test.plugin", "2.0.0", true, "system-renderer"),
            renderer("org.test.plugin", "1.0.0", false, "user-renderer"),
        ],
        ..Default::default()
    });

    assert_eq!(scan.plugins.len(), 1);
    assert!(scan.plugins[0].system);
    assert_eq!(scan.renderers.len(), 1);
    assert_eq!(scan.renderers[0].name, "system-renderer");
    assert_eq!(scan.inactive_user, vec!["org.test.plugin".to_string()]);
    assert!(scan.inactive_system.is_empty());
}

#[test]
fn manifest_legacy_events_default_none() {
    let src = r#"
        [plugin]
        id = "org.waywallen.image"
        name = "Image"

        [renderers.waywallen-image]
        bin = "bin/waywallen-image-renderer"
        types = ["image"]
    "#;
    let m = manifest(src);
    assert_eq!(m.renderers[0].name, "waywallen-image");
    assert!(m.renderers[0].legacy_events.is_none());
}

#[test]
fn manifest_parses_entry_extras_and_settings() {
    let src = r#"
        [plugin]
        id = "org.waywallen.mpv"
        name = "mpv"
        entry = "mpv.lua"
        entry_version = 4

        [renderers.waywallen-mpv]
        bin = "bin/waywallen-mpv-renderer"
        types = ["video"]
        priority = 100
        spawn_version = 1
        extras = ["subtitle"]

        [renderers.waywallen-mpv.settings]
        loop_file = { type = "string", default = "inf",  identity = false }
        hwdec     = { type = "string", default = "auto", identity = false }
    "#;
    let m = manifest(src);
    assert_eq!(m.plugin.entry.as_ref().unwrap(), "mpv.lua");
    assert_eq!(m.plugin.entry_version, Some(4));
    let r = &m.renderers[0];
    assert_eq!(r.name, "waywallen-mpv");
    assert_eq!(r.spawn_version, Some(1));
    assert_eq!(r.extras, vec!["subtitle".to_string()]);
    assert_eq!(r.settings.len(), 2);
}

#[test]
fn scan_lists_the_files_of_a_plugin() {
    let scan =
        scan_one(PluginRoot::user("/data/plugins"), &test_plugin("org.test.plugin", "bin/renderer"));
    assert_eq!(scan.plugins[0].files, vec!["plugin.toml", "files.txt", "bin/renderer"]);
    assert_eq!(scan.renderers[0].plugin_id, "org.test.plugin");
    assert_eq!(scan.renderers[0].plugin_version, "1.0.0");
}

#[test]
fn scan_skips_a_plugin_whose_translations_cannot_be_read() {
    let src = r#"[plugin]
id = "org.test.localized"
name = "Localized"

[plugin.i18n]
directory = "../i18n"
"#;
    let mut scan = PluginScan::default();
    let mut directory = found("/plugins/org.test.localized", true, src);
    directory.translations = Err("translation directory leaves the plugin".to_string());
    scan_plugin(&mut scan, directory);
    assert!(scan.plugins.is_empty());

    let mut directory = found("/plugins/org.test.plain", true, &test_plugin("org.test.plain", "r"));
    directory.translations = Err("never asked for".to_string());
    scan_plugin(&mut scan, directory);
    assert_eq!(scan.plugins.len(), 1);
}

#[test]
fn scan_refuses_a_setting_without_a_message() {
    let mut directory = found("/p/org.test", true, &test_plugin("org.test", "r"));
    let default = TomlValue {
        kind: TomlKind::Boolean(true),
        shown: "true".to_string(),
        single: None,
    };
    let mut setting = SettingDef::new(SettingType::Bool, default, false);
    setting.label = Some(LocalizedTextDef { msgid: String::new() });
    directory.manifest.renderers[0].settings.push(RendererSetting {
        key: "quiet".to_string(),
        setting,
    });
    let mut scan = PluginScan::default();
    scan_plugin(&mut scan, directory);
    assert_eq!(scan.plugins.len(), 1);
    assert!(scan.renderers.is_empty());
}

#[test]
fn versions_order_as_numbers_and_other_texts_as_text() {
    let pick = |left: &str, right: &str| {
        let scan = select_active_plugins(PluginScan {
            plugins: vec![plugin_meta("p", left, false), plugin_meta("p", right, false)],
            ..Default::default()
        });
        scan.plugins[0].version.clone()
    };
    assert_eq!(pick("1.10.0", "1.9.0"), "1.10.0");
    assert_eq!(pick("1.9.0", "v1.10.0"), "v1.10.0");
    assert_eq!(pick("1.0.0-beta", "1.0.0"), "1.0.0");
    assert_eq!(pick("b", "a"), "b");
}

#[test]
fn registry_resolves_by_priority_and_name() {
    let mut registry = RendererRegistry::new();
    let mut low = renderer("p", "1.0.0", true, "low");
    low.priority = 10;
    let mut high = renderer("p", "1.0.0", true, "high");
    high.priority = 200;
    high.types = vec!["image".to_string(), "video".to_string()];
    registry.register(low);
    registry.register(high);

    assert_eq!(registry.resolve("image").unwrap().name, "high");
    assert_eq!(registry.resolve("video").unwrap().name, "high");
    assert!(registry.resolve("scene").is_none());
    assert_eq!(registry.resolve_by_name("low").unwrap().priority, 10);
    assert!(registry.resolve_by_name("none").is_none());
    let mut types = registry.supported_types();
    types.sort();
    assert_eq!(types, vec!["image", "video"]);
    assert_eq!(registry.all_renderers().len(), 2);
}

#[test]
fn the_first_registered_of_the_highest_priority_is_chosen() {
    let mut registry = RendererRegistry::new();
    for (name, priority, types) in [
        ("low", 10, vec!["image"]),
        ("first", 50, vec!["image", "video", "image"]),
        ("second", 50, vec!["image", "scene"]),
        ("first", 70, vec!["scene"]),
        ("nothing", 90, vec![]),
    ] {
        let mut def = renderer("p", "1.0.0", true, name);
        def.priority = priority;
        def.types = types.into_iter().map(str::to_string).collect();
        registry.register(def);
    }
    assert_eq!(registry.resolve("image").unwrap().name, "first");
    assert_eq!(registry.resolve("image").unwrap().priority, 50);
    assert_eq!(registry.resolve("video").unwrap().name, "first");
    assert_eq!(registry.resolve("scene").unwrap().priority, 70);
    assert!(registry.resolve("web").is_none());
    let mut names: Vec<String> = Vec::new();
    for def in registry.all_renderers() {
        names.push(def.name.clone());
    }
    names.sort();
    assert_eq!(names, vec!["first", "low", "second"]);
}

#[test]
fn translations_are_gathered_plugin_by_plugin() {
    let document = |id: &str, locale: &str| PluginTranslationDocument {
        plugin_id: id.to_string(),
        locale: locale.to_string(),
        po: vec![1, 2],
    };
    let mut scan = PluginScan::default();
    assert!(scan.gathered_translations().is_empty());
    let mut a = plugin_meta("a", "1.0.0", true);
    a.translations = vec![document("a", "de"), document("a", "fr")];
    let mut c = plugin_meta("c", "1.0.0", true);
    c.translations = vec![document("c", "de")];
    scan.plugins = vec![a, plugin_meta("b", "1.0.0", true), c];
    let gathered = scan.gathered_translations();
    let found: Vec<(&str, &str)> =
        gathered.iter().map(|d| (d.plugin_id.as_str(), d.locale.as_str())).collect();
    assert_eq!(found, vec![("a", "de"), ("a", "fr"), ("c", "de")]);
    assert_eq!(gathered[2].po, vec![1, 2]);
}

#[test]
fn standard_directories_follow_the_environment() {
    assert_eq!(
        standard_plugin_dirs("plugins", Some("/usr"), Some("/data"), Some("/home/me")),
        vec!["/usr/share/waywallen/plugins", "/data/waywallen/plugins"]
    );
    assert_eq!(
        standard_plugin_dirs("plugins", None, None, Some("/home/me")),
        vec!["/home/me/.local/share/waywallen/plugins"]
    );
}

#[test]
fn a_copy_that_can_be_served_hides_the_refusal_of_another() {
    let old = entry_plugin("org.p", Some(99));
    let new = old.replace("entry_version = 99", "entry_version = 3").replace("1.0", "2.0");
    assert_ne!(old, new);
    let system = PluginRoot::system("/sys");
    let user = PluginRoot::user("/user");
    let scan = |dir: &str, system: bool, src: &str| {
        let mut scan = PluginScan::default();
        scan_plugin(&mut scan, found(dir, system, src));
        Some(scan)
    };
    let roots = vec![system, user];
    let scans = vec![scan("/sys/p", true, &old), scan("/user/p", false, &new)];
    let both = scan_plugin_roots(&roots, scans);
    assert_eq!(both.inactive_system, vec!["org.p"]);
    assert!(both.incompatible.is_empty());
    assert!(both.packages()[0].incompat.is_none());
    assert!(both.packages()[0].has_entry);

    let scans = vec![scan("/sys/p", true, &new), scan("/user/p", false, &old)];
    let both = scan_plugin_roots(&roots, scans);
    assert!(both.incompatible.is_empty());
    assert_eq!(both.inactive_user, vec!["org.p"]);
    let scans = vec![None, scan("/user/p", false, &old)];
    let alone = scan_plugin_roots(&roots, scans);
    assert_eq!(alone.incompatible.len(), 1);
    assert!(alone.packages()[0].incompat.is_some());
}
