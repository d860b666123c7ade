//! What plugins are given and how their sources are kept.
use waywallen::error::Error;
use waywallen::map::TextMap;
use waywallen::path::{
    absolute, extension, filename, join_path, normalize_path, resolve_rel, starts_with,
};
use waywallen::plugin::i18n::LocalizedText;
use waywallen::plugin::lua::{LuaField, LuaString, LuaTable, LuaValue};
use waywallen::plugin::source::catalog::{ScanOutcome, SourceCatalog};
use waywallen::plugin::source::context::{
    check_remove_dir, file_size, import_candidates, log_line, probe_table, read_whole,
    resolve_plugin_import, tr,
};
use waywallen::plugin::source::patch::validate_settings_patch;
use waywallen::plugin::source::requests::auto_detect_all;
use waywallen::plugin::source::runtime::{
    admit_callback, settle_callback, CallbackReply, GenerationState, LuaPluginRuntime, PluginRole,
};
use waywallen::plugin::source::state::settle_persist;
use waywallen::plugin::source::types::{
    DiscoverCapability, LoadedPluginInfo, PluginCapabilities, RemoteCapability, SourceCapability,
    SourceSetting, WallpaperCapability,
};
use waywallen::plugin::source_manager::{LuaPluginRegistry, PluginHandles};
use waywallen::text::{
    decimal_i64, decimal_u64, insert_sorted, join_texts, order, parse_i32, parse_u32, split_text,
    trim, Order,
};
use waywallen::wallpaper::types::WallpaperEntry;

fn lua_text(text: &str) -> LuaValue {
    LuaValue::Text(LuaString { text: Some(text.to_owned()), defect: String::new(), whole: None })
}

fn list(items: Vec<LuaValue>) -> LuaTable {
    LuaTable { fields: Vec::new(), sequence: items, others: Vec::new() }
}

// ---------------------------------------------------------------------------
// Paths and texts

#[test]
fn paths_are_normalized_once_and_for_all() {
    for (path, normal) in [
        ("/a/./b/../c", "/a/c"),
        ("/../a", "/a"),
        ("../a/..", ".."),
        ("a/..", "."),
        ("", "."),
        ("a//b/", "a/b"),
        ("../../x", "../../x"),
    ] {
        assert_eq!(normalize_path(path), normal);
        assert_eq!(normalize_path(normal), normal);
    }
}

#[test]
fn paths_are_joined_and_taken_apart() {
    assert!(absolute("/a") && !absolute("a"));
    assert_eq!(join_path("/a", "b"), "/a/b");
    assert_eq!(join_path("/a/", "b"), "/a/b");
    assert_eq!(join_path("/a", "/b"), "/b");
    assert_eq!(resolve_rel("/p/q", "../bin/x"), "/p/bin/x");
    assert_eq!(resolve_rel("/p/q", "/bin/./x"), "/bin/x");
    assert!(starts_with("/a/b/c", "/a/b"));
    assert!(starts_with("/a/b", "/a/b"));
    assert!(!starts_with("/a/bc", "/a/b"));
    assert_eq!(filename("/a/b.tar.gz").as_deref(), Some("b.tar.gz"));
    assert_eq!(filename("/a/..").as_deref(), None);
    assert_eq!(extension("/a/b.tar.gz").as_deref(), Some("gz"));
    assert_eq!(extension("/a/.hidden").as_deref(), None);
    assert_eq!(extension("/a/b").as_deref(), None);
}

#[test]
fn texts_stand_in_the_order_of_their_characters() {
    assert_eq!(order("abc", "abd"), Order::Less);
    assert_eq!(order("abd", "abc"), Order::Greater);
    assert_eq!(order("ab", "abc"), Order::Less);
    assert_eq!(order("ab", "ab"), Order::Equal);
    let mut sorted: Vec<String> = Vec::new();
    for text in ["b", "a", "c", "a"] {
        insert_sorted(&mut sorted, text);
    }
    assert_eq!(sorted, vec!["a", "b", "c"]);
}

#[test]
fn texts_are_split_joined_and_read() {
    let pieces = split_text("a,,b", ',');
    assert_eq!(pieces, vec!["a", "", "b"]);
    assert_eq!(join_texts(&pieces, ","), "a,,b");
    assert_eq!(trim(" \t a b\n"), "a b");
    assert_eq!(decimal_i64(i64::MIN), "-9223372036854775808");
    assert_eq!(parse_u32("+4294967295"), Some(u32::MAX));
    assert_eq!(parse_u32("4294967296"), None);
    assert_eq!(parse_u32("-0"), None);
    assert_eq!(parse_u32(""), None);
    assert_eq!(parse_i32("-2147483648"), Some(i32::MIN));
    assert_eq!(parse_i32("2147483648"), None);
    assert_eq!(parse_i32(" 1"), None);
    for n in [0, 7, 10, 4_294_967_295] {
        assert_eq!(parse_u32(&decimal_u64(n)), Some(n as u32));
    }
    for n in [-2_147_483_648, -1, 0, 2_147_483_647] {
        assert_eq!(parse_i32(&decimal_i64(n)), Some(n as i32));
    }
}

// ---------------------------------------------------------------------------
// What plugins are given

#[test]
fn imports_stay_below_the_plugin() {
    assert_eq!(
        import_candidates("/p", "a.b").unwrap(),
        ("/p/a/b.lua".to_owned(), "/p/a/b/init.lua".to_owned()),
    );
    assert!(import_candidates("/p", "").is_err());
    assert!(import_candidates("/p", "a..b").is_err());
    let file = Some("/p/a/b.lua".to_owned());
    let directory = Some("/p/a/b/init.lua".to_owned());
    let found = resolve_plugin_import("/p", "a.b", file, directory.clone());
    assert_eq!(found.unwrap(), "/p/a/b.lua");
    let found = resolve_plugin_import("/p", "a.b", None, directory);
    assert_eq!(found.unwrap(), "/p/a/b/init.lua");
    assert!(resolve_plugin_import("/p", "a.b", None, None).is_err());
    let outside = Some("/q/a/b.lua".to_owned());
    assert!(resolve_plugin_import("/p", "a.b", outside, None).is_err());
}

#[test]
fn messages_carry_up_to_sixteen_arguments() {
    let mut arguments = vec![lua_text("Sign in %1")];
    assert!(tr("org.p", &Vec::new()).is_err());
    for n in 1..=16 {
        arguments.push(LuaValue::Integer(n));
    }
    let text = tr("org.p", &arguments).unwrap();
    let message = text.message().unwrap();
    assert_eq!((message.plugin_id.as_str(), message.msgid.as_str()), ("org.p", "Sign in %1"));
    assert_eq!(message.arguments.len(), 16);
    assert_eq!(message.arguments[15], "16");
    arguments.push(LuaValue::Integer(17));
    assert!(tr("org.p", &arguments).is_err());
    assert!(tr("org.p", &vec![lua_text("")]).is_err());
}

#[test]
fn files_are_read_and_removed_within_bounds() {
    assert!(read_whole(1_048_576) && !read_whole(1_048_577));
    assert_eq!(file_size(7), Some(7));
    assert_eq!(file_size(u64::MAX), None);
    assert!(check_remove_dir("/remote/p", "/remote/p/item", "item").is_ok());
    assert_eq!(
        check_remove_dir("/remote/p", "/remote/pq", "../pq").unwrap_err(),
        "remove_dir refused: ../pq is outside the plugin remote directory",
    );
    assert!(probe_table(None, None, None).is_none());
    let table = probe_table(Some(9), None, Some(4)).unwrap();
    assert_eq!(table.fields.len(), 2);
    assert_eq!((table.fields[0].key.as_str(), table.fields[1].key.as_str()), ("size", "height"));
}

#[test]
fn the_log_shows_no_secret() {
    let line = log_line(&Some("p".to_owned()), "got access_token=secret&x=1");
    assert_eq!(line, "[lua:p] got access_token=[REDACTED]&x=1");
    assert_eq!(log_line(&None, "plain"), "[lua] plain");
}

// ---------------------------------------------------------------------------
// Callbacks

#[test]
fn a_plugin_that_leaves_is_not_asked() {
    assert!(admit_callback(GenerationState::Active).is_ok());
    assert!(admit_callback(GenerationState::Inactive).is_err());
}

#[test]
fn a_lost_session_fails_what_succeeded() {
    let reply = settle_callback(CallbackReply::Returned(LuaValue::Nil), None);
    assert!(matches!(reply, CallbackReply::Returned(LuaValue::Nil)));
    let lost = Some("disk full".to_owned());
    match settle_callback(CallbackReply::Returned(LuaValue::Nil), lost.clone()) {
        CallbackReply::Failed(text) => assert!(text.contains("disk full")),
        _ => panic!("the failure must show"),
    }
    match settle_callback(CallbackReply::Failed("first".to_owned()), lost) {
        CallbackReply::Failed(text) => assert!(text.contains("first")),
        _ => panic!("the failure must stay"),
    }
    let internal = |text: &str| Err(Error::Internal(text.to_owned()));
    assert!(settle_persist(Ok(()), Ok(())).is_ok());
    assert_eq!(settle_persist(internal("a"), Ok(())).unwrap_err().message(), "a");
    assert_eq!(settle_persist(Ok(()), internal("b")).unwrap_err().message(), "b");
}

#[test]
fn libraries_are_detected_one_plugin_after_the_other() {
    let mut found = TextMap::new();
    let paths = list(vec![lua_text("/a"), lua_text("/b")]);
    auto_detect_all(&mut found, "one", &CallbackReply::Returned(LuaValue::Table(paths)));
    auto_detect_all(&mut found, "two", &CallbackReply::Failed("no".to_owned()));
    auto_detect_all(&mut found, "three", &CallbackReply::Returned(LuaValue::Table(list(vec![]))));
    assert_eq!(found.get("one").unwrap(), &vec!["/a".to_owned(), "/b".to_owned()]);
    assert!(found.get("two").is_none());
    assert!(found.get("three").is_none());
}

// ---------------------------------------------------------------------------
// Entries

fn entry(id: i64, name: &str, wp_type: &str) -> WallpaperEntry {
    WallpaperEntry {
        item_id: id,
        name: name.to_owned(),
        wp_type: wp_type.to_owned(),
        resource: format!("/w/{name}"),
        preview: None,
        plugin_name: "p".to_owned(),
        library_root: "/w".to_owned(),
        description: None,
        tags: Vec::new(),
        external_id: None,
        web_url: None,
        size: None,
        width: None,
        height: None,
        content_rating: None,
        modified_at: None,
        create_at: 0,
    }
}

fn entry_names(entries: &[WallpaperEntry]) -> Vec<&str> {
    entries.iter().map(|entry| entry.name.as_str()).collect()
}

#[test]
fn a_catalog_of_several_scans_is_sorted() {
    let mut catalog = SourceCatalog::default();
    let outcomes = vec![
        ScanOutcome::Found(vec![entry(0, "c", "image"), entry(0, "a", "video")]),
        ScanOutcome::Failed("p: broken".to_owned()),
        ScanOutcome::Found(vec![entry(0, "b", "image")]),
    ];
    let error = catalog.scan_all(&outcomes).unwrap_err();
    assert!(error.message().contains("p: broken"));
    assert_eq!(entry_names(&catalog.list()), vec!["a", "b", "c"]);
    assert_eq!(entry_names(&catalog.list_by_type("image")), vec!["b", "c"]);
    catalog.replace(vec![entry(7, "z", "image")]);
    assert_eq!(catalog.get("7").unwrap().name, "z");
    assert!(catalog.get("8").is_none());
    catalog.clear();
    assert!(catalog.list().is_empty());
}

// ---------------------------------------------------------------------------
// Settings

fn setting(key: &str, ty: &str, choices: &[&str]) -> SourceSetting {
    SourceSetting {
        key: key.to_owned(),
        ty: ty.to_owned(),
        default: String::new(),
        label: LocalizedText::raw(key),
        description: LocalizedText::default(),
        group: String::new(),
        group_label: LocalizedText::default(),
        order: 0,
        choices: choices.iter().map(|choice| choice.to_string()).collect(),
    }
}

fn plugin(name: &str, plugin_id: &str) -> LoadedPluginInfo {
    LoadedPluginInfo {
        name: name.to_owned(),
        display_name: LocalizedText::raw(name),
        plugin_id: plugin_id.to_owned(),
        version: "1.0".to_owned(),
        capabilities: PluginCapabilities {
            source: Some(SourceCapability {
                types: vec!["image".to_owned()],
                library_label: LocalizedText::default(),
                library_hint: LocalizedText::default(),
                auto_detect: false,
            }),
            source_item_remove: true,
            discover: Some(DiscoverCapability {
                supports_search: true,
                supports_details: false,
                supports_download: false,
                supports_resolve: false,
                remote: Some(RemoteCapability::Subscription),
                remote_hint: LocalizedText::default(),
                sorts: Vec::new(),
                filters: Vec::new(),
                dynamic_tags: false,
            }),
            wallpaper: WallpaperCapability { apply: false, properties: false },
            lifecycle: false,
        },
        settings: vec![
            setting("count", "u32", &[]),
            setting("shift", "i32", &[]),
            setting("scale", "f32", &[]),
            setting("on", "bool", &[]),
            setting("mode", "string", &["one", "two"]),
        ],
        actions: Vec::new(),
        status: Vec::new(),
        state_migrations: Vec::new(),
    }
}

fn map(pairs: &[(&str, &str)]) -> TextMap<String> {
    let mut map = TextMap::new();
    for (key, value) in pairs {
        map.insert(key.to_string(), value.to_string());
    }
    map
}

#[test]
fn a_patch_takes_declared_settings_in_their_form() {
    let info = plugin("p", "org.p");
    let singles = map(&[("scale", "1.5")]);
    let none = TextMap::new();
    let patch = |pairs: &[(&str, &str)]| validate_settings_patch("p", &info, &map(pairs), &singles);
    let taken = patch(&[("count", "007"), ("shift", "+5"), ("scale", "1.50"), ("mode", "two")]);
    let taken = taken.unwrap();
    assert_eq!(taken.len(), 4);
    assert_eq!(taken.get("count").unwrap(), "7");
    assert_eq!(taken.get("shift").unwrap(), "5");
    assert_eq!(taken.get("scale").unwrap(), "1.5");
    assert_eq!(taken.get("mode").unwrap(), "two");
    let again = validate_settings_patch("p", &info, &taken, &singles).unwrap();
    for key in ["count", "shift", "scale", "mode"] {
        assert_eq!(again.get(key), taken.get(key));
    }
    for refused in [("count", "-1"), ("shift", "x"), ("scale", "big"), ("on", "yes"), ("mode", "three")] {
        let refused = validate_settings_patch("p", &info, &map(&[refused]), &none);
        assert!(matches!(refused, Err(Error::SettingsValidationFailed(_))));
    }
    let unknown = patch(&[("extra", "1")]).unwrap_err();
    assert!(unknown.message().contains("extra"));
}

// ---------------------------------------------------------------------------
// The registry

#[test]
fn suspended_plugins_go_on_where_they_were() {
    let mut handles = PluginHandles::new();
    let mut registry = LuaPluginRegistry::new();
    registry.load_plugin(plugin("a", "org.a"), &mut handles).unwrap();
    let id = registry.handle("a", &handles).unwrap();
    assert_eq!(handles.state(id), GenerationState::Active);
    registry.suspend_plugins(&mut handles);
    assert_ne!(handles.state(id), GenerationState::Active);
    registry.resume_plugins(&mut handles);
    assert_eq!(handles.state(id), GenerationState::Active);
    assert!(registry.handle("none", &handles).is_err());
    registry.clear_plugins(&mut handles);
    assert_eq!(handles.state(id), GenerationState::Inactive);
    assert!(registry.handle("a", &handles).is_err());
}

#[test]
fn a_replacement_takes_over_what_it_retains() {
    let mut handles = PluginHandles::new();
    let mut current = LuaPluginRegistry::new();
    current.load_plugin(plugin("a", "org.a"), &mut handles).unwrap();
    current.load_plugin(plugin("b", "org.b"), &mut handles).unwrap();
    let a = current.handle("a", &handles).unwrap();
    let b = current.handle("b", &handles).unwrap();
    let mut next = LuaPluginRegistry::new();
    next.load_plugin(plugin("c", "org.c"), &mut handles).unwrap();
    next.retain_plugins_from(&current, &vec!["org.a".to_owned()], &handles).unwrap();
    current.replace_plugins(next, &mut handles);
    assert_eq!(current.handle("a", &handles).unwrap(), a);
    assert_eq!(handles.state(a), GenerationState::Active);
    assert_eq!(handles.state(b), GenerationState::Inactive);
    assert!(current.handle("b", &handles).is_err());
    let mut names = current.names_with(PluginRole::Source, &handles);
    names.sort();
    assert_eq!(names, vec!["a", "c"]);
    assert_eq!(current.plugin_version("c", &handles).as_deref(), Some("1.0"));
    assert!(current.supports_item_remove("c", &handles));
    assert!(!current.supports_item_remove("b", &handles));
}

#[test]
fn subscribed_items_are_unsubscribed_by_their_id() {
    let mut handles = PluginHandles::new();
    let mut registry = LuaPluginRegistry::new();
    registry.load_plugin(plugin("p", "org.p"), &mut handles).unwrap();
    let mut item = entry(1, "a", "image");
    assert!(!registry.supports_item_unsubscribe(&item, &handles));
    item.external_id = Some("x".to_owned());
    assert!(registry.supports_item_unsubscribe(&item, &handles));
    item.plugin_name = "other".to_owned();
    assert!(!registry.supports_item_unsubscribe(&item, &handles));
}

#[test]
fn a_runtime_without_plugins_answers_nothing() {
    let runtime = LuaPluginRuntime::new();
    assert!(runtime.plugins().is_empty());
    assert!(runtime.discover_sources().is_empty());
    assert!(matches!(runtime.plugin("p"), Err(Error::SourcePluginNotFound(_))));
    assert!(runtime.prepare_scan("p").is_err());
    assert!(runtime.loaded_plugin_info("p").is_none());
    let field = LuaField { key: "k".to_owned(), value: LuaValue::Integer(1) };
    let table = LuaTable { fields: vec![field], sequence: Vec::new(), others: Vec::new() };
    let reply = CallbackReply::Returned(LuaValue::Table(table));
    assert!(runtime.call_details("p", &reply).is_err());
}
