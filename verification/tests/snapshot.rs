use waywallen::map::TextMap;
use waywallen::plugin::source_snapshot::SourceSnapshot;
use waywallen::wallpaper_type::WallpaperEntry;

fn entry(id: &str, ty: &str) -> WallpaperEntry {
    WallpaperEntry {
        id: id.to_string(),
        name: id.to_string(),
        wp_type: ty.to_string(),
        resource: format!("/tmp/{id}"),
        preview: None,
        metadata: TextMap::new(),
        description: None,
        tags: vec![],
        external_id: None,
        size: None,
        width: None,
        height: None,
        format: None,
        plugin_name: "test".to_string(),
        library_root: "/tmp".to_string(),
    }
}

#[test]
fn install_indexes_entries() {
    let mut snap = SourceSnapshot::default();
    snap.install(vec![entry("a", "image"), entry("b", "image"), entry("c", "scene")], vec![]);
    assert_eq!(snap.len(), 3);
    assert_eq!(snap.list_by_type("image").len(), 2);
    assert_eq!(snap.list_by_type("scene").len(), 1);
    assert!(snap.get("b").is_some());
    assert!(snap.get("missing").is_none());
}

#[test]
fn install_replaces_indexes() {
    let mut snap = SourceSnapshot::default();
    snap.install(vec![entry("a", "image")], vec![]);
    snap.install(vec![entry("z", "video")], vec![]);
    assert!(snap.get("a").is_none());
    assert!(snap.get("z").is_some());
    assert!(snap.list_by_type("image").is_empty());
}

#[test]
fn lookups_keep_the_order_and_the_last_of_an_id() {
    let mut snap = SourceSnapshot::default();
    let mut late = entry("a", "video");
    late.name = "late".to_string();
    snap.install(vec![entry("a", "image"), entry("b", "video"), late], vec![]);
    assert_eq!(snap.get("a").unwrap().name, "late");
    let videos: Vec<_> = snap.list_by_type("video").iter().map(|e| e.name.clone()).collect();
    assert_eq!(videos, vec!["b", "late"]);
    assert!(snap.plugins().is_empty());
    assert_eq!(snap.list().len(), 3);
}
