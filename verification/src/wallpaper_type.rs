//! Wallpapers as scans hand them over.
use vstd::prelude::*;
use crate::map::{texts_of, TextMap};
use crate::text::{view_of, views};

verus! {

/// The kind of a wallpaper, such as `image` or `video`.
pub type WallpaperType = String;

/// One wallpaper of a scan.
#[derive(Debug)]
pub struct WallpaperEntry {
    pub id: String,
    pub name: String,
    pub wp_type: String,
    pub resource: String,
    pub preview: Option<String>,
    pub metadata: TextMap<String>,
    pub description: Option<String>,
    pub tags: Vec<String>,
    pub external_id: Option<String>,
    pub size: Option<i64>,
    pub width: Option<u32>,
    pub height: Option<u32>,
    pub format: Option<String>,
    pub plugin_name: String,
    pub library_root: String,
}

pub struct WallpaperEntryView {
    pub id: Seq<char>,
    pub name: Seq<char>,
    pub wp_type: Seq<char>,
    pub resource: Seq<char>,
    pub preview: Option<Seq<char>>,
    pub metadata: Map<Seq<char>, Seq<char>>,
    pub description: Option<Seq<char>>,
    pub tags: Seq<Seq<char>>,
    pub external_id: Option<Seq<char>>,
    pub size: Option<i64>,
    pub width: Option<u32>,
    pub height: Option<u32>,
    pub format: Option<Seq<char>>,
    pub plugin_name: Seq<char>,
    pub library_root: Seq<char>,
}

impl View for WallpaperEntry {
    type V = WallpaperEntryView;

    open spec fn view(&self) -> WallpaperEntryView {
        WallpaperEntryView {
            id: self.id@,
            name: self.name@,
            wp_type: self.wp_type@,
            resource: self.resource@,
            preview: view_of(self.preview),
            metadata: texts_of(self.metadata@),
            description: view_of(self.description),
            tags: views(self.tags@),
            external_id: view_of(self.external_id),
            size: self.size,
            width: self.width,
            height: self.height,
            format: view_of(self.format),
            plugin_name: self.plugin_name@,
            library_root: self.library_root@,
        }
    }
}

/// What is said of a `WallpaperEntry` is said of its own fields.
pub proof fn law_wallpaper_entry_in_contracts(entry: WallpaperEntry)
    ensures
        entry@.id == entry.id@,
        entry@.name == entry.name@,
        entry@.wp_type == entry.wp_type@,
        entry@.resource == entry.resource@,
        entry@.preview == view_of(entry.preview),
        entry@.metadata == texts_of(entry.metadata@),
        entry@.description == view_of(entry.description),
        entry@.tags == views(entry.tags@),
        entry@.external_id == view_of(entry.external_id),
        entry@.size == entry.size,
        entry@.width == entry.width,
        entry@.height == entry.height,
        entry@.format == view_of(entry.format),
        entry@.plugin_name == entry.plugin_name@,
        entry@.library_root == entry.library_root@,
{
}

} // verus!
