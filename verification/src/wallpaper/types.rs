//! Wallpapers as the daemon keeps them.
use vstd::prelude::*;
use crate::text::{copy_option, copy_texts, view_of, views};

verus! {

/// The kind of a wallpaper, such as `image` or `video`.
pub type WallpaperType = String;

/// One wallpaper that a source plugin has found.
#[derive(Debug, PartialEq, Eq)]
pub struct WallpaperEntry {
    /// The identity of the wallpaper in the database; 0 before it has one.
    pub item_id: i64,
    pub name: String,
    pub wp_type: String,
    pub resource: String,
    pub preview: Option<String>,
    pub plugin_name: String,
    pub library_root: String,
    pub description: Option<String>,
    pub tags: Vec<String>,
    pub external_id: Option<String>,
    pub web_url: Option<String>,
    pub size: Option<i64>,
    pub width: Option<u32>,
    pub height: Option<u32>,
    pub content_rating: Option<String>,
    pub modified_at: Option<i64>,
    pub create_at: i64,
}

pub struct WallpaperEntryView {
    pub item_id: i64,
    pub name: Seq<char>,
    pub wp_type: Seq<char>,
    pub resource: Seq<char>,
    pub preview: Option<Seq<char>>,
    pub plugin_name: Seq<char>,
    pub library_root: Seq<char>,
    pub description: Option<Seq<char>>,
    pub tags: Seq<Seq<char>>,
    pub external_id: Option<Seq<char>>,
    pub web_url: Option<Seq<char>>,
    pub size: Option<i64>,
    pub width: Option<u32>,
    pub height: Option<u32>,
    pub content_rating: Option<Seq<char>>,
    pub modified_at: Option<i64>,
    pub create_at: i64,
}

impl View for WallpaperEntry {
    type V = WallpaperEntryView;

    open spec fn view(&self) -> WallpaperEntryView {
        WallpaperEntryView {
            item_id: self.item_id,
            name: self.name@,
            wp_type: self.wp_type@,
            resource: self.resource@,
            preview: view_of(self.preview),
            plugin_name: self.plugin_name@,
            library_root: self.library_root@,
            description: view_of(self.description),
            tags: views(self.tags@),
            external_id: view_of(self.external_id),
            web_url: view_of(self.web_url),
            size: self.size,
            width: self.width,
            height: self.height,
            content_rating: view_of(self.content_rating),
            modified_at: self.modified_at,
            create_at: self.create_at,
        }
    }
}

impl Clone for WallpaperEntry {
    fn clone(&self) -> (copy: Self)
        ensures
            copy@ == self@,
    {
        WallpaperEntry {
            item_id: self.item_id,
            name: self.name.clone(),
            wp_type: self.wp_type.clone(),
            resource: self.resource.clone(),
            preview: copy_option(&self.preview),
            plugin_name: self.plugin_name.clone(),
            library_root: self.library_root.clone(),
            description: copy_option(&self.description),
            tags: copy_texts(&self.tags),
            external_id: copy_option(&self.external_id),
            web_url: copy_option(&self.web_url),
            size: self.size,
            width: self.width,
            height: self.height,
            content_rating: copy_option(&self.content_rating),
            modified_at: self.modified_at,
            create_at: self.create_at,
        }
    }
}

/// What is said of a `WallpaperEntry` is said of its own fields.
pub proof fn law_wallpaper_entry_in_contracts(entry: WallpaperEntry)
    ensures
        entry@.item_id == entry.item_id,
        entry@.name == entry.name@,
        entry@.wp_type == entry.wp_type@,
        entry@.resource == entry.resource@,
        entry@.preview == view_of(entry.preview),
        entry@.plugin_name == entry.plugin_name@,
        entry@.library_root == entry.library_root@,
        entry@.description == view_of(entry.description),
        entry@.tags == views(entry.tags@),
        entry@.external_id == view_of(entry.external_id),
        entry@.web_url == view_of(entry.web_url),
        entry@.size == entry.size,
        entry@.width == entry.width,
        entry@.height == entry.height,
        entry@.content_rating == view_of(entry.content_rating),
        entry@.modified_at == entry.modified_at,
        entry@.create_at == entry.create_at,
{
}

} // verus!
