//! Reading what the callbacks of a source plugin return.
use vstd::prelude::*;
use crate::error;
use crate::error::{Error, Fault};
use crate::map::{texts_of, TextMap};
use crate::plugin::i18n::{LocalizedText, LocalizedView};
use crate::plugin::lua;
use crate::plugin::lua::{
    complain, explain_integer, explain_kind, number_entry, optional_bool, optional_string,
    optional_string_sequence, optional_table, parse_lua_string_map, require_string,
    require_string_sequence, to_text_map, LuaTable, LuaValue,
};
use crate::plugin::source::answers::{
    DiscoverDetails, DiscoverDetailsView, DiscoverDownload, DiscoverDownloadView, DiscoverItem,
    DiscoverItemView, DiscoverResolve, DiscoverResolveView, DiscoverSearchResult,
    DiscoverSearchResultView, PluginLifecycleCheck, PluginLifecycleCheckView, PluginLifecycleState,
    QrLoginPoll, QrLoginPollState, QrLoginPollView, SubscriptionItemState,
    SubscriptionItemStateView, SubscriptionSetResult, SubscriptionSetResultView, SubscriptionState,
    SubscriptionStatusResult, SubscriptionStatusResultView, WallpaperApply, WallpaperApplyView,
};
use crate::plugin::source::entry::Dialect;
use crate::plugin::source::labels;
use crate::plugin::source::labels::read_label;
use crate::plugin::source::redact;
use crate::plugin::source::redact::{redact_localized_text, redact_secrets};
use crate::plugin::source::types::{
    SourceAction, SourceActionView, SourceStatus, SourceStatusView,
};
use crate::text;
use crate::text::{lemma_views_push, same, views};
use crate::wallpaper::types::{WallpaperEntry, WallpaperEntryView};

verus! {

// ---------------------------------------------------------------------------
// Fields that are taken as far as they can be read

/// A field read as a string if it can be.
pub open spec fn some_text(t: LuaTable, key: Seq<char>) -> Option<Seq<char>> {
    t.field(key).as_text()
}

pub open spec fn some_i64(t: LuaTable, key: Seq<char>) -> Option<i64> {
    match t.field(key).as_integer_within(i64::MIN as int, i64::MAX as int) {
        Some(n) => Some(n as i64),
        None => None,
    }
}

pub open spec fn some_u32(t: LuaTable, key: Seq<char>) -> Option<u32> {
    match t.field(key).as_integer_within(0, u32::MAX as int) {
        Some(n) => Some(n as u32),
        None => None,
    }
}

/// A list field if every entry of it is a string; no entries else.
pub open spec fn some_texts(t: LuaTable, key: Seq<char>) -> Seq<Seq<char>> {
    match t.field(key) {
        LuaValue::Table(list) => if forall|i: int|
            0 <= i < list.sequence@.len() ==> (#[trigger] list.sequence@[i]).as_text() is Some {
            lua::text_items(list.sequence@)
        } else {
            Seq::empty()
        },
        _ => Seq::empty(),
    }
}

/// The strings of a list, without the entries that are none.
pub open spec fn readable_texts(items: Seq<LuaValue>, n: int) -> Seq<Seq<char>>
    decreases n,
{
    if n <= 0 {
        Seq::empty()
    } else {
        match items[n - 1].as_text() {
            Some(text) => readable_texts(items, n - 1).push(text),
            None => readable_texts(items, n - 1),
        }
    }
}

fn lenient_texts(t: &LuaTable, key: &str) -> (r: Vec<String>)
    ensures
        views(r@) == some_texts(*t, key@),
{
    let mut out: Vec<String> = Vec::new();
    assert(views(out@) =~= Seq::<Seq<char>>::empty());
    match t.get(key) {
        LuaValue::Table(list) => {
            let items = &list.sequence;
            let mut i: usize = 0;
            while i < items.len()
                invariant
                    i <= items@.len(),
                    t.field(key@) == LuaValue::Table(*list),
                    *items == list.sequence,
                    forall|j: int| 0 <= j < i ==> (#[trigger] items@[j]).as_text() is Some,
                    views(out@) == lua::text_items(items@.take(i as int)),
                decreases items@.len() - i,
            {
                match items[i].to_text() {
                    Some(text) => {
                        proof {
                            lemma_views_push(out@, text);
                        }
                        out.push(text);
                        assert(views(out@) =~= lua::text_items(items@.take(i + 1)));
                    },
                    None => {
                        let none: Vec<String> = Vec::new();
                        assert(views(none@) =~= Seq::<Seq<char>>::empty());
                        return none;
                    },
                }
                i = i + 1;
            }
            assert(items@.take(i as int) =~= items@);
            out
        },
        _ => out,
    }
}

/// The strings of a list; other entries are passed over.
pub fn read_texts(items: &Vec<LuaValue>) -> (out: Vec<String>)
    ensures
        views(out@) == readable_texts(items@, items@.len() as int),
{
    let mut out: Vec<String> = Vec::new();
    assert(views(out@) =~= Seq::<Seq<char>>::empty());
    let mut i: usize = 0;
    while i < items.len()
        invariant
            i <= items@.len(),
            views(out@) == readable_texts(items@, i as int),
        decreases items@.len() - i,
    {
        if let Some(text) = items[i].to_text() {
            proof {
                lemma_views_push(out@, text);
            }
            out.push(text);
        }
        i = i + 1;
    }
    out
}

// ---------------------------------------------------------------------------
// Scanned wallpapers

pub open spec fn scan_row_fault(row: LuaValue) -> Option<Fault> {
    let context = "module.source.scan result"@;
    match row {
        LuaValue::Table(t) => error::first(
            lua::required_text_fault(t, "name"@, context),
            error::first(
                lua::required_text_fault(t, "wp_type"@, context),
                lua::required_text_fault(t, "resource"@, context),
            ),
        ),
        other => Some(Fault::Internal(lua::not_a(other, "table"@))),
    }
}

pub open spec fn scan_row_value(
    dialect: Dialect,
    row: LuaValue,
    plugin_name: Seq<char>,
) -> WallpaperEntryView {
    let t = row->Table_0;
    WallpaperEntryView {
        item_id: 0,
        name: lua::text_field(t, "name"@),
        wp_type: lua::text_field(t, "wp_type"@),
        resource: lua::text_field(t, "resource"@),
        preview: some_text(t, "preview"@),
        plugin_name,
        library_root: lua::text_field(t, "library_root"@),
        description: some_text(t, "description"@),
        tags: some_texts(t, "tags"@),
        external_id: some_text(t, "external_id"@),
        web_url: if dialect.localized() {
            some_text(t, "web_url"@)
        } else {
            None
        },
        size: some_i64(t, "size"@),
        width: some_u32(t, "width"@),
        height: some_u32(t, "height"@),
        content_rating: some_text(t, "content_rating"@),
        modified_at: None,
        create_at: 0,
    }
}

fn lenient_text(t: &LuaTable, key: &str) -> (r: String)
    ensures
        r@ == lua::text_field(*t, key@),
{
    match t.get(key).to_text() {
        Some(text) => text,
        None => String::new(),
    }
}

fn parse_scan_row(
    dialect: Dialect,
    row: &LuaValue,
    plugin_name: &str,
) -> (r: Result<WallpaperEntry, Error>)
    ensures
        error::outcome(r, scan_row_fault(*row), scan_row_value(dialect, *row, plugin_name@)),
{
    let t = match row {
        LuaValue::Table(t) => t,
        other => {
            return Err(Error::Internal(explain_kind(other, "table")));
        },
    };
    let context = "module.source.scan result";
    let name = require_string(t, "name", context)?;
    let wp_type = require_string(t, "wp_type", context)?;
    let resource = require_string(t, "resource", context)?;
    Ok(
        WallpaperEntry {
            item_id: 0,
            name,
            wp_type,
            resource,
            preview: t.get("preview").to_text(),
            plugin_name: plugin_name.to_owned(),
            library_root: lenient_text(t, "library_root"),
            description: t.get("description").to_text(),
            tags: lenient_texts(t, "tags"),
            external_id: t.get("external_id").to_text(),
            web_url: if dialect.is_localized() {
                t.get("web_url").to_text()
            } else {
                None
            },
            size: t.get("size").to_i64(),
            width: t.get("width").to_u32(),
            height: t.get("height").to_u32(),
            content_rating: t.get("content_rating").to_text(),
            modified_at: None,
            create_at: 0,
        },
    )
}

/// The fault of the first row that cannot be read.
pub open spec fn scan_fault(rows: Seq<LuaValue>) -> Option<Fault> {
    error::first_of(rows.len() as int, |i: int| scan_row_fault(rows[i]))
}

/// How many rows come before the first that cannot be read.
pub open spec fn sound_rows(rows: Seq<LuaValue>, from: int) -> int
    decreases rows.len() - from,
{
    if from >= rows.len() || scan_row_fault(rows[from]) is Some {
        from
    } else {
        sound_rows(rows, from + 1)
    }
}

/// The wallpapers of the rows that are read.
pub open spec fn scan_value(dialect: Dialect, rows: Seq<LuaValue>, plugin_name: Seq<char>) -> Seq<
    WallpaperEntryView,
> {
    rows.take(sound_rows(rows, 0)).map_values(|row: LuaValue| scan_row_value(dialect, row, plugin_name))
}

proof fn lemma_added_wallpapers(
    dialect: Dialect,
    rows: Seq<LuaValue>,
    plugin_name: Seq<char>,
    before: Seq<WallpaperEntry>,
    after: Seq<WallpaperEntry>,
    n: int,
)
    requires
        0 <= n <= rows.len(),
        forall|k: int| 0 <= k < n ==> scan_row_fault(#[trigger] rows[k]) is None,
        views(after) == views(before) + rows.take(n).map_values(
            |row: LuaValue| scan_row_value(dialect, row, plugin_name),
        ),
    ensures
        after.len() == before.len() + n,
        forall|k: int|
            0 <= k < n ==> (#[trigger] rows[k] matches LuaValue::Table(t) && {
                let e = after[before.len() + k];
                &&& t.field("name"@).as_text() == Some(e.name@)
                &&& t.field("wp_type"@).as_text() == Some(e.wp_type@)
                &&& t.field("resource"@).as_text() == Some(e.resource@)
                &&& text::view_of(e.preview) == t.field("preview"@).as_text()
                &&& text::view_of(e.description) == t.field("description"@).as_text()
                &&& text::view_of(e.external_id) == t.field("external_id"@).as_text()
                &&& text::view_of(e.content_rating) == t.field("content_rating"@).as_text()
                &&& t.field("library_root"@).as_text() is Some
                    ==> t.field("library_root"@).as_text() == Some(e.library_root@)
                &&& t.field("library_root"@).as_text() is None ==> e.library_root@.len() == 0
                &&& e.size is None
                    <==> t.field("size"@).as_integer_within(i64::MIN as int, i64::MAX as int) is None
                &&& e.size matches Some(n)
                    ==> t.field("size"@).as_integer_within(i64::MIN as int, i64::MAX as int)
                    == Some(n as int)
                &&& e.width is None
                    <==> t.field("width"@).as_integer_within(0, u32::MAX as int) is None
                &&& e.width matches Some(n)
                    ==> t.field("width"@).as_integer_within(0, u32::MAX as int) == Some(n as int)
                &&& e.height is None
                    <==> t.field("height"@).as_integer_within(0, u32::MAX as int) is None
                &&& e.height matches Some(n)
                    ==> t.field("height"@).as_integer_within(0, u32::MAX as int) == Some(n as int)
                &&& e.plugin_name@ == plugin_name
                &&& dialect.localized() ==> text::view_of(e.web_url)
                    == t.field("web_url"@).as_text()
                &&& !dialect.localized() ==> e.web_url is None
                &&& e.item_id == 0 && e.create_at == 0 && e.modified_at is None
            }),
{
    assert(views(after).len() == after.len());
    assert forall|k: int| 0 <= k < n implies (#[trigger] rows[k] matches LuaValue::Table(t) && {
        let e = after[before.len() + k];
        &&& t.field("name"@).as_text() == Some(e.name@)
        &&& t.field("wp_type"@).as_text() == Some(e.wp_type@)
        &&& t.field("resource"@).as_text() == Some(e.resource@)
        &&& text::view_of(e.preview) == t.field("preview"@).as_text()
        &&& text::view_of(e.description) == t.field("description"@).as_text()
        &&& text::view_of(e.external_id) == t.field("external_id"@).as_text()
        &&& text::view_of(e.content_rating) == t.field("content_rating"@).as_text()
        &&& t.field("library_root"@).as_text() is Some ==> t.field("library_root"@).as_text()
            == Some(e.library_root@)
        &&& t.field("library_root"@).as_text() is None ==> e.library_root@.len() == 0
        &&& e.size is None
            <==> t.field("size"@).as_integer_within(i64::MIN as int, i64::MAX as int) is None
        &&& e.size matches Some(n)
            ==> t.field("size"@).as_integer_within(i64::MIN as int, i64::MAX as int)
            == Some(n as int)
        &&& e.width is None <==> t.field("width"@).as_integer_within(0, u32::MAX as int) is None
        &&& e.width matches Some(n) ==> t.field("width"@).as_integer_within(0, u32::MAX as int)
            == Some(n as int)
        &&& e.height is None <==> t.field("height"@).as_integer_within(0, u32::MAX as int) is None
        &&& e.height matches Some(n) ==> t.field("height"@).as_integer_within(0, u32::MAX as int)
            == Some(n as int)
        &&& e.plugin_name@ == plugin_name
        &&& dialect.localized() ==> text::view_of(e.web_url) == t.field("web_url"@).as_text()
        &&& !dialect.localized() ==> e.web_url is None
        &&& e.item_id == 0 && e.create_at == 0 && e.modified_at is None
    }) by {
        assert(scan_row_fault(rows[k]) is None);
        assert(views(after)[before.len() + k] == after[before.len() + k]@);
        assert(rows.take(n)[k] == rows[k]);
        assert(after[before.len() + k]@ == scan_row_value(dialect, rows[k], plugin_name));
    }
}

/// Adds the wallpapers of a scan to those known. A row that cannot be read ends
/// the scan; the wallpapers before it stay.
pub fn read_scan(
    dialect: Dialect,
    rows: &Vec<LuaValue>,
    plugin_name: &str,
    entries: &mut Vec<WallpaperEntry>,
) -> (r: Result<(), Error>)
    ensures
        error::outcome_check(r, scan_fault(rows@)),
        views(final(entries)@) == views(old(entries)@) + scan_value(dialect, rows@, plugin_name@),
        final(entries)@.len() >= old(entries)@.len(),
        forall|k: int|
            0 <= k < final(entries)@.len() - old(entries)@.len()
                ==> (#[trigger] rows@[k] matches LuaValue::Table(t) && {
                let e = final(entries)@[old(entries)@.len() + k];
                &&& t.field("name"@).as_text() == Some(e.name@)
                &&& t.field("wp_type"@).as_text() == Some(e.wp_type@)
                &&& t.field("resource"@).as_text() == Some(e.resource@)
                &&& text::view_of(e.preview) == t.field("preview"@).as_text()
                &&& text::view_of(e.description) == t.field("description"@).as_text()
                &&& text::view_of(e.external_id) == t.field("external_id"@).as_text()
                &&& text::view_of(e.content_rating) == t.field("content_rating"@).as_text()
                &&& t.field("library_root"@).as_text() is Some
                    ==> t.field("library_root"@).as_text() == Some(e.library_root@)
                &&& t.field("library_root"@).as_text() is None ==> e.library_root@.len() == 0
                &&& e.size is None
                    <==> t.field("size"@).as_integer_within(i64::MIN as int, i64::MAX as int) is None
                &&& e.size matches Some(n)
                    ==> t.field("size"@).as_integer_within(i64::MIN as int, i64::MAX as int)
                    == Some(n as int)
                &&& e.width is None
                    <==> t.field("width"@).as_integer_within(0, u32::MAX as int) is None
                &&& e.width matches Some(n)
                    ==> t.field("width"@).as_integer_within(0, u32::MAX as int) == Some(n as int)
                &&& e.height is None
                    <==> t.field("height"@).as_integer_within(0, u32::MAX as int) is None
                &&& e.height matches Some(n)
                    ==> t.field("height"@).as_integer_within(0, u32::MAX as int) == Some(n as int)
                &&& e.plugin_name@ == plugin_name@
                &&& dialect.localized() ==> text::view_of(e.web_url)
                    == t.field("web_url"@).as_text()
                &&& !dialect.localized() ==> e.web_url is None
                &&& e.item_id == 0 && e.create_at == 0 && e.modified_at is None
            }),
{
    let ghost before = views(entries@);
    let ghost fault = |i: int| scan_row_fault(rows@[i]);
    let ghost value = |row: LuaValue| scan_row_value(dialect, row, plugin_name@);
    let mut i: usize = 0;
    assert(views(entries@) =~= before + rows@.take(0).map_values(value));
    while i < rows.len()
        invariant
            i <= rows@.len(),
            fault == (|i: int| scan_row_fault(rows@[i])),
            value == (|row: LuaValue| scan_row_value(dialect, row, plugin_name@)),
            before == views(old(entries)@),
            scan_fault(rows@) == error::first_of(rows@.len() as int, fault),
            error::first_of(i as int, fault) is None,
            sound_rows(rows@, 0) == sound_rows(rows@, i as int),
            views(entries@) == before + rows@.take(i as int).map_values(value),
            forall|k: int| 0 <= k < i ==> scan_row_fault(#[trigger] rows@[k]) is None,
        decreases rows@.len() - i,
    {
        proof {
            lemma_added_wallpapers(
                dialect,
                rows@,
                plugin_name@,
                old(entries)@,
                entries@,
                i as int,
            );
            assert(fault(i as int) == scan_row_fault(rows@[i as int]));
            if fault(i as int) is Some {
                error::lemma_first_of_found(i as int, rows@.len() as int, fault);
            }
        }
        let entry = parse_scan_row(dialect, &rows[i], plugin_name)?;
        proof {
            lemma_views_push(entries@, entry);
        }
        entries.push(entry);
        i = i + 1;
        assert(views(entries@) =~= before + rows@.take(i as int).map_values(value));
    }
    proof {
        lemma_added_wallpapers(dialect, rows@, plugin_name@, old(entries)@, entries@, i as int);
    }
    Ok(())
}

// ---------------------------------------------------------------------------
// Applied wallpapers

/// In a plain dialect the whole answer is the map of the extras.
pub open spec fn apply_fault(dialect: Dialect, result: LuaTable) -> Option<Fault> {
    let context = "wallpaper.apply result"@;
    if dialect.localized() {
        error::first(
            lua::text_map_fault(result, "extras"@, context),
            lua::text_map_fault(result, "default_user_properties"@, context),
        )
    } else {
        match lua::text_map_defect(result) {
            Some(why) => Some(Fault::Internal(why)),
            None => None,
        }
    }
}

pub open spec fn apply_value(dialect: Dialect, result: LuaTable) -> WallpaperApplyView {
    if dialect.localized() {
        WallpaperApplyView {
            extras: lua::text_map_field(result, "extras"@),
            default_user_properties: lua::text_map_field(result, "default_user_properties"@),
        }
    } else {
        WallpaperApplyView { extras: lua::text_map(result), default_user_properties: Map::empty() }
    }
}

pub fn read_apply(dialect: Dialect, result: &LuaTable) -> (r: Result<WallpaperApply, Error>)
    ensures
        error::outcome(r, apply_fault(dialect, *result), apply_value(dialect, *result)),
        r matches Ok(apply) ==> apply.extras.wf() && apply.default_user_properties.wf(),
{
    if !dialect.is_localized() {
        return match to_text_map(result) {
            Ok(extras) => {
                let default_user_properties: TextMap<String> = TextMap::new();
                assert(texts_of(default_user_properties@) =~= Map::<
                    Seq<char>,
                    Seq<char>,
                >::empty());
                Ok(WallpaperApply { extras, default_user_properties })
            },
            Err(why) => Err(Error::Internal(why)),
        };
    }
    let context = "wallpaper.apply result";
    let extras = parse_lua_string_map(result, "extras", context)?;
    let default_user_properties = parse_lua_string_map(result, "default_user_properties", context)?;
    Ok(WallpaperApply { extras, default_user_properties })
}

// ---------------------------------------------------------------------------
// Remote items

/// A failure of a discover callback of a plugin.
pub open spec fn failed(plugin: Seq<char>, message: Seq<char>) -> Fault {
    Fault::DiscoverFailed { plugin, message }
}

pub fn fail(plugin: &str, message: &str) -> (e: Error)
    ensures
        e@ == failed(plugin@, message@),
{
    Error::DiscoverFailed { plugin: plugin.to_owned(), message: message.to_owned() }
}

pub open spec fn search_row_fault(row: LuaValue, plugin: Seq<char>, i: int) -> Option<Fault> {
    let context = lua::numbered("module.discover.search result.items"@, i);
    match row {
        LuaValue::Table(t) => error::first(
            lua::required_text_fault(t, "id"@, context),
            error::first(
                lua::required_text_fault(t, "title"@, context),
                error::first(
                    lua::required_text_fault(t, "preview_url"@, context),
                    error::first(
                        lua::required_text_fault(t, "author"@, context),
                        error::first(
                            lua::optional_text_fault(t, "wp_type"@, context),
                            lua::text_map_fault(t, "extra"@, context),
                        ),
                    ),
                ),
            ),
        ),
        other => Some(
            failed(
                plugin,
                lua::numbered("discover.search result.items"@, i) + " must be a table: "@
                    + lua::not_a(other, "table"@),
            ),
        ),
    }
}

/// A remote item; its type is that of the plugin where the row gives none.
pub open spec fn search_row_value(row: LuaValue, default_wp_type: Seq<char>) -> DiscoverItemView {
    let t = row->Table_0;
    let wp_type = lua::text_field(t, "wp_type"@);
    DiscoverItemView {
        id: lua::text_field(t, "id"@),
        title: lua::text_field(t, "title"@),
        preview_url: lua::text_field(t, "preview_url"@),
        author: lua::text_field(t, "author"@),
        wp_type: if wp_type.len() == 0 {
            default_wp_type
        } else {
            wp_type
        },
        extra: lua::text_map_field(t, "extra"@),
    }
}

pub open spec fn search_fault(result: LuaTable, plugin: Seq<char>) -> Option<Fault> {
    match result.field("items"@) {
        LuaValue::Table(items) => error::first_of(
            items.sequence@.len() as int,
            |i: int| search_row_fault(items.sequence@[i], plugin, i),
        ),
        other => Some(
            failed(
                plugin,
                "discover.search result.items required: "@ + lua::not_a(other, "table"@),
            ),
        ),
    }
}

pub open spec fn search_value(
    result: LuaTable,
    default_wp_type: Seq<char>,
) -> DiscoverSearchResultView {
    DiscoverSearchResultView {
        items: result.field("items"@)->Table_0.sequence@.map_values(
            |row: LuaValue| search_row_value(row, default_wp_type),
        ),
        has_more: result.field("has_more"@).truthy(),
    }
}

fn parse_search_row(row: &LuaValue, plugin: &str, i: usize, default_wp_type: &str) -> (r: Result<
    DiscoverItem,
    Error,
>)
    requires
        i < usize::MAX,
    ensures
        error::outcome(
            r,
            search_row_fault(*row, plugin@, i as int),
            search_row_value(*row, default_wp_type@),
        ),
        r matches Ok(item) ==> item.extra.wf(),
{
    let t = match row {
        LuaValue::Table(t) => t,
        other => {
            let mut message = number_entry("discover.search result.items", i);
            message.append(" must be a table: ");
            let why = explain_kind(other, "table");
            message.append(why.as_str());
            return Err(fail(plugin, message.as_str()));
        },
    };
    let context = number_entry("module.discover.search result.items", i);
    let context = context.as_str();
    let id = require_string(t, "id", context)?;
    let title = require_string(t, "title", context)?;
    let preview_url = require_string(t, "preview_url", context)?;
    let author = require_string(t, "author", context)?;
    let given = optional_string(t, "wp_type", context)?;
    let wp_type = if given.as_str().is_empty() {
        default_wp_type.to_owned()
    } else {
        given
    };
    let extra = parse_lua_string_map(t, "extra", context)?;
    Ok(DiscoverItem { id, title, preview_url, author, wp_type, extra })
}

/// Every map of the items is sound.
pub open spec fn items_wf(items: Seq<DiscoverItem>) -> bool {
    forall|i: int| 0 <= i < items.len() ==> (#[trigger] items[i]).extra.wf()
}

pub fn read_search(result: &LuaTable, plugin: &str, default_wp_type: &str) -> (r: Result<
    DiscoverSearchResult,
    Error,
>)
    ensures
        error::outcome(
            r,
            search_fault(*result, plugin@),
            search_value(*result, default_wp_type@),
        ),
        r matches Ok(found) ==> items_wf(found.items@),
        r matches Ok(found) ==> found.has_more == result.field("has_more"@).truthy(),
        r matches Ok(found) ==> (result.field("items"@) matches LuaValue::Table(list)
            && list.sequence@.len()
            == found.items@.len() && forall|i: int|
            0 <= i < list.sequence@.len()
                ==> (#[trigger] list.sequence@[i] matches LuaValue::Table(t) && {
                let item = found.items@[i];
                &&& t.field("id"@).as_text() == Some(item.id@)
                &&& t.field("title"@).as_text() == Some(item.title@)
                &&& t.field("preview_url"@).as_text() == Some(item.preview_url@)
                &&& t.field("author"@).as_text() == Some(item.author@)
                &&& t.field("wp_type"@).as_text() matches Some(x) ==> x.len() > 0 ==> item.wp_type@
                    == x
                &&& t.field("wp_type"@) is Nil ==> item.wp_type@ == default_wp_type@
                &&& texts_of(item.extra@) == lua::text_map_field(t, "extra"@)
            })),
{
    let rows = match result.get("items") {
        LuaValue::Table(items) => &items.sequence,
        other => {
            let mut message = "discover.search result.items required: ".to_owned();
            let why = explain_kind(other, "table");
            message.append(why.as_str());
            return Err(fail(plugin, message.as_str()));
        },
    };
    let ghost fault = |i: int| search_row_fault(rows@[i], plugin@, i);
    let ghost value = |row: LuaValue| search_row_value(row, default_wp_type@);
    let mut items: Vec<DiscoverItem> = Vec::new();
    let mut i: usize = 0;
    assert(views(items@) =~= rows@.take(0).map_values(value));
    while i < rows.len()
        invariant
            i <= rows@.len(),
            fault == (|i: int| search_row_fault(rows@[i], plugin@, i)),
            value == (|row: LuaValue| search_row_value(row, default_wp_type@)),
            search_fault(*result, plugin@) == error::first_of(rows@.len() as int, fault),
            error::first_of(i as int, fault) is None,
            views(items@) == rows@.take(i as int).map_values(value),
            items_wf(items@),
        decreases rows@.len() - i,
    {
        proof {
            if fault(i as int) is Some {
                error::lemma_first_of_found(i as int, rows@.len() as int, fault);
            }
        }
        let item = parse_search_row(&rows[i], plugin, i, default_wp_type)?;
        proof {
            lemma_views_push(items@, item);
        }
        items.push(item);
        i = i + 1;
        assert(views(items@) =~= rows@.take(i as int).map_values(value));
    }
    proof {
        assert(rows@.take(i as int) =~= rows@);
        error::lemma_first_of_none(rows@.len() as int, fault);
        assert(views(items@).len() == items@.len());
        assert forall|k: int| 0 <= k < rows@.len() implies search_row_fault(
            #[trigger] rows@[k],
            plugin@,
            k,
        ) is None && items@[k]@ == search_row_value(rows@[k], default_wp_type@) by {
            assert(fault(k) is None);
            assert(views(items@)[k] == items@[k]@);
        }
    }
    Ok(DiscoverSearchResult { items, has_more: result.get("has_more").to_bool() })
}

pub open spec fn details_fault(result: LuaTable) -> Option<Fault> {
    let context = "module.discover.details result"@;
    error::first(
        lua::optional_text_fault(result, "author"@, context),
        error::first(
            lua::required_text_fault(result, "description"@, context),
            error::first(
                lua::required_text_fault(result, "size"@, context),
                error::first(
                    lua::required_texts_fault(result, "tags"@, context),
                    error::first(
                        lua::optional_text_fault(result, "web_url"@, context),
                        lua::text_map_fault(result, "extra"@, context),
                    ),
                ),
            ),
        ),
    )
}

pub open spec fn details_value(result: LuaTable) -> DiscoverDetailsView {
    DiscoverDetailsView {
        author: lua::text_field(result, "author"@),
        description: lua::text_field(result, "description"@),
        size: lua::text_field(result, "size"@),
        width: some_u32(result, "width"@),
        height: some_u32(result, "height"@),
        tags: lua::texts_field(result, "tags"@),
        web_url: lua::text_field(result, "web_url"@),
        extra: lua::text_map_field(result, "extra"@),
    }
}

pub fn read_details(result: &LuaTable) -> (r: Result<DiscoverDetails, Error>)
    ensures
        error::outcome(r, details_fault(*result), details_value(*result)),
        r matches Ok(details) ==> details.extra.wf(),
{
    let context = "module.discover.details result";
    let author = optional_string(result, "author", context)?;
    let description = require_string(result, "description", context)?;
    let size = require_string(result, "size", context)?;
    let width = result.get("width").to_u32();
    let height = result.get("height").to_u32();
    let tags = require_string_sequence(result, "tags", context)?;
    let web_url = optional_string(result, "web_url", context)?;
    let extra = parse_lua_string_map(result, "extra", context)?;
    Ok(DiscoverDetails { author, description, size, width, height, tags, web_url, extra })
}

pub open spec fn download_fault(dialect: Dialect, result: LuaTable) -> Option<Fault> {
    let context = "module.discover.download result"@;
    error::first(
        lua::required_text_fault(result, "wp_type"@, context),
        error::first(
            lua::optional_text_fault(result, "url"@, context),
            error::first(
                lua::optional_text_fault(result, "filename"@, context),
                error::first(
                    lua::required_text_fault(result, "title"@, context),
                    error::first(
                        lua::optional_text_fault(result, "preview_url"@, context),
                        error::first(
                            lua::optional_text_fault(result, "description"@, context),
                            error::first(
                                lua::optional_texts_fault(result, "tags"@, context),
                                error::first(
                                    lua::required_text_fault(result, "external_id"@, context),
                                    if dialect.localized() {
                                        lua::optional_text_fault(result, "web_url"@, context)
                                    } else {
                                        None
                                    },
                                ),
                            ),
                        ),
                    ),
                ),
            ),
        ),
    )
}

pub open spec fn download_value(dialect: Dialect, result: LuaTable) -> DiscoverDownloadView {
    DiscoverDownloadView {
        wp_type: lua::text_field(result, "wp_type"@),
        url: lua::text_field(result, "url"@),
        filename: lua::text_field(result, "filename"@),
        title: lua::text_field(result, "title"@),
        preview_url: lua::text_field(result, "preview_url"@),
        description: lua::text_field(result, "description"@),
        tags: lua::texts_field(result, "tags"@),
        external_id: lua::text_field(result, "external_id"@),
        web_url: if dialect.localized() {
            lua::text_field(result, "web_url"@)
        } else {
            Seq::empty()
        },
        size: some_i64(result, "size"@),
        width: some_u32(result, "width"@),
        height: some_u32(result, "height"@),
        content_rating: some_text(result, "content_rating"@),
    }
}

pub fn read_download(dialect: Dialect, result: &LuaTable) -> (r: Result<DiscoverDownload, Error>)
    ensures
        error::outcome(r, download_fault(dialect, *result), download_value(dialect, *result)),
{
    let context = "module.discover.download result";
    let wp_type = require_string(result, "wp_type", context)?;
    let url = optional_string(result, "url", context)?;
    let filename = optional_string(result, "filename", context)?;
    let title = require_string(result, "title", context)?;
    let preview_url = optional_string(result, "preview_url", context)?;
    let description = optional_string(result, "description", context)?;
    let tags = optional_string_sequence(result, "tags", context)?;
    let external_id = require_string(result, "external_id", context)?;
    let web_url = if dialect.is_localized() {
        optional_string(result, "web_url", context)?
    } else {
        String::new()
    };
    Ok(
        DiscoverDownload {
            wp_type,
            url,
            filename,
            title,
            preview_url,
            description,
            tags,
            external_id,
            web_url,
            size: result.get("size").to_i64(),
            width: result.get("width").to_u32(),
            height: result.get("height").to_u32(),
            content_rating: result.get("content_rating").to_text(),
        },
    )
}

pub open spec fn resolve_fault(result: LuaTable) -> Option<Fault> {
    let context = "module.discover.resolve result"@;
    error::first(
        lua::required_text_fault(result, "name"@, context),
        error::first(
            lua::required_text_fault(result, "wp_type"@, context),
            error::first(
                lua::required_text_fault(result, "resource"@, context),
                error::first(
                    lua::optional_text_fault(result, "description"@, context),
                    error::first(
                        lua::optional_texts_fault(result, "tags"@, context),
                        lua::optional_text_fault(result, "external_id"@, context),
                    ),
                ),
            ),
        ),
    )
}

/// A readable string that is not empty.
pub open spec fn filled_text(t: LuaTable, key: Seq<char>) -> Option<Seq<char>> {
    match some_text(t, key) {
        Some(text) => if text.len() > 0 {
            Some(text)
        } else {
            None
        },
        None => None,
    }
}

pub open spec fn resolve_value(result: LuaTable) -> DiscoverResolveView {
    DiscoverResolveView {
        name: lua::text_field(result, "name"@),
        wp_type: lua::text_field(result, "wp_type"@),
        resource: lua::text_field(result, "resource"@),
        preview: filled_text(result, "preview"@),
        description: lua::text_field(result, "description"@),
        tags: lua::texts_field(result, "tags"@),
        external_id: lua::text_field(result, "external_id"@),
        size: some_i64(result, "size"@),
        content_rating: some_text(result, "content_rating"@),
    }
}

pub fn read_resolve(result: &LuaTable) -> (r: Result<DiscoverResolve, Error>)
    ensures
        error::outcome(r, resolve_fault(*result), resolve_value(*result)),
{
    let context = "module.discover.resolve result";
    let name = require_string(result, "name", context)?;
    let wp_type = require_string(result, "wp_type", context)?;
    let resource = require_string(result, "resource", context)?;
    let preview = match result.get("preview").to_text() {
        Some(text) => if text.as_str().is_empty() {
            None
        } else {
            Some(text)
        },
        None => None,
    };
    let description = optional_string(result, "description", context)?;
    let tags = optional_string_sequence(result, "tags", context)?;
    let external_id = optional_string(result, "external_id", context)?;
    Ok(
        DiscoverResolve {
            name,
            wp_type,
            resource,
            preview,
            description,
            tags,
            external_id,
            size: result.get("size").to_i64(),
            content_rating: result.get("content_rating").to_text(),
        },
    )
}

// ---------------------------------------------------------------------------
// Sign-in state

pub open spec fn lifecycle_state(name: Seq<char>) -> Option<PluginLifecycleState> {
    if name == "signed_out"@ {
        Some(PluginLifecycleState::SignedOut)
    } else if name == "signed_in"@ {
        Some(PluginLifecycleState::SignedIn)
    } else if name == "expired"@ {
        Some(PluginLifecycleState::Expired)
    } else if name == "error"@ {
        Some(PluginLifecycleState::Error)
    } else {
        None
    }
}

pub open spec fn check_fault(dialect: Dialect, result: LuaTable) -> Option<Fault> {
    let context = "module.lifecycle.check result"@;
    let name = lua::text_field(result, "state"@);
    error::first(
        lua::required_text_fault(result, "state"@, context),
        error::first(
            error::unless(
                lifecycle_state(name) is Some,
                Fault::Internal("module.lifecycle.check returned unknown state '"@ + name + "'"@),
            ),
            error::first(
                labels::label_fault(dialect, result, "display_value"@, context),
                error::first(
                    labels::label_fault(dialect, result, "error"@, context),
                    lua::optional_text_fault(result, "avatar_url"@, context),
                ),
            ),
        ),
    )
}

pub open spec fn check_value(dialect: Dialect, result: LuaTable) -> PluginLifecycleCheckView {
    PluginLifecycleCheckView {
        state: lifecycle_state(lua::text_field(result, "state"@))->0,
        display_value: labels::label(dialect, result, "display_value"@),
        error: redact::redacted_localized(labels::label(dialect, result, "error"@)),
        avatar_url: lua::text_field(result, "avatar_url"@),
    }
}

pub fn read_check(dialect: Dialect, result: &LuaTable) -> (r: Result<PluginLifecycleCheck, Error>)
    ensures
        error::outcome(r, check_fault(dialect, *result), check_value(dialect, *result)),
{
    let context = "module.lifecycle.check result";
    let name = require_string(result, "state", context)?;
    let state = if same(name.as_str(), "signed_out") {
        PluginLifecycleState::SignedOut
    } else if same(name.as_str(), "signed_in") {
        PluginLifecycleState::SignedIn
    } else if same(name.as_str(), "expired") {
        PluginLifecycleState::Expired
    } else if same(name.as_str(), "error") {
        PluginLifecycleState::Error
    } else {
        let mut message = "module.lifecycle.check returned unknown state '".to_owned();
        message.append(name.as_str());
        message.append("'");
        return Err(Error::Internal(message));
    };
    let display_value = read_label(dialect, result, "display_value", context)?;
    let error = read_label(dialect, result, "error", context)?;
    let avatar_url = optional_string(result, "avatar_url", context)?;
    Ok(
        PluginLifecycleCheck {
            state,
            display_value,
            error: redact_localized_text(&error),
            avatar_url,
        },
    )
}

// ---------------------------------------------------------------------------
// Actions and status rows

/// A plain dialect takes what can be read and nothing else.
pub open spec fn status_row_fault(
    dialect: Dialect,
    values: LuaTable,
    id: Seq<char>,
) -> Option<Fault> {
    if dialect.localized() {
        lua::localized_field_fault(values, id, "module.actions.status result.status"@)
    } else {
        None
    }
}

fn read_status_row(
    dialect: Dialect,
    values: &LuaTable,
    id: &str,
) -> (r: Result<LocalizedText, Error>)
    ensures
        error::outcome(
            r,
            status_row_fault(dialect, *values, id@),
            labels::label(dialect, *values, id@),
        ),
{
    if dialect.is_localized() {
        lua::optional_localized_text(values, id, "module.actions.status result.status")
    } else {
        Ok(LocalizedText::Raw(lenient_text(values, id)))
    }
}

pub open spec fn status_rows_fault(
    dialect: Dialect,
    values: LuaTable,
    rows: Seq<SourceStatusView>,
) -> Option<Fault> {
    error::first_of(
        rows.len() as int,
        |i: int| status_row_fault(dialect, values, rows[i].id),
    )
}

pub open spec fn status_row_value(
    dialect: Dialect,
    values: LuaTable,
    row: SourceStatusView,
) -> SourceStatusView {
    SourceStatusView { value: labels::label(dialect, values, row.id), ..row }
}

pub open spec fn action_row_fault(values: LuaTable, action: SourceActionView) -> Option<Fault> {
    let context = "module.actions.status result.actions"@;
    match lua::table_field(values, action.id) {
        Some(state) => error::first(
            lua::optional_bool_fault(state, "visible"@, context),
            lua::optional_bool_fault(state, "enabled"@, context),
        ),
        None => None,
    }
}

/// An action with what the plugin says of it; both flags hold where it says
/// nothing.
pub open spec fn action_row_value(values: LuaTable, action: SourceActionView) -> SourceActionView {
    match lua::table_field(values, action.id) {
        Some(state) => SourceActionView {
            visible: lua::bool_field(state, "visible"@, true),
            enabled: lua::bool_field(state, "enabled"@, true),
            ..action
        },
        None => action,
    }
}

pub open spec fn action_rows_fault(values: LuaTable, actions: Seq<SourceActionView>) -> Option<
    Fault,
> {
    error::first_of(actions.len() as int, |i: int| action_row_fault(values, actions[i]))
}

/// The fault of an answer to the status callback.
pub open spec fn action_status_fault(
    dialect: Dialect,
    result: LuaTable,
    actions: Seq<SourceActionView>,
    rows: Seq<SourceStatusView>,
) -> Option<Fault> {
    let context = "module.actions.status result"@;
    error::first(
        lua::optional_table_fault(result, "status"@, context),
        error::first(
            match lua::table_field(result, "status"@) {
                Some(values) => status_rows_fault(dialect, values, rows),
                None => None,
            },
            error::first(
                lua::optional_table_fault(result, "actions"@, context),
                match lua::table_field(result, "actions"@) {
                    Some(values) => action_rows_fault(values, actions),
                    None => None,
                },
            ),
        ),
    )
}

pub open spec fn shown_status(
    dialect: Dialect,
    result: LuaTable,
    rows: Seq<SourceStatusView>,
) -> Seq<SourceStatusView> {
    match lua::table_field(result, "status"@) {
        Some(values) => rows.map_values(|row: SourceStatusView| status_row_value(dialect, values, row)),
        None => rows,
    }
}

pub open spec fn shown_actions(result: LuaTable, actions: Seq<SourceActionView>) -> Seq<
    SourceActionView,
> {
    match lua::table_field(result, "actions"@) {
        Some(values) => actions.map_values(
            |action: SourceActionView| action_row_value(values, action),
        ),
        None => actions,
    }
}

fn show_status(
    dialect: Dialect,
    values: &LuaTable,
    rows: &Vec<SourceStatus>,
) -> (r: Result<Vec<SourceStatus>, Error>)
    ensures
        error::outcome_list(
            r,
            status_rows_fault(dialect, *values, views(rows@)),
            views(rows@).map_values(|row: SourceStatusView| status_row_value(dialect, *values, row)),
        ),
{
    let ghost all = views(rows@);
    let ghost fault = |i: int| status_row_fault(dialect, *values, all[i].id);
    let ghost value = |row: SourceStatusView| status_row_value(dialect, *values, row);
    let mut out: Vec<SourceStatus> = Vec::new();
    let mut i: usize = 0;
    assert(views(out@) =~= all.take(0).map_values(value));
    while i < rows.len()
        invariant
            i <= rows@.len(),
            all == views(rows@),
            fault == (|i: int| status_row_fault(dialect, *values, all[i].id)),
            value == (|row: SourceStatusView| status_row_value(dialect, *values, row)),
            status_rows_fault(dialect, *values, all) == error::first_of(all.len() as int, fault),
            error::first_of(i as int, fault) is None,
            views(out@) == all.take(i as int).map_values(value),
        decreases rows@.len() - i,
    {
        proof {
            assert(all[i as int] == rows@[i as int]@);
            if fault(i as int) is Some {
                error::lemma_first_of_found(i as int, all.len() as int, fault);
            }
        }
        let shown = read_status_row(dialect, values, rows[i].id.as_str())?;
        let mut row = rows[i].clone();
        row.value = shown;
        proof {
            lemma_views_push(out@, row);
        }
        out.push(row);
        i = i + 1;
        assert(views(out@) =~= all.take(i as int).map_values(value));
    }
    assert(all.take(i as int) =~= all);
    Ok(out)
}

fn show_action(values: &LuaTable, action: &SourceAction) -> (r: Result<SourceAction, Error>)
    ensures
        error::outcome(r, action_row_fault(*values, action@), action_row_value(*values, action@)),
{
    let context = "module.actions.status result.actions";
    let mut out = action.clone();
    match values.get(action.id.as_str()) {
        LuaValue::Table(state) => {
            out.visible = optional_bool(state, "visible", context, true)?;
            out.enabled = optional_bool(state, "enabled", context, true)?;
            Ok(out)
        },
        _ => Ok(out),
    }
}

fn show_actions(values: &LuaTable, actions: &Vec<SourceAction>) -> (r: Result<
    Vec<SourceAction>,
    Error,
>)
    ensures
        error::outcome_list(
            r,
            action_rows_fault(*values, views(actions@)),
            views(actions@).map_values(
                |action: SourceActionView| action_row_value(*values, action),
            ),
        ),
{
    let ghost all = views(actions@);
    let ghost fault = |i: int| action_row_fault(*values, all[i]);
    let ghost value = |action: SourceActionView| action_row_value(*values, action);
    let mut out: Vec<SourceAction> = Vec::new();
    let mut i: usize = 0;
    assert(views(out@) =~= all.take(0).map_values(value));
    while i < actions.len()
        invariant
            i <= actions@.len(),
            all == views(actions@),
            fault == (|i: int| action_row_fault(*values, all[i])),
            value == (|action: SourceActionView| action_row_value(*values, action)),
            action_rows_fault(*values, all) == error::first_of(all.len() as int, fault),
            error::first_of(i as int, fault) is None,
            views(out@) == all.take(i as int).map_values(value),
        decreases actions@.len() - i,
    {
        proof {
            assert(all[i as int] == actions@[i as int]@);
            if fault(i as int) is Some {
                error::lemma_first_of_found(i as int, all.len() as int, fault);
            }
        }
        let action = show_action(values, &actions[i])?;
        proof {
            lemma_views_push(out@, action);
        }
        out.push(action);
        i = i + 1;
        assert(views(out@) =~= all.take(i as int).map_values(value));
    }
    assert(all.take(i as int) =~= all);
    Ok(out)
}

/// The declared actions and status rows with what the plugin says of them now.
pub fn read_action_status(
    dialect: Dialect,
    result: &LuaTable,
    actions: &Vec<SourceAction>,
    rows: &Vec<SourceStatus>,
) -> (r: Result<(Vec<SourceAction>, Vec<SourceStatus>), Error>)
    ensures
        match r {
            Ok((shown, status)) => {
                &&& action_status_fault(dialect, *result, views(actions@), views(rows@)) is None
                &&& views(shown@) == shown_actions(*result, views(actions@))
                &&& views(status@) == shown_status(dialect, *result, views(rows@))
            },
            Err(e) => action_status_fault(dialect, *result, views(actions@), views(rows@)) == Some(e@),
        },
{
    let context = "module.actions.status result";
    let status = match optional_table(result, "status", context)? {
        Some(values) => show_status(dialect, values, rows)?,
        None => text::copy_list(rows),
    };
    let shown = match optional_table(result, "actions", context)? {
        Some(values) => show_actions(values, actions)?,
        None => text::copy_list(actions),
    };
    Ok((shown, status))
}

// ---------------------------------------------------------------------------
// QR logins

/// The fault of an optional count of milliseconds.
pub open spec fn milliseconds_fault(t: LuaTable, key: Seq<char>) -> Option<Fault> {
    error::unless(
        t.field(key) is Nil || t.field(key).as_integer_within(0, u64::MAX as int) is Some,
        Fault::Internal(lua::not_integer(t.field(key), "u64"@)),
    )
}

pub open spec fn milliseconds(t: LuaTable, key: Seq<char>) -> Option<u64> {
    match t.field(key).as_integer_within(0, u64::MAX as int) {
        Some(n) => Some(n as u64),
        None => None,
    }
}

fn optional_milliseconds(t: &LuaTable, key: &str) -> (r: Result<Option<u64>, Error>)
    ensures
        match r {
            Ok(n) => milliseconds_fault(*t, key@) is None && n == milliseconds(*t, key@),
            Err(e) => milliseconds_fault(*t, key@) == Some(e@),
        },
{
    let value = t.get(key);
    match value {
        LuaValue::Nil => Ok(None),
        _ => match value.to_u64() {
            Some(n) => Ok(Some(n)),
            None => Err(Error::Internal(explain_integer(value, "u64"))),
        },
    }
}

pub open spec fn qr_begin_fault(dialect: Dialect, result: LuaTable) -> Option<Fault> {
    let context = "qrlogin.begin result"@;
    error::first(
        error::unless(
            !(result.field("key"@) is Nil),
            lua::complaint(context, "key"@, " must not be nil"@),
        ),
        error::first(
            lua::required_text_fault(result, "challenge"@, context),
            error::first(
                milliseconds_fault(result, "poll_after_ms"@),
                error::first(
                    milliseconds_fault(result, "expires_in_ms"@),
                    error::first(
                        labels::label_fault(dialect, result, "title"@, context),
                        labels::label_fault(dialect, result, "instruction"@, context),
                    ),
                ),
            ),
        ),
    )
}

/// How a QR login begins, before it has a number.
#[derive(Debug)]
pub struct QrChallenge {
    pub challenge: String,
    pub poll_after_ms: u64,
    pub expires_in_ms: Option<u64>,
    pub title: LocalizedText,
    pub instruction: LocalizedText,
}

pub struct QrChallengeView {
    pub challenge: Seq<char>,
    pub poll_after_ms: u64,
    pub expires_in_ms: Option<u64>,
    pub title: LocalizedView,
    pub instruction: LocalizedView,
}

impl View for QrChallenge {
    type V = QrChallengeView;

    open spec fn view(&self) -> QrChallengeView {
        QrChallengeView {
            challenge: self.challenge@,
            poll_after_ms: self.poll_after_ms,
            expires_in_ms: self.expires_in_ms,
            title: self.title@,
            instruction: self.instruction@,
        }
    }
}

pub const DEFAULT_POLL_AFTER_MS: u64 = 1000;

pub open spec fn qr_begin_value(dialect: Dialect, result: LuaTable) -> QrChallengeView {
    QrChallengeView {
        challenge: lua::text_field(result, "challenge"@),
        poll_after_ms: match milliseconds(result, "poll_after_ms"@) {
            Some(n) => n,
            None => DEFAULT_POLL_AFTER_MS,
        },
        expires_in_ms: milliseconds(result, "expires_in_ms"@),
        title: labels::label(dialect, result, "title"@),
        instruction: labels::label(dialect, result, "instruction"@),
    }
}

pub fn read_qr_begin(dialect: Dialect, result: &LuaTable) -> (r: Result<QrChallenge, Error>)
    ensures
        error::outcome(r, qr_begin_fault(dialect, *result), qr_begin_value(dialect, *result)),
{
    let context = "qrlogin.begin result";
    if let LuaValue::Nil = result.get("key") {
        return Err(complain(context, "key", " must not be nil"));
    }
    let challenge = require_string(result, "challenge", context)?;
    let poll_after_ms = match optional_milliseconds(result, "poll_after_ms")? {
        Some(n) => n,
        None => DEFAULT_POLL_AFTER_MS,
    };
    let expires_in_ms = optional_milliseconds(result, "expires_in_ms")?;
    let title = read_label(dialect, result, "title", context)?;
    let instruction = read_label(dialect, result, "instruction", context)?;
    Ok(QrChallenge { challenge, poll_after_ms, expires_in_ms, title, instruction })
}

pub open spec fn qr_poll_state(name: Seq<char>) -> Option<QrLoginPollState> {
    if name == "awaiting_scan"@ {
        Some(QrLoginPollState::AwaitingScan)
    } else if name == "awaiting_confirmation"@ {
        Some(QrLoginPollState::AwaitingConfirmation)
    } else if name == "challenge_changed"@ {
        Some(QrLoginPollState::ChallengeChanged)
    } else if name == "succeeded"@ {
        Some(QrLoginPollState::Succeeded)
    } else if name == "expired"@ {
        Some(QrLoginPollState::Expired)
    } else if name == "failed"@ {
        Some(QrLoginPollState::Failed)
    } else {
        None
    }
}

/// No further poll follows.
pub open spec fn is_terminal(state: QrLoginPollState) -> bool {
    state is Succeeded || state is Expired || state is Failed
}

pub fn terminal(state: QrLoginPollState) -> (r: bool)
    ensures
        r == is_terminal(state),
{
    match state {
        QrLoginPollState::Succeeded => true,
        QrLoginPollState::Expired => true,
        QrLoginPollState::Failed => true,
        _ => false,
    }
}

pub open spec fn qr_state_fault(result: LuaTable) -> Option<Fault> {
    let name = lua::text_field(result, "state"@);
    error::first(
        lua::required_text_fault(result, "state"@, "qrlogin.poll result"@),
        error::unless(
            qr_poll_state(name) is Some,
            Fault::Internal("qrlogin.poll returned unknown state '"@ + name + "'"@),
        ),
    )
}

pub fn read_qr_state(result: &LuaTable) -> (r: Result<QrLoginPollState, Error>)
    ensures
        match r {
            Ok(state) => qr_state_fault(*result) is None && qr_poll_state(
                lua::text_field(*result, "state"@),
            ) == Some(state),
            Err(e) => qr_state_fault(*result) == Some(e@),
        },
{
    let name = require_string(result, "state", "qrlogin.poll result")?;
    let name = name.as_str();
    if same(name, "awaiting_scan") {
        Ok(QrLoginPollState::AwaitingScan)
    } else if same(name, "awaiting_confirmation") {
        Ok(QrLoginPollState::AwaitingConfirmation)
    } else if same(name, "challenge_changed") {
        Ok(QrLoginPollState::ChallengeChanged)
    } else if same(name, "succeeded") {
        Ok(QrLoginPollState::Succeeded)
    } else if same(name, "expired") {
        Ok(QrLoginPollState::Expired)
    } else if same(name, "failed") {
        Ok(QrLoginPollState::Failed)
    } else {
        let mut message = "qrlogin.poll returned unknown state '".to_owned();
        message.append(name);
        message.append("'");
        Err(Error::Internal(message))
    }
}

pub open spec fn qr_poll_fault(dialect: Dialect, result: LuaTable) -> Option<Fault> {
    let context = "qrlogin.poll result"@;
    error::first(
        lua::optional_text_fault(result, "challenge"@, context),
        error::first(
            milliseconds_fault(result, "poll_after_ms"@),
            error::first(
                labels::label_fault(dialect, result, "display_value"@, context),
                labels::label_fault(dialect, result, "error"@, context),
            ),
        ),
    )
}

pub open spec fn qr_poll_value(
    dialect: Dialect,
    result: LuaTable,
    state: QrLoginPollState,
) -> QrLoginPollView {
    QrLoginPollView {
        state,
        challenge: lua::text_field(result, "challenge"@),
        poll_after_ms: milliseconds(result, "poll_after_ms"@),
        display_value: labels::label(dialect, result, "display_value"@),
        error: redact::redacted_localized(labels::label(dialect, result, "error"@)),
    }
}

pub fn read_qr_poll(
    dialect: Dialect,
    result: &LuaTable,
    state: QrLoginPollState,
) -> (r: Result<QrLoginPoll, Error>)
    ensures
        error::outcome(r, qr_poll_fault(dialect, *result), qr_poll_value(dialect, *result, state)),
{
    let context = "qrlogin.poll result";
    let challenge = optional_string(result, "challenge", context)?;
    let poll_after_ms = optional_milliseconds(result, "poll_after_ms")?;
    let display_value = read_label(dialect, result, "display_value", context)?;
    let error = read_label(dialect, result, "error", context)?;
    Ok(
        QrLoginPoll {
            state,
            challenge,
            poll_after_ms,
            display_value,
            error: redact_localized_text(&error),
        },
    )
}

// ---------------------------------------------------------------------------
// Subscriptions

pub open spec fn subscription_state(name: Seq<char>) -> SubscriptionState {
    if name == "subscribed"@ {
        SubscriptionState::Subscribed
    } else if name == "unsubscribed"@ {
        SubscriptionState::Unsubscribed
    } else {
        SubscriptionState::Unknown
    }
}

pub open spec fn subscription_fault(dialect: Dialect, result: LuaTable) -> Option<Fault> {
    match result.field("items"@) {
        LuaValue::Table(_) => labels::localized_only_fault(
            dialect,
            result,
            "error"@,
            "module.subscription.status result"@,
        ),
        _ => None,
    }
}

pub open spec fn subscription_items(items: LuaTable, ids: Seq<Seq<char>>) -> Seq<
    SubscriptionItemStateView,
> {
    ids.map_values(
        |id: Seq<char>|
            SubscriptionItemStateView { id, state: subscription_state(lua::text_field(items, id)) },
    )
}

/// The table of states that an answer wraps.
pub open spec fn wrapped_items(dialect: Dialect, result: LuaTable) -> Option<LuaTable> {
    match result.field("items"@) {
        LuaValue::Table(items) => if dialect.localized() {
            Some(items)
        } else {
            None
        },
        _ => None,
    }
}

/// The states come wrapped beside an error, or bare. In a plain dialect they
/// are always bare.
pub open spec fn subscription_value(
    dialect: Dialect,
    result: LuaTable,
    ids: Seq<Seq<char>>,
) -> SubscriptionStatusResultView {
    match wrapped_items(dialect, result) {
        Some(items) => SubscriptionStatusResultView {
            items: subscription_items(items, ids),
            error: redact::redacted_localized(labels::label(dialect, result, "error"@)),
        },
        None => SubscriptionStatusResultView {
            items: subscription_items(result, ids),
            error: LocalizedView::none(),
        },
    }
}

fn item_states(items: &LuaTable, ids: &Vec<String>) -> (out: Vec<SubscriptionItemState>)
    ensures
        views(out@) == subscription_items(*items, views(ids@)),
{
    let mut out: Vec<SubscriptionItemState> = Vec::new();
    let mut i: usize = 0;
    while i < ids.len()
        invariant
            i <= ids@.len(),
            views(out@) == subscription_items(*items, views(ids@).take(i as int)),
        decreases ids@.len() - i,
    {
        let name = lenient_text(items, ids[i].as_str());
        let state = if same(name.as_str(), "subscribed") {
            SubscriptionState::Subscribed
        } else if same(name.as_str(), "unsubscribed") {
            SubscriptionState::Unsubscribed
        } else {
            SubscriptionState::Unknown
        };
        let item = SubscriptionItemState { id: ids[i].clone(), state };
        proof {
            lemma_views_push(out@, item);
        }
        out.push(item);
        i = i + 1;
        assert(views(out@) =~= subscription_items(*items, views(ids@).take(i as int)));
    }
    assert(views(ids@).take(i as int) =~= views(ids@));
    out
}

pub fn read_subscription_status(
    dialect: Dialect,
    result: &LuaTable,
    ids: &Vec<String>,
) -> (r: Result<SubscriptionStatusResult, Error>)
    ensures
        error::outcome(r, subscription_fault(dialect, *result), subscription_value(dialect, *result, views(ids@))),
{
    if !dialect.is_localized() {
        return Ok(
            SubscriptionStatusResult {
                items: item_states(result, ids),
                error: LocalizedText::default(),
            },
        );
    }
    match result.get("items") {
        LuaValue::Table(items) => {
            let error = read_label(
                dialect,
                result,
                "error",
                "module.subscription.status result",
            )?;
            Ok(
                SubscriptionStatusResult {
                    items: item_states(items, ids),
                    error: redact_localized_text(&error),
                },
            )
        },
        _ => Ok(
            SubscriptionStatusResult {
                items: item_states(result, ids),
                error: LocalizedText::default(),
            },
        ),
    }
}

/// The fault of the answer to a change of a subscription. A plain dialect
/// answers a refused change with a failure.
pub open spec fn subscription_set_fault(
    dialect: Dialect,
    result: LuaTable,
    plugin: Seq<char>,
) -> Option<Fault> {
    let context = "module.subscription mutation result"@;
    if dialect.localized() {
        lua::localized_field_fault(result, "error"@, context)
    } else if result.field("accepted"@).truthy() {
        None
    } else {
        error::first(
            lua::optional_text_fault(result, "error"@, context),
            Some(failed(plugin, refusal(lua::text_field(result, "error"@)))),
        )
    }
}

/// Why a change of a subscription was refused.
pub open spec fn refusal(error: Seq<char>) -> Seq<char> {
    if error.len() == 0 {
        "subscription mutation was not accepted"@
    } else {
        redact::redacted(error)
    }
}

pub open spec fn subscription_set_value(
    dialect: Dialect,
    result: LuaTable,
) -> SubscriptionSetResultView {
    SubscriptionSetResultView {
        accepted: result.field("accepted"@).truthy(),
        error: redact::redacted_localized(labels::localized_only(dialect, result, "error"@)),
    }
}

pub fn read_subscription_set(dialect: Dialect, result: &LuaTable, plugin: &str) -> (r: Result<
    SubscriptionSetResult,
    Error,
>)
    ensures
        error::outcome(
            r,
            subscription_set_fault(dialect, *result, plugin@),
            subscription_set_value(dialect, *result),
        ),
{
    let context = "module.subscription mutation result";
    let accepted = result.get("accepted").to_bool();
    if !dialect.is_localized() && !accepted {
        let error = optional_string(result, "error", context)?;
        return if error.as_str().is_empty() {
            Err(fail(plugin, "subscription mutation was not accepted"))
        } else {
            Err(fail(plugin, redact_secrets(error.as_str()).as_str()))
        };
    }
    let error = labels::read_localized_only(dialect, result, "error", context)?;
    Ok(SubscriptionSetResult { accepted, error: redact_localized_text(&error) })
}

// ---------------------------------------------------------------------------
// Laws on the answers of plugins

/// A row of a scan is read exactly where it is a table with a name, a type and a
/// resource.
pub proof fn law_scan_rows(row: LuaValue)
    ensures
        scan_row_fault(row) is None <==> (row matches LuaValue::Table(t)
            && t.field("name"@).as_text() is Some && t.field("wp_type"@).as_text() is Some
            && t.field("resource"@).as_text() is Some),

{
}

/// Each wallpaper that a scan adds has what its row says, each under the key of
/// its name.
pub proof fn law_scanned_wallpaper(dialect: Dialect, rows: Seq<LuaValue>, plugin_name: Seq<char>, i: int)
    requires
        0 <= i < scan_value(dialect, rows, plugin_name).len(),
    ensures
        i < rows.len(),
        rows[i] matches LuaValue::Table(t) && {
            let e = scan_value(dialect, rows, plugin_name)[i];
            &&& t.field("name"@).as_text() == Some(e.name)
            &&& t.field("wp_type"@).as_text() == Some(e.wp_type)
            &&& t.field("resource"@).as_text() == Some(e.resource)
            &&& e.preview == t.field("preview"@).as_text()
            &&& e.description == t.field("description"@).as_text()
            &&& e.external_id == t.field("external_id"@).as_text()
            &&& e.content_rating == t.field("content_rating"@).as_text()
            &&& t.field("library_root"@).as_text() is Some ==> t.field("library_root"@).as_text()
                == Some(e.library_root)
            &&& t.field("library_root"@).as_text() is None ==> e.library_root.len() == 0
            &&& e.size is None
                <==> t.field("size"@).as_integer_within(i64::MIN as int, i64::MAX as int) is None
            &&& e.size matches Some(n)
                ==> t.field("size"@).as_integer_within(i64::MIN as int, i64::MAX as int)
                == Some(n as int)
            &&& e.width is None <==> t.field("width"@).as_integer_within(0, u32::MAX as int) is None
            &&& e.width matches Some(n) ==> t.field("width"@).as_integer_within(0, u32::MAX as int)
                == Some(n as int)
            &&& e.height is None
                <==> t.field("height"@).as_integer_within(0, u32::MAX as int) is None
            &&& e.height matches Some(n)
                ==> t.field("height"@).as_integer_within(0, u32::MAX as int) == Some(n as int)
            &&& e.plugin_name == plugin_name
            &&& dialect.localized() ==> e.web_url == t.field("web_url"@).as_text()
            &&& !dialect.localized() ==> e.web_url is None
            &&& e.item_id == 0 && e.create_at == 0 && e.modified_at is None
            &&& t.field("tags"@) matches LuaValue::Table(list)
                ==> if forall|k: int| 0 <= k < list.sequence@.len()
                ==> (#[trigger] list.sequence@[k]).as_text() is Some { e.tags.len()
                == list.sequence@.len() && forall|k: int| 0 <= k < list.sequence@.len()
                ==> (#[trigger] list.sequence@[k]).as_text()
                == Some(e.tags[k]) } else { e.tags.len() == 0 }
            &&& !(t.field("tags"@) is Table) ==> e.tags.len() == 0
        },

{
    lemma_sound_rows(rows, 0);
    assert(rows.take(sound_rows(rows, 0))[i] == rows[i]);
    if let LuaValue::Table(t) = rows[i] {
        lua::law_strings(t, "library_root"@, ""@);
    }
}

proof fn lemma_sound_rows(rows: Seq<LuaValue>, from: int)
    requires
        0 <= from <= rows.len(),
    ensures
        from <= sound_rows(rows, from) <= rows.len(),
        forall|j: int|
            from <= j < sound_rows(rows, from) ==> scan_row_fault(#[trigger] rows[j]) is None,
        sound_rows(rows, from) < rows.len() ==> scan_row_fault(rows[sound_rows(rows, from)])
            is Some,
    decreases rows.len() - from,
{
    if from < rows.len() && scan_row_fault(rows[from]) is None {
        lemma_sound_rows(rows, from + 1);
    }
}

/// A scan adds a wallpaper for every row before the first that cannot be read,
/// and succeeds exactly where there is no such row.
pub proof fn law_scan_stops_at_first_bad_row(
    dialect: Dialect,
    rows: Seq<LuaValue>,
    plugin_name: Seq<char>,
)
    ensures
        ({
            let n = scan_value(dialect, rows, plugin_name).len();
            &&& n <= rows.len()
            &&& forall|j: int|
                0 <= j < n ==> scan_row_fault(#[trigger] rows[j]) is None
            &&& n < rows.len() ==> scan_row_fault(rows[n as int]) is Some
            &&& scan_fault(rows) is None <==> n == rows.len()
        }),
{
    lemma_sound_rows(rows, 0);
    let fault = |i: int| scan_row_fault(rows[i]);
    error::lemma_first_of_none(rows.len() as int, fault);
    let n = sound_rows(rows, 0);
    if n < rows.len() {
        assert(fault(n) is Some);
    } else {
        assert forall|i: int| 0 <= i < rows.len() implies (#[trigger] fault(i)) is None by {
            assert(scan_row_fault(rows[i]) is None);
        }
    }
}

/// A row of a search is read exactly where it is a table with an id, a title, a
/// preview and an author, and what else it has is of the right kind.
pub proof fn law_search_rows(row: LuaValue, plugin: Seq<char>, i: int)
    ensures
        search_row_fault(row, plugin, i) is None <==> (row matches LuaValue::Table(t)
            && t.field("id"@).as_text() is Some && t.field("title"@).as_text() is Some
            && t.field("preview_url"@).as_text() is Some && t.field("author"@).as_text() is Some
            && (t.field("wp_type"@) is Nil || (t.field("wp_type"@) matches LuaValue::Text(s)
            && s.text is Some)) && (t.field("extra"@) is Nil
            || (t.field("extra"@) matches LuaValue::Table(table)
            && lua::text_map_defect(table) is None))),

{
}

/// Each item of an accepted search has what its row says, each under the key of
/// its name; its type is that of the source where the row gives none.
pub proof fn law_found_item(result: LuaTable, plugin: Seq<char>, default_wp_type: Seq<char>, i: int)
    requires
        search_fault(result, plugin) is None,
        0 <= i < search_value(result, default_wp_type).items.len(),
    ensures
        search_value(result, default_wp_type).has_more == result.field("has_more"@).truthy(),
        result.field("items"@) matches LuaValue::Table(list) && list.sequence@.len()
            == search_value(result, default_wp_type).items.len()
            && (list.sequence@[i] matches LuaValue::Table(t) && {
            let item = search_value(result, default_wp_type).items[i];
            &&& t.field("id"@).as_text() == Some(item.id)
            &&& t.field("title"@).as_text() == Some(item.title)
            &&& t.field("preview_url"@).as_text() == Some(item.preview_url)
            &&& t.field("author"@).as_text() == Some(item.author)
            &&& t.field("wp_type"@).as_text() matches Some(x) ==> x.len() > 0 ==> item.wp_type == x
            &&& t.field("wp_type"@) is Nil ==> item.wp_type == default_wp_type
            &&& item.extra == lua::text_map_field(t, "extra"@)
        }),

{
    if let LuaValue::Table(list) = result.field("items"@) {
        let fault = |i: int| search_row_fault(list.sequence@[i], plugin, i);
        error::lemma_first_of_none(list.sequence@.len() as int, fault);
        assert(fault(i) is None);
    }
}

/// A search is accepted exactly where its items are a table and every row of it
/// is read.
pub proof fn law_search_accepted(result: LuaTable, plugin: Seq<char>)
    ensures
        search_fault(result, plugin) is None <==> (result.field("items"@) matches LuaValue::Table(
            list,
        ) && forall|i: int|
            0 <= i < list.sequence@.len() ==> search_row_fault(
                #[trigger] list.sequence@[i],
                plugin,
                i,
            ) is None),
{
    if let LuaValue::Table(list) = result.field("items"@) {
        let fault = |i: int| search_row_fault(list.sequence@[i], plugin, i);
        error::lemma_first_of_none(list.sequence@.len() as int, fault);
        if search_fault(result, plugin) is None {
            assert forall|i: int| 0 <= i < list.sequence@.len() implies search_row_fault(
                #[trigger] list.sequence@[i],
                plugin,
                i,
            ) is None by {
                assert(fault(i) is None);
            }
        } else {
            let i = choose|i: int|
                0 <= i < list.sequence@.len() && (#[trigger] fault(i)) is Some;
            assert(search_row_fault(list.sequence@[i], plugin, i) is Some);
        }
    }
}

/// The details of an item are accepted exactly where what is required is there and
/// the rest is of the right kind; each stands under the key of its name.
pub proof fn law_details(t: LuaTable)
    ensures
        details_fault(t) is None <==> {
            &&& (t.field("author"@) is Nil || (t.field("author"@) matches LuaValue::Text(s)
                && s.text is Some))
            &&& t.field("description"@).as_text() is Some
            &&& t.field("size"@).as_text() is Some
            &&& (t.field("tags"@) matches LuaValue::Table(list)
                && forall|i: int| 0 <= i < list.sequence@.len()
                ==> (#[trigger] list.sequence@[i]).as_text() is Some)
            &&& (t.field("web_url"@) is Nil || (t.field("web_url"@) matches LuaValue::Text(s)
                && s.text is Some))
            &&& (t.field("extra"@) is Nil || (t.field("extra"@) matches LuaValue::Table(table)
                && lua::text_map_defect(table) is None))
        },
        details_fault(t) is None ==> ({
            let d = details_value(t);
            &&& t.field("author"@).as_text() is Some ==> t.field("author"@).as_text()
                == Some(d.author)
            &&& t.field("author"@).as_text() is None ==> d.author.len() == 0
            &&& t.field("description"@).as_text() == Some(d.description)
            &&& t.field("size"@).as_text() == Some(d.size)
            &&& d.width is None <==> t.field("width"@).as_integer_within(0, u32::MAX as int) is None
            &&& d.width matches Some(n) ==> t.field("width"@).as_integer_within(0, u32::MAX as int)
                == Some(n as int)
            &&& d.height is None
                <==> t.field("height"@).as_integer_within(0, u32::MAX as int) is None
            &&& d.height matches Some(n)
                ==> t.field("height"@).as_integer_within(0, u32::MAX as int) == Some(n as int)
            &&& t.field("tags"@) matches LuaValue::Table(list) ==> d.tags.len()
                == list.sequence@.len() && forall|k: int| 0 <= k < list.sequence@.len()
                ==> (#[trigger] list.sequence@[k]).as_text() == Some(d.tags[k])
            &&& !(t.field("tags"@) is Table) ==> d.tags.len() == 0
            &&& t.field("web_url"@).as_text() is Some ==> t.field("web_url"@).as_text()
                == Some(d.web_url)
            &&& t.field("web_url"@).as_text() is None ==> d.web_url.len() == 0
            &&& d.extra == lua::text_map_field(t, "extra"@)
        }),

{
    lua::law_string_lists(t, "tags"@, "module.discover.details result"@);
}

/// A download is accepted exactly where what is required is there and the rest is
/// of the right kind; each stands under the key of its name.
pub proof fn law_download(dialect: Dialect, t: LuaTable)
    ensures
        download_fault(dialect, t) is None <==> {
            &&& t.field("wp_type"@).as_text() is Some
            &&& (t.field("url"@) is Nil || (t.field("url"@) matches LuaValue::Text(s)
                && s.text is Some))
            &&& (t.field("filename"@) is Nil || (t.field("filename"@) matches LuaValue::Text(s)
                && s.text is Some))
            &&& t.field("title"@).as_text() is Some
            &&& (t.field("preview_url"@) is Nil
                || (t.field("preview_url"@) matches LuaValue::Text(s) && s.text is Some))
            &&& (t.field("description"@) is Nil
                || (t.field("description"@) matches LuaValue::Text(s) && s.text is Some))
            &&& (t.field("tags"@) is Nil || (t.field("tags"@) matches LuaValue::Table(list)
                && forall|i: int| 0 <= i < list.sequence@.len()
                ==> (#[trigger] list.sequence@[i]).as_text() is Some))
            &&& t.field("external_id"@).as_text() is Some
            &&& dialect.localized() ==> (t.field("web_url"@) is Nil
                || (t.field("web_url"@) matches LuaValue::Text(s) && s.text is Some))
        },
        download_fault(dialect, t) is None ==> ({
            let d = download_value(dialect, t);
            &&& t.field("wp_type"@).as_text() == Some(d.wp_type)
            &&& t.field("url"@).as_text() is Some ==> t.field("url"@).as_text() == Some(d.url)
            &&& t.field("url"@).as_text() is None ==> d.url.len() == 0
            &&& t.field("filename"@).as_text() is Some ==> t.field("filename"@).as_text()
                == Some(d.filename)
            &&& t.field("filename"@).as_text() is None ==> d.filename.len() == 0
            &&& t.field("title"@).as_text() == Some(d.title)
            &&& t.field("preview_url"@).as_text() is Some ==> t.field("preview_url"@).as_text()
                == Some(d.preview_url)
            &&& t.field("preview_url"@).as_text() is None ==> d.preview_url.len() == 0
            &&& t.field("description"@).as_text() is Some ==> t.field("description"@).as_text()
                == Some(d.description)
            &&& t.field("description"@).as_text() is None ==> d.description.len() == 0
            &&& t.field("tags"@) matches LuaValue::Table(list) ==> d.tags.len()
                == list.sequence@.len() && forall|k: int| 0 <= k < list.sequence@.len()
                ==> (#[trigger] list.sequence@[k]).as_text() == Some(d.tags[k])
            &&& !(t.field("tags"@) is Table) ==> d.tags.len() == 0
            &&& t.field("external_id"@).as_text() == Some(d.external_id)
            &&& d.size is None
                <==> t.field("size"@).as_integer_within(i64::MIN as int, i64::MAX as int) is None
            &&& d.size matches Some(n)
                ==> t.field("size"@).as_integer_within(i64::MIN as int, i64::MAX as int)
                == Some(n as int)
            &&& d.width is None <==> t.field("width"@).as_integer_within(0, u32::MAX as int) is None
            &&& d.width matches Some(n) ==> t.field("width"@).as_integer_within(0, u32::MAX as int)
                == Some(n as int)
            &&& d.height is None
                <==> t.field("height"@).as_integer_within(0, u32::MAX as int) is None
            &&& d.height matches Some(n)
                ==> t.field("height"@).as_integer_within(0, u32::MAX as int) == Some(n as int)
            &&& d.content_rating == t.field("content_rating"@).as_text()
            &&& dialect.localized() && t.field("web_url"@).as_text() is Some
                ==> t.field("web_url"@).as_text() == Some(d.web_url)
            &&& !dialect.localized() || t.field("web_url"@).as_text() is None ==> d.web_url.len()
                == 0
        }),

{
    lua::law_string_lists(t, "tags"@, "module.discover.download result"@);
}

/// A resolved item is accepted exactly where what is required is there and the
/// rest is of the right kind; each stands under the key of its name. An empty
/// preview is none.
pub proof fn law_resolved_item(t: LuaTable)
    ensures
        resolve_fault(t) is None <==> {
            &&& t.field("name"@).as_text() is Some
            &&& t.field("wp_type"@).as_text() is Some
            &&& t.field("resource"@).as_text() is Some
            &&& (t.field("description"@) is Nil
                || (t.field("description"@) matches LuaValue::Text(s) && s.text is Some))
            &&& (t.field("tags"@) is Nil || (t.field("tags"@) matches LuaValue::Table(list)
                && forall|i: int| 0 <= i < list.sequence@.len()
                ==> (#[trigger] list.sequence@[i]).as_text() is Some))
            &&& (t.field("external_id"@) is Nil
                || (t.field("external_id"@) matches LuaValue::Text(s) && s.text is Some))
        },
        resolve_fault(t) is None ==> ({
            let d = resolve_value(t);
            &&& t.field("name"@).as_text() == Some(d.name)
            &&& t.field("wp_type"@).as_text() == Some(d.wp_type)
            &&& t.field("resource"@).as_text() == Some(d.resource)
            &&& t.field("description"@).as_text() is Some ==> t.field("description"@).as_text()
                == Some(d.description)
            &&& t.field("description"@).as_text() is None ==> d.description.len() == 0
            &&& t.field("tags"@) matches LuaValue::Table(list) ==> d.tags.len()
                == list.sequence@.len() && forall|k: int| 0 <= k < list.sequence@.len()
                ==> (#[trigger] list.sequence@[k]).as_text() == Some(d.tags[k])
            &&& !(t.field("tags"@) is Table) ==> d.tags.len() == 0
            &&& t.field("external_id"@).as_text() is Some ==> t.field("external_id"@).as_text()
                == Some(d.external_id)
            &&& t.field("external_id"@).as_text() is None ==> d.external_id.len() == 0
            &&& d.size is None
                <==> t.field("size"@).as_integer_within(i64::MIN as int, i64::MAX as int) is None
            &&& d.size matches Some(n)
                ==> t.field("size"@).as_integer_within(i64::MIN as int, i64::MAX as int)
                == Some(n as int)
            &&& d.content_rating == t.field("content_rating"@).as_text()
            &&& d.preview matches Some(p) ==> p.len() > 0 && t.field("preview"@).as_text()
                == Some(p)
            &&& d.preview is None ==> t.field("preview"@).as_text() is None
                || t.field("preview"@).as_text() == Some(Seq::<char>::empty())
        }),

{
    lua::law_string_lists(t, "tags"@, "module.discover.resolve result"@);
    if let Some(p) = t.field("preview"@).as_text() {
        if p.len() == 0 {
            assert(p =~= Seq::<char>::empty());
        }
    }
}

/// What a plugin says of its sign-in is accepted exactly where the state has one
/// of the four names; it is the state of that name, the texts stand under the
/// keys of their names, and the error is redacted.
pub proof fn law_sign_in_state(dialect: Dialect, t: LuaTable)
    ensures
        check_fault(dialect, t) is None <==> {
            &&& (t.field("state"@).as_text() == Some("signed_out"@) || t.field("state"@).as_text()
                == Some("signed_in"@) || t.field("state"@).as_text() == Some("expired"@)
                || t.field("state"@).as_text() == Some("error"@))
            &&& labels::label_fault(dialect, t, "display_value"@, "module.lifecycle.check result"@) is None
            &&& labels::label_fault(dialect, t, "error"@, "module.lifecycle.check result"@) is None
            &&& (t.field("avatar_url"@) is Nil || (t.field("avatar_url"@) matches LuaValue::Text(s)
                && s.text is Some))
        },
        check_fault(dialect, t) is None ==> ({
            let c = check_value(dialect, t);
            &&& c.state is SignedOut <==> t.field("state"@).as_text() == Some("signed_out"@)
            &&& c.state is SignedIn <==> t.field("state"@).as_text() == Some("signed_in"@)
            &&& c.state is Expired <==> t.field("state"@).as_text() == Some("expired"@)
            &&& c.state is Error <==> t.field("state"@).as_text() == Some("error"@)
            &&& c.display_value == labels::label(dialect, t, "display_value"@)
            &&& c.error == redact::redacted_localized(labels::label(dialect, t, "error"@))
            &&& t.field("avatar_url"@).as_text() is Some ==> t.field("avatar_url"@).as_text()
                == Some(c.avatar_url)
            &&& t.field("avatar_url"@).as_text() is None ==> c.avatar_url.len() == 0
        }),

{
    reveal_strlit("signed_out");
    reveal_strlit("signed_in");
    reveal_strlit("expired");
    reveal_strlit("error");
    assert("signed_out"@ != "signed_in"@) by {
        assert("signed_out"@.len() != "signed_in"@.len());
    }
    assert("signed_out"@ != "expired"@) by {
        assert("signed_out"@.len() != "expired"@.len());
    }
    assert("signed_out"@ != "error"@) by {
        assert("signed_out"@.len() != "error"@.len());
    }
    assert("signed_in"@ != "expired"@) by {
        assert("signed_in"@.len() != "expired"@.len());
    }
    assert("signed_in"@ != "error"@) by {
        assert("signed_in"@.len() != "error"@.len());
    }
    assert("expired"@ != "error"@) by {
        assert("expired"@.len() != "error"@.len());
    }
}

/// A QR login begins exactly where the plugin gives a key and a challenge and the
/// rest is of the right kind; without a pause it is polled each second.
pub proof fn law_qr_challenge(dialect: Dialect, t: LuaTable)
    ensures
        qr_begin_fault(dialect, t) is None <==> {
            &&& !(t.field("key"@) is Nil)
            &&& t.field("challenge"@).as_text() is Some
            &&& (t.field("poll_after_ms"@) is Nil
                || t.field("poll_after_ms"@).as_integer_within(0, u64::MAX as int) is Some)
            &&& (t.field("expires_in_ms"@) is Nil
                || t.field("expires_in_ms"@).as_integer_within(0, u64::MAX as int) is Some)
            &&& labels::label_fault(dialect, t, "title"@, "qrlogin.begin result"@) is None
            &&& labels::label_fault(dialect, t, "instruction"@, "qrlogin.begin result"@) is None
        },
        qr_begin_fault(dialect, t) is None ==> ({
            let c = qr_begin_value(dialect, t);
            &&& t.field("challenge"@).as_text() == Some(c.challenge)
            &&& c.title == labels::label(dialect, t, "title"@)
            &&& c.instruction == labels::label(dialect, t, "instruction"@)
            &&& c.expires_in_ms is None
                <==> t.field("expires_in_ms"@).as_integer_within(0, u64::MAX as int) is None
            &&& c.expires_in_ms matches Some(n)
                ==> t.field("expires_in_ms"@).as_integer_within(0, u64::MAX as int)
                == Some(n as int)
            &&& t.field("poll_after_ms"@) is Nil ==> c.poll_after_ms == 1000
            &&& !(t.field("poll_after_ms"@) is Nil)
                ==> t.field("poll_after_ms"@).as_integer_within(0, u64::MAX as int)
                == Some(c.poll_after_ms as int)
        }),

{
}

/// The state of a QR login is the one of the six whose name the plugin gives; any
/// other name is refused. A login that has succeeded, expired or failed has
/// ended.
pub proof fn law_qr_poll_state(t: LuaTable)
    ensures
        qr_state_fault(t) is None <==> (t.field("state"@).as_text() == Some("awaiting_scan"@)
            || t.field("state"@).as_text() == Some("awaiting_confirmation"@)
            || t.field("state"@).as_text() == Some("challenge_changed"@)
            || t.field("state"@).as_text() == Some("succeeded"@) || t.field("state"@).as_text()
            == Some("expired"@) || t.field("state"@).as_text() == Some("failed"@)),
        qr_state_fault(t) is None ==> ({
            let state = qr_poll_state(lua::text_field(t, "state"@))->0;
            &&& state is AwaitingScan <==> t.field("state"@).as_text() == Some("awaiting_scan"@)
            &&& state is AwaitingConfirmation <==> t.field("state"@).as_text()
                == Some("awaiting_confirmation"@)
            &&& state is ChallengeChanged <==> t.field("state"@).as_text()
                == Some("challenge_changed"@)
            &&& state is Succeeded <==> t.field("state"@).as_text() == Some("succeeded"@)
            &&& state is Expired <==> t.field("state"@).as_text() == Some("expired"@)
            &&& state is Failed <==> t.field("state"@).as_text() == Some("failed"@)
            &&& is_terminal(state) <==> t.field("state"@).as_text() == Some("succeeded"@)
                || t.field("state"@).as_text() == Some("expired"@) || t.field("state"@).as_text()
                == Some("failed"@)
        }),

{
    reveal_strlit("awaiting_scan");
    reveal_strlit("awaiting_confirmation");
    reveal_strlit("challenge_changed");
    reveal_strlit("succeeded");
    reveal_strlit("expired");
    reveal_strlit("failed");
    assert("awaiting_scan"@ != "awaiting_confirmation"@) by {
        assert("awaiting_scan"@.len() != "awaiting_confirmation"@.len());
    }
    assert("awaiting_scan"@ != "challenge_changed"@) by {
        assert("awaiting_scan"@.len() != "challenge_changed"@.len());
    }
    assert("awaiting_scan"@ != "succeeded"@) by {
        assert("awaiting_scan"@.len() != "succeeded"@.len());
    }
    assert("awaiting_scan"@ != "expired"@) by {
        assert("awaiting_scan"@.len() != "expired"@.len());
    }
    assert("awaiting_scan"@ != "failed"@) by {
        assert("awaiting_scan"@.len() != "failed"@.len());
    }
    assert("awaiting_confirmation"@ != "challenge_changed"@) by {
        assert("awaiting_confirmation"@.len() != "challenge_changed"@.len());
    }
    assert("awaiting_confirmation"@ != "succeeded"@) by {
        assert("awaiting_confirmation"@.len() != "succeeded"@.len());
    }
    assert("awaiting_confirmation"@ != "expired"@) by {
        assert("awaiting_confirmation"@.len() != "expired"@.len());
    }
    assert("awaiting_confirmation"@ != "failed"@) by {
        assert("awaiting_confirmation"@.len() != "failed"@.len());
    }
    assert("challenge_changed"@ != "succeeded"@) by {
        assert("challenge_changed"@.len() != "succeeded"@.len());
    }
    assert("challenge_changed"@ != "expired"@) by {
        assert("challenge_changed"@.len() != "expired"@.len());
    }
    assert("challenge_changed"@ != "failed"@) by {
        assert("challenge_changed"@.len() != "failed"@.len());
    }
    assert("succeeded"@ != "expired"@) by {
        assert("succeeded"@.len() != "expired"@.len());
    }
    assert("succeeded"@ != "failed"@) by {
        assert("succeeded"@.len() != "failed"@.len());
    }
    assert("expired"@ != "failed"@) by {
        assert("expired"@.len() != "failed"@.len());
    }
}

/// What a plugin tells of a running QR login stands under the keys of their names;
/// the error is redacted.
pub proof fn law_qr_poll(dialect: Dialect, t: LuaTable, state: QrLoginPollState)
    ensures
        qr_poll_fault(dialect, t) is None <==> {
            &&& (t.field("challenge"@) is Nil || (t.field("challenge"@) matches LuaValue::Text(s)
                && s.text is Some))
            &&& (t.field("poll_after_ms"@) is Nil
                || t.field("poll_after_ms"@).as_integer_within(0, u64::MAX as int) is Some)
            &&& labels::label_fault(dialect, t, "display_value"@, "qrlogin.poll result"@) is None
            &&& labels::label_fault(dialect, t, "error"@, "qrlogin.poll result"@) is None
        },
        qr_poll_fault(dialect, t) is None ==> ({
            let p = qr_poll_value(dialect, t, state);
            &&& p.state == state
            &&& t.field("challenge"@).as_text() is Some ==> t.field("challenge"@).as_text()
                == Some(p.challenge)
            &&& t.field("challenge"@).as_text() is None ==> p.challenge.len() == 0
            &&& p.poll_after_ms is None
                <==> t.field("poll_after_ms"@).as_integer_within(0, u64::MAX as int) is None
            &&& p.poll_after_ms matches Some(n)
                ==> t.field("poll_after_ms"@).as_integer_within(0, u64::MAX as int)
                == Some(n as int)
            &&& p.display_value == labels::label(dialect, t, "display_value"@)
            &&& p.error == redact::redacted_localized(labels::label(dialect, t, "error"@))
        }),

{
}

/// Each asked item has the state that the plugin names under its id, in the
/// order of the ids, and is unknown where it names neither; the states may stand
/// in a table of their own beside an error.
pub proof fn law_subscription_states(dialect: Dialect, t: LuaTable, ids: Seq<Seq<char>>, i: int)
    requires
        0 <= i < ids.len(),
    ensures
        ({
            let r = subscription_value(dialect, t, ids);
            let states = if dialect.localized() && t.field("items"@) is Table {
                t.field("items"@)->Table_0
            } else {
                t
            };
            &&& r.items.len() == ids.len()
            &&& r.items[i].id == ids[i]
            &&& r.items[i].state is Subscribed <==> states.field(ids[i]).as_text() == Some(
                "subscribed"@,
            )
            &&& r.items[i].state is Unsubscribed <==> states.field(ids[i]).as_text() == Some(
                "unsubscribed"@,
            )
            &&& dialect.localized() && t.field("items"@) is Table ==> r.error
                == redact::redacted_localized(lua::localized_field(t, "error"@))
            &&& !(dialect.localized() && t.field("items"@) is Table) ==> r.error.text().len() == 0
        }),
        subscription_fault(dialect, t) is None <==> (dialect.localized()
            && t.field("items"@) is Table
            ==> lua::localized_field_fault(t, "error"@, "module.subscription.status result"@)
            is None),
{
    reveal_strlit("subscribed");
    reveal_strlit("unsubscribed");
    assert("subscribed"@.len() != "unsubscribed"@.len());
}

/// A change of a subscription is answered as the plugin says; where a plain
/// plugin does not accept it, it fails.
pub proof fn law_subscription_change(dialect: Dialect, t: LuaTable, plugin: Seq<char>)
    ensures
        subscription_set_value(dialect, t).accepted <==> t.field("accepted"@).truthy(),
        dialect.localized() ==> subscription_set_value(dialect, t).error
            == redact::redacted_localized(lua::localized_field(t, "error"@)),
        dialect.localized() ==> (subscription_set_fault(dialect, t, plugin) is None
            <==> lua::localized_field_fault(t, "error"@, "module.subscription mutation result"@)
            is None),
        !dialect.localized() ==> (subscription_set_fault(dialect, t, plugin) is None <==> t.field(
            "accepted"@,
        ).truthy()),
        !dialect.localized() && !t.field("accepted"@).truthy() && t.field("error"@) is Nil
            ==> subscription_set_fault(dialect, t, plugin) == Some(
            Fault::DiscoverFailed { plugin, message: "subscription mutation was not accepted"@ },
        ),
{
}

/// An action is shown with the flags that the plugin gives under its id, and
/// with both where it gives none; nothing else of it changes.
pub proof fn law_shown_action(t: LuaTable, actions: Seq<SourceActionView>, i: int)
    requires
        0 <= i < actions.len(),
    ensures
        ({
            let shown = shown_actions(t, actions)[i];
            let a = actions[i];
            &&& shown_actions(t, actions).len() == actions.len()
            &&& shown.id == a.id && shown.label == a.label && shown.description == a.description
            &&& shown.kind == a.kind && shown.fields == a.fields && shown.order == a.order
            &&& t.field("actions"@) matches LuaValue::Table(values) ==> (values.field(
                a.id,
            ) matches LuaValue::Table(state) ==> {
                &&& state.field("visible"@) matches LuaValue::Boolean(b) ==> shown.visible == b
                &&& state.field("enabled"@) matches LuaValue::Boolean(b) ==> shown.enabled == b
                &&& state.field("visible"@) is Nil ==> shown.visible
                &&& state.field("enabled"@) is Nil ==> shown.enabled
            })
            &&& !(t.field("actions"@) is Table) ==> shown == a
            &&& t.field("actions"@) matches LuaValue::Table(values)
                ==> (!(values.field(a.id) is Table)
                ==> shown == a)
        }),
{
}

/// A status row shows what the plugin says under its id; nothing else of it
/// changes.
pub proof fn law_shown_status(dialect: Dialect, t: LuaTable, rows: Seq<SourceStatusView>, i: int)
    requires
        0 <= i < rows.len(),
    ensures
        ({
            let shown = shown_status(dialect, t, rows)[i];
            let row = rows[i];
            &&& shown_status(dialect, t, rows).len() == rows.len()
            &&& shown.id == row.id && shown.label == row.label && shown.order == row.order
            &&& shown.group == row.group && shown.group_label == row.group_label
            &&& t.field("status"@) matches LuaValue::Table(values) ==> shown.value == labels::label(
                dialect,
                values,
                row.id,
            )
            &&& !(t.field("status"@) is Table) ==> shown == row
        }),
{
}

/// An applied wallpaper has the extras and the properties that the plugin gives
/// under their keys; the whole answer of a plain plugin is the extras.
pub proof fn law_applied_wallpaper(dialect: Dialect, t: LuaTable)
    ensures
        dialect.localized() ==> (apply_fault(dialect, t) is None <==> lua::text_map_fault(
            t,
            "extras"@,
            "wallpaper.apply result"@,
        ) is None && lua::text_map_fault(t, "default_user_properties"@, "wallpaper.apply result"@)
            is None),
        !dialect.localized() ==> (apply_fault(dialect, t) is None <==> lua::text_map_defect(t)
            is None),
        dialect.localized() ==> apply_value(dialect, t).extras == lua::text_map_field(t, "extras"@)
            && apply_value(dialect, t).default_user_properties == lua::text_map_field(
            t,
            "default_user_properties"@,
        ),
        !dialect.localized() ==> apply_value(dialect, t).extras == lua::text_map(t) && apply_value(
            dialect,
            t,
        ).default_user_properties == Map::<Seq<char>, Seq<char>>::empty(),
{
}

// ---------------------------------------------------------------------------
// What is told of what is refused

/// What is told of details that are refused: the first field that is wrong.
pub proof fn law_refused_details(result: LuaTable)
    ensures
        ({
            let author = lua::optional_text_fault(
                result,
                "author"@,
                "module.discover.details result"@,
            );
            let tags = lua::required_texts_fault(
                result,
                "tags"@,
                "module.discover.details result"@,
            );
            let web_url = lua::optional_text_fault(
                result,
                "web_url"@,
                "module.discover.details result"@,
            );
            let extra = lua::text_map_fault(result, "extra"@, "module.discover.details result"@);
            details_fault(result) == (if author is Some {
                author
            } else if result.field("description"@).as_text() is None {
                Some(
                    Fault::Internal(
                        "module.discover.details result"@ + "."@ + "description"@
                            + (" required: "@ + lua::not_text(result.field("description"@))),
                    ),
                )
            } else if result.field("size"@).as_text() is None {
                Some(
                    Fault::Internal(
                        "module.discover.details result"@ + "."@ + "size"@ + (" required: "@
                            + lua::not_text(result.field("size"@))),
                    ),
                )
            } else if tags is Some {
                tags
            } else if web_url is Some {
                web_url
            } else if extra is Some {
                extra
            } else {
                None
            })
        }),
{
}

/// What is told of a download that is refused: the first field that is wrong.
pub proof fn law_refused_download(dialect: Dialect, result: LuaTable)
    ensures
        ({
            let url = lua::optional_text_fault(result, "url"@, "module.discover.download result"@);
            let filename = lua::optional_text_fault(
                result,
                "filename"@,
                "module.discover.download result"@,
            );
            let preview_url = lua::optional_text_fault(
                result,
                "preview_url"@,
                "module.discover.download result"@,
            );
            let description = lua::optional_text_fault(
                result,
                "description"@,
                "module.discover.download result"@,
            );
            let tags = lua::optional_texts_fault(
                result,
                "tags"@,
                "module.discover.download result"@,
            );
            let web_url = if dialect.localized() {
                lua::optional_text_fault(result, "web_url"@, "module.discover.download result"@)
            } else {
                None
            };
            download_fault(dialect, result) == (if result.field("wp_type"@).as_text() is None {
                Some(
                    Fault::Internal(
                        "module.discover.download result"@ + "."@ + "wp_type"@ + (" required: "@
                            + lua::not_text(result.field("wp_type"@))),
                    ),
                )
            } else if url is Some {
                url
            } else if filename is Some {
                filename
            } else if result.field("title"@).as_text() is None {
                Some(
                    Fault::Internal(
                        "module.discover.download result"@ + "."@ + "title"@ + (" required: "@
                            + lua::not_text(result.field("title"@))),
                    ),
                )
            } else if preview_url is Some {
                preview_url
            } else if description is Some {
                description
            } else if tags is Some {
                tags
            } else if result.field("external_id"@).as_text() is None {
                Some(
                    Fault::Internal(
                        "module.discover.download result"@ + "."@ + "external_id"@
                            + (" required: "@ + lua::not_text(result.field("external_id"@))),
                    ),
                )
            } else if web_url is Some {
                web_url
            } else {
                None
            })
        }),
{
}

/// What is told of a resolved item that is refused: the first field that is
/// wrong.
pub proof fn law_refused_resolved_item(result: LuaTable)
    ensures
        ({
            let description = lua::optional_text_fault(
                result,
                "description"@,
                "module.discover.resolve result"@,
            );
            let tags = lua::optional_texts_fault(
                result,
                "tags"@,
                "module.discover.resolve result"@,
            );
            let external_id = lua::optional_text_fault(
                result,
                "external_id"@,
                "module.discover.resolve result"@,
            );
            resolve_fault(result) == (if result.field("name"@).as_text() is None {
                Some(
                    Fault::Internal(
                        "module.discover.resolve result"@ + "."@ + "name"@ + (" required: "@
                            + lua::not_text(result.field("name"@))),
                    ),
                )
            } else if result.field("wp_type"@).as_text() is None {
                Some(
                    Fault::Internal(
                        "module.discover.resolve result"@ + "."@ + "wp_type"@ + (" required: "@
                            + lua::not_text(result.field("wp_type"@))),
                    ),
                )
            } else if result.field("resource"@).as_text() is None {
                Some(
                    Fault::Internal(
                        "module.discover.resolve result"@ + "."@ + "resource"@ + (" required: "@
                            + lua::not_text(result.field("resource"@))),
                    ),
                )
            } else if description is Some {
                description
            } else if tags is Some {
                tags
            } else if external_id is Some {
                external_id
            } else {
                None
            })
        }),
{
}

/// What is told of a sign-in state that is refused: the first field that is
/// wrong.
pub proof fn law_refused_sign_in_state(dialect: Dialect, result: LuaTable)
    ensures
        ({
            let name = lua::text_field(result, "state"@);
            let display_value = labels::label_fault(
                dialect,
                result,
                "display_value"@,
                "module.lifecycle.check result"@,
            );
            let error = labels::label_fault(
                dialect,
                result,
                "error"@,
                "module.lifecycle.check result"@,
            );
            let avatar_url = lua::optional_text_fault(
                result,
                "avatar_url"@,
                "module.lifecycle.check result"@,
            );
            check_fault(dialect, result) == (if result.field("state"@).as_text() is None {
                Some(
                    Fault::Internal(
                        "module.lifecycle.check result"@ + "."@ + "state"@ + (" required: "@
                            + lua::not_text(result.field("state"@))),
                    ),
                )
            } else if !(lifecycle_state(name) is Some) {
                Some(
                    Fault::Internal(
                        "module.lifecycle.check returned unknown state '"@ + name + "'"@,
                    ),
                )
            } else if display_value is Some {
                display_value
            } else if error is Some {
                error
            } else if avatar_url is Some {
                avatar_url
            } else {
                None
            })
        }),
{
}

/// What is told of shown actions and status that are refused.
pub proof fn law_refused_shown_state(
    dialect: Dialect,
    result: LuaTable,
    actions: Seq<SourceActionView>,
    rows: Seq<SourceStatusView>,
)
    ensures
        ({
            let status = lua::optional_table_fault(
                result,
                "status"@,
                "module.actions.status result"@,
            );
            let status_part = match lua::table_field(result, "status"@) {
                Some(values) => status_rows_fault(dialect, values, rows),
                None => None,
            };
            let actions_part = lua::optional_table_fault(
                result,
                "actions"@,
                "module.actions.status result"@,
            );
            let actions_parts = match lua::table_field(result, "actions"@) {
                Some(values) => action_rows_fault(values, actions),
                None => None,
            };
            action_status_fault(dialect, result, actions, rows) == (if status is Some {
                status
            } else if status_part is Some {
                status_part
            } else if actions_part is Some {
                actions_part
            } else if actions_parts is Some {
                actions_parts
            } else {
                None
            })
        }),
{
}

/// A time is told of where it is there and no number of milliseconds.
pub proof fn law_refused_time(t: LuaTable, key: Seq<char>)
    ensures
        ({
            milliseconds_fault(t, key) == (if !(t.field(key) is Nil
                || t.field(key).as_integer_within(0, u64::MAX as int) is Some) {
                Some(Fault::Internal(lua::not_integer(t.field(key), "u64"@)))
            } else {
                None
            })
        }),
{
}

/// What is told of a login challenge that is refused: the first field that is
/// wrong.
pub proof fn law_refused_challenge(dialect: Dialect, result: LuaTable)
    ensures
        ({
            let poll_after_ms = milliseconds_fault(result, "poll_after_ms"@);
            let expires_in_ms = milliseconds_fault(result, "expires_in_ms"@);
            let title = labels::label_fault(dialect, result, "title"@, "qrlogin.begin result"@);
            let instruction = labels::label_fault(
                dialect,
                result,
                "instruction"@,
                "qrlogin.begin result"@,
            );
            qr_begin_fault(dialect, result) == (if result.field("key"@) is Nil {
                Some(Fault::Internal("qrlogin.begin result"@ + "."@ + "key"@ + " must not be nil"@))
            } else if result.field("challenge"@).as_text() is None {
                Some(
                    Fault::Internal(
                        "qrlogin.begin result"@ + "."@ + "challenge"@ + (" required: "@
                            + lua::not_text(result.field("challenge"@))),
                    ),
                )
            } else if poll_after_ms is Some {
                poll_after_ms
            } else if expires_in_ms is Some {
                expires_in_ms
            } else if title is Some {
                title
            } else if instruction is Some {
                instruction
            } else {
                None
            })
        }),
{
}

/// A login state is told of where it is none or not known.
pub proof fn law_refused_login_state(result: LuaTable)
    ensures
        ({
            let name = lua::text_field(result, "state"@);
            qr_state_fault(result) == (if result.field("state"@).as_text() is None {
                Some(
                    Fault::Internal(
                        "qrlogin.poll result"@ + "."@ + "state"@ + (" required: "@
                            + lua::not_text(result.field("state"@))),
                    ),
                )
            } else if !(qr_poll_state(name) is Some) {
                Some(Fault::Internal("qrlogin.poll returned unknown state '"@ + name + "'"@))
            } else {
                None
            })
        }),
{
}

/// What is told of an answer on a login that is refused: the first field that is
/// wrong.
pub proof fn law_refused_login_answer(dialect: Dialect, result: LuaTable)
    ensures
        ({
            let challenge = lua::optional_text_fault(result, "challenge"@, "qrlogin.poll result"@);
            let poll_after_ms = milliseconds_fault(result, "poll_after_ms"@);
            let display_value = labels::label_fault(
                dialect,
                result,
                "display_value"@,
                "qrlogin.poll result"@,
            );
            let error = labels::label_fault(dialect, result, "error"@, "qrlogin.poll result"@);
            qr_poll_fault(dialect, result) == (if challenge is Some {
                challenge
            } else if poll_after_ms is Some {
                poll_after_ms
            } else if display_value is Some {
                display_value
            } else if error is Some {
                error
            } else {
                None
            })
        }),
{
}

/// What is told of a row of a scan that is refused: that it is no table, or the
/// first of its required texts that is none.
pub proof fn law_refused_scan_row(row: LuaValue)
    ensures
        ({
            let place = "module.source.scan result"@;
            &&& !(row is Table) ==> scan_row_fault(row) == Some(
                Fault::Internal(lua::not_a(row, "table"@)),
            )
            &&& row matches LuaValue::Table(t) ==> scan_row_fault(row) == (if t.field(
                "name"@,
            ).as_text() is None {
                lua::required_text_fault(t, "name"@, place)
            } else if t.field("wp_type"@).as_text() is None {
                lua::required_text_fault(t, "wp_type"@, place)
            } else {
                lua::required_text_fault(t, "resource"@, place)
            })
        }),
{
}

/// What is told of a found item that is refused: that it is no table, or the
/// first of its fields that is wrong, each by its place in the list.
pub proof fn law_refused_search_row(row: LuaValue, plugin: Seq<char>, i: int)
    ensures
        ({
            let place = lua::numbered("module.discover.search result.items"@, i);
            &&& !(row is Table) ==> search_row_fault(row, plugin, i) == Some(
                Fault::DiscoverFailed {
                    plugin,
                    message: lua::numbered("discover.search result.items"@, i)
                        + " must be a table: "@ + lua::not_a(row, "table"@),
                },
            )
            &&& row matches LuaValue::Table(t) ==> search_row_fault(row, plugin, i) == (if t.field(
                "id"@,
            ).as_text() is None {
                lua::required_text_fault(t, "id"@, place)
            } else if t.field("title"@).as_text() is None {
                lua::required_text_fault(t, "title"@, place)
            } else if t.field("preview_url"@).as_text() is None {
                lua::required_text_fault(t, "preview_url"@, place)
            } else if t.field("author"@).as_text() is None {
                lua::required_text_fault(t, "author"@, place)
            } else if lua::optional_text_fault(t, "wp_type"@, place) is Some {
                lua::optional_text_fault(t, "wp_type"@, place)
            } else {
                lua::text_map_fault(t, "extra"@, place)
            })
        }),
{
}

/// A search is refused where it has no list of items, or for the first item that
/// is refused.
pub proof fn law_refused_search(result: LuaTable, plugin: Seq<char>, items: LuaTable, i: int)
    ensures
        !(result.field("items"@) is Table) ==> search_fault(result, plugin) == Some(
            Fault::DiscoverFailed {
                plugin,
                message: "discover.search result.items required: "@ + lua::not_a(
                    result.field("items"@),
                    "table"@,
                ),
            },
        ),
        result.field("items"@) == LuaValue::Table(items) && 0 <= i < items.sequence@.len()
            && search_row_fault(items.sequence@[i], plugin, i) is Some && (forall|j: int|
            0 <= j < i ==> search_row_fault(#[trigger] items.sequence@[j], plugin, j) is None)
            ==> search_fault(result, plugin) == search_row_fault(items.sequence@[i], plugin, i),
{
    let faults = |j: int| search_row_fault(items.sequence@[j], plugin, j);
    if 0 <= i < items.sequence@.len() {
        error::law_first_fault(items.sequence@.len() as int, faults, i);
        if forall|j: int|
            0 <= j < i ==> search_row_fault(#[trigger] items.sequence@[j], plugin, j) is None {
            assert forall|j: int| 0 <= j < i implies (#[trigger] faults(j)) is None by {
                let item = items.sequence@[j];
            }
        }
    }
}

/// What is told of an answer on applying a wallpaper that is refused.
pub proof fn law_refused_application(dialect: Dialect, result: LuaTable)
    ensures
        dialect.localized() ==> apply_fault(dialect, result) == (if lua::text_map_fault(
            result,
            "extras"@,
            "wallpaper.apply result"@,
        ) is Some {
            lua::text_map_fault(result, "extras"@, "wallpaper.apply result"@)
        } else {
            lua::text_map_fault(result, "default_user_properties"@, "wallpaper.apply result"@)
        }),
        !dialect.localized() ==> apply_fault(dialect, result) == (
        match lua::text_map_defect(result) {
            Some(why) => Some(Fault::Internal(why)),
            None => None,
        }),
{
}

/// What is told of the shown state of an action or of a row that is refused.
pub proof fn law_refused_shown_rows(
    dialect: Dialect,
    values: LuaTable,
    id: Seq<char>,
    action: SourceActionView,
    state: LuaTable,
)
    ensures
        dialect.localized() ==> status_row_fault(dialect, values, id) == lua::localized_field_fault(
            values,
            id,
            "module.actions.status result.status"@,
        ),
        !dialect.localized() ==> status_row_fault(dialect, values, id) is None,
        !(values.field(action.id) is Table) ==> action_row_fault(values, action) is None,
        values.field(action.id) == LuaValue::Table(state) ==> action_row_fault(values, action) == (
        if lua::optional_bool_fault(
            state,
            "visible"@,
            "module.actions.status result.actions"@,
        ) is Some {
            lua::optional_bool_fault(state, "visible"@, "module.actions.status result.actions"@)
        } else {
            lua::optional_bool_fault(state, "enabled"@, "module.actions.status result.actions"@)
        }),
{
}

/// What is told of an answer on subscriptions that is refused. A change that is
/// not accepted is told with the plugin's own reason, without its secrets, or
/// with a plain one where it gives none.
pub proof fn law_refused_subscriptions(dialect: Dialect, result: LuaTable, plugin: Seq<char>)
    ensures
        dialect.localized() && result.field("items"@) is Table ==> subscription_fault(
            dialect,
            result,
        ) == lua::localized_field_fault(result, "error"@, "module.subscription.status result"@),
        !dialect.localized() || !(result.field("items"@) is Table) ==> subscription_fault(
            dialect,
            result,
        ) is None,
        dialect.localized() ==> subscription_set_fault(dialect, result, plugin)
            == lua::localized_field_fault(
            result,
            "error"@,
            "module.subscription mutation result"@,
        ),
        !dialect.localized() && result.field("accepted"@).truthy() ==> subscription_set_fault(
            dialect,
            result,
            plugin,
        ) is None,
        !dialect.localized() && !result.field("accepted"@).truthy() ==> subscription_set_fault(
            dialect,
            result,
            plugin,
        ) == (if lua::optional_text_fault(
            result,
            "error"@,
            "module.subscription mutation result"@,
        ) is Some {
            lua::optional_text_fault(result, "error"@, "module.subscription mutation result"@)
        } else if lua::text_field(result, "error"@).len() == 0 {
            Some(
                Fault::DiscoverFailed {
                    plugin,
                    message: "subscription mutation was not accepted"@,
                },
            )
        } else {
            Some(
                Fault::DiscoverFailed {
                    plugin,
                    message: redact::redacted(lua::text_field(result, "error"@)),
                },
            )
        }),
{
}

/// The texts of a list that can be read are taken in their order, the others
/// passed over.
pub proof fn law_readable_texts(items: Seq<LuaValue>, n: int)
    requires
        0 <= n < items.len(),
    ensures
        readable_texts(items, 0).len() == 0,
        items[n].as_text() matches Some(text) ==> readable_texts(items, n + 1) == readable_texts(
            items,
            n,
        ).push(text),
        items[n].as_text() is None ==> readable_texts(items, n + 1) == readable_texts(items, n),
{
}

/// What is said of a `QrChallenge` is said of its own fields.
pub proof fn law_qr_challenge_in_contracts(challenge: QrChallenge)
    ensures
        challenge@.challenge == challenge.challenge@,
        challenge@.poll_after_ms == challenge.poll_after_ms,
        challenge@.expires_in_ms == challenge.expires_in_ms,
        challenge@.title == challenge.title@,
        challenge@.instruction == challenge.instruction@,
{
}

} // verus!
