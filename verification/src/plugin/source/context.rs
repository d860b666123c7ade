//! What the code of a source plugin finds around it: imports, translations, and
//! the tables that are handed to its callbacks.
use vstd::prelude::*;
use crate::path;
use crate::path::{join_path, starts_with};
use crate::plugin::i18n::{LocalizedText, LocalizedView, MessageView};
use crate::plugin::lua;
use crate::plugin::lua::{explain_utf8, LuaField, LuaString, LuaTable, LuaValue};
use crate::plugin::source::redact;
use crate::plugin::source::redact::redact_secrets;
use crate::plugin::source::schema;
use crate::text;
use crate::text::{
    chars_of, decimal_i64, join_texts, lemma_views_push, same, split_text, view_of, views,
};
use crate::wallpaper::types::{WallpaperEntry, WallpaperEntryView};

verus! {

// ---------------------------------------------------------------------------
// Imports

/// A piece of a module name that names a file or a directory.
pub open spec fn valid_part(part: Seq<char>) -> bool {
    part.len() > 0 && part != ".."@ && part != "."@ && !part.contains('/') && !part.contains('\\')
}

pub open spec fn valid_import(name: Seq<char>) -> bool {
    let parts = text::split(name, '.');
    forall|i: int| 0 <= i < parts.len() ==> valid_part(#[trigger] parts[i])
}

/// Where a module may stand: in a file of its name, or in the directory of its
/// name.
pub open spec fn import_file(root: Seq<char>, name: Seq<char>) -> Seq<char> {
    path::joined(root, text::join(text::split(name, '.'), "/"@)) + ".lua"@
}

pub open spec fn import_directory(root: Seq<char>, name: Seq<char>) -> Seq<char> {
    path::joined(root, text::join(text::split(name, '.'), "/"@)) + "/init.lua"@
}

fn holds_char(chars: &Vec<char>, wanted: char) -> (r: bool)
    ensures
        r == chars@.contains(wanted),
{
    let mut i: usize = 0;
    while i < chars.len()
        invariant
            i <= chars@.len(),
            forall|j: int| 0 <= j < i ==> chars@[j] != wanted,
        decreases chars@.len() - i,
    {
        if chars[i] == wanted {
            return true;
        }
        i = i + 1;
    }
    false
}

fn check_part(part: &str) -> (r: bool)
    ensures
        r == valid_part(part@),
{
    let chars = chars_of(part);
    !part.is_empty() && !same(part, "..") && !same(part, ".") && !holds_char(&chars, '/')
        && !holds_char(&chars, '\\')
}

/// The files that a module may stand in, in the order in which they are tried.
pub fn import_candidates(root: &str, name: &str) -> (r: Result<(String, String), String>)
    ensures
        match r {
            Ok((file, directory)) => valid_import(name@) && file@ == import_file(root@, name@)
                && directory@ == import_directory(root@, name@),
            Err(message) => !valid_import(name@) && message@ == "invalid import module name: "@
                + name@,
        },
{
    let parts = split_text(name, '.');
    let ghost all = text::split(name@, '.');
    let mut i: usize = 0;
    while i < parts.len()
        invariant
            i <= parts@.len(),
            all == text::split(name@, '.'),
            views(parts@) == all,
            forall|j: int| 0 <= j < i ==> valid_part(#[trigger] all[j]),
        decreases parts@.len() - i,
    {
        assert(all[i as int] == parts@[i as int]@);
        if !check_part(parts[i].as_str()) {
            let mut message = "invalid import module name: ".to_owned();
            message.append(name);
            return Err(message);
        }
        i = i + 1;
    }
    let rel = join_texts(&parts, "/");
    let mut file = join_path(root, rel.as_str());
    let mut directory = file.clone();
    file.append(".lua");
    directory.append("/init.lua");
    Ok((file, directory))
}

/// A file that was found lies in the directory of the plugin.
pub open spec fn importable(root: Seq<char>, found: Option<Seq<char>>) -> bool {
    found is Some && path::within(root, found->0)
}

/// The file that an import reads. `file` and `directory` are the two candidates
/// with their links resolved, where they are files.
pub fn resolve_plugin_import(
    root: &str,
    name: &str,
    file: Option<String>,
    directory: Option<String>,
) -> (r: Result<String, String>)
    ensures
        match r {
            Ok(found) => {
                &&& valid_import(name@)
                &&& path::within(root@, found@)
                &&& if importable(root@, view_of(file)) {
                    view_of(file) == Some(found@)
                } else {
                    view_of(directory) == Some(found@)
                }
            },
            Err(message) => if !valid_import(name@) {
                message@ == "invalid import module name: "@ + name@
            } else {
                &&& !importable(root@, view_of(file))
                &&& !importable(root@, view_of(directory))
                &&& message@ == "module not found: "@ + name@
            },
        },
{
    let _ = import_candidates(root, name)?;
    if let Some(found) = file {
        if starts_with(found.as_str(), root) {
            return Ok(found);
        }
    }
    if let Some(found) = directory {
        if starts_with(found.as_str(), root) {
            return Ok(found);
        }
    }
    let mut message = "module not found: ".to_owned();
    message.append(name);
    Err(message)
}

// ---------------------------------------------------------------------------
// Translations

pub const MAX_LOCALIZED_ARGUMENTS: usize = 16;

/// An argument of `tr()` as text.
pub open spec fn argument_text(value: LuaValue) -> Option<Seq<char>> {
    match value {
        LuaValue::Text(string) => view_of(string.text),
        LuaValue::Integer(n) => Some(text::decimal(n as int)),
        LuaValue::Number(n) => Some(n.shown@),
        LuaValue::Boolean(b) => Some(
            if b {
                "true"@
            } else {
                "false"@
            },
        ),
        _ => None,
    }
}

pub open spec fn argument_fault(value: LuaValue) -> Option<Seq<char>> {
    match value {
        LuaValue::Text(string) => if string.text is Some {
            None
        } else {
            Some(lua::not_utf8(string))
        },
        value => if argument_text(value) is Some {
            None
        } else {
            Some("tr arguments must be strings, numbers, or booleans, got "@ + value.kind())
        },
    }
}

/// The first argument from `i` on that cannot be shown.
pub open spec fn arguments_fault(arguments: Seq<LuaValue>, i: int) -> Option<Seq<char>>
    decreases arguments.len() - i,
{
    if i >= arguments.len() {
        None
    } else if argument_fault(arguments[i]) is Some {
        argument_fault(arguments[i])
    } else {
        arguments_fault(arguments, i + 1)
    }
}

/// Why a call of `tr()` is refused.
pub open spec fn tr_fault(arguments: Seq<LuaValue>) -> Option<Seq<char>> {
    if arguments.len() == 0 || arguments.len() > MAX_LOCALIZED_ARGUMENTS + 1 {
        Some("tr requires a msgid and at most 16 arguments"@)
    } else {
        match arguments[0] {
            LuaValue::Text(string) => match string.text {
                None => Some(lua::not_utf8(string)),
                Some(msgid) => if msgid@.len() == 0 {
                    Some("tr msgid must not be empty"@)
                } else {
                    arguments_fault(arguments, 1)
                },
            },
            other => Some("tr msgid must be a string, got "@ + other.kind()),
        }
    }
}

pub open spec fn tr_value(plugin_id: Seq<char>, arguments: Seq<LuaValue>) -> LocalizedView {
    LocalizedView::Message(
        MessageView {
            plugin_id,
            msgid: argument_text(arguments[0])->0,
            arguments: arguments.skip(1).map_values(|value: LuaValue| argument_text(value)->0),
        },
    )
}

fn show_argument(value: &LuaValue) -> (r: Result<String, String>)
    ensures
        match r {
            Ok(text) => argument_fault(*value) is None && argument_text(*value) == Some(text@),
            Err(message) => argument_fault(*value) == Some(message@),
        },
{
    match value {
        LuaValue::Text(string) => match &string.text {
            Some(text) => Ok(text.clone()),
            None => Err(explain_utf8(string)),
        },
        LuaValue::Integer(n) => Ok(decimal_i64(*n)),
        LuaValue::Number(n) => Ok(n.shown.clone()),
        LuaValue::Boolean(b) => if *b {
            Ok("true".to_owned())
        } else {
            Ok("false".to_owned())
        },
        other => {
            let mut message = "tr arguments must be strings, numbers, or booleans, got ".to_owned();
            message.append(other.kind_name());
            Err(message)
        },
    }
}

/// Marks a text of a plugin as one to be translated.
pub fn tr(plugin_id: &str, arguments: &Vec<LuaValue>) -> (r: Result<LocalizedText, String>)
    ensures
        match r {
            Ok(text) => tr_fault(arguments@) is None && text@ == tr_value(
                plugin_id@,
                arguments@,
            ),
            Err(message) => tr_fault(arguments@) == Some(message@),
        },
{
    if arguments.len() == 0 || arguments.len() > MAX_LOCALIZED_ARGUMENTS + 1 {
        return Err("tr requires a msgid and at most 16 arguments".to_owned());
    }
    let msgid = match &arguments[0] {
        LuaValue::Text(string) => match &string.text {
            Some(text) => text.clone(),
            None => {
                return Err(explain_utf8(string));
            },
        },
        other => {
            let mut message = "tr msgid must be a string, got ".to_owned();
            message.append(other.kind_name());
            return Err(message);
        },
    };
    if msgid.as_str().is_empty() {
        return Err("tr msgid must not be empty".to_owned());
    }
    let ghost shown = |value: LuaValue| argument_text(value)->0;
    let mut texts: Vec<String> = Vec::new();
    let mut i: usize = 1;
    assert(views(texts@) =~= arguments@.subrange(1, 1).map_values(shown));
    while i < arguments.len()
        invariant
            1 <= i <= arguments@.len(),
            shown == (|value: LuaValue| argument_text(value)->0),
            tr_fault(arguments@) == arguments_fault(arguments@, i as int),
            views(texts@) == arguments@.subrange(1, i as int).map_values(shown),
        decreases arguments@.len() - i,
    {
        let text = show_argument(&arguments[i])?;
        proof {
            lemma_views_push(texts@, text);
        }
        texts.push(text);
        i = i + 1;
        assert(views(texts@) =~= arguments@.subrange(1, i as int).map_values(shown));
    }
    assert(arguments@.subrange(1, i as int) =~= arguments@.skip(1));
    Ok(LocalizedText::translated_with_arguments(plugin_id, msgid.as_str(), texts))
}

// ---------------------------------------------------------------------------
// A wallpaper as a table

/// A value in a field of a table that is handed to callbacks.
pub enum EntryValue {
    Text(Seq<char>),
    Number(int),
    Texts(Seq<Seq<char>>),
}

pub struct EntryField {
    pub key: Seq<char>,
    pub value: EntryValue,
}

pub open spec fn text_entry(key: Seq<char>, text: Seq<char>) -> EntryField {
    EntryField { key, value: EntryValue::Text(text) }
}

pub open spec fn some_entry(key: Seq<char>, text: Option<Seq<char>>) -> Seq<EntryField> {
    match text {
        Some(text) => seq![text_entry(key, text)],
        None => Seq::empty(),
    }
}

pub open spec fn number_entry(key: Seq<char>, number: Option<int>) -> Seq<EntryField> {
    match number {
        Some(n) => seq![EntryField { key, value: EntryValue::Number(n) }],
        None => Seq::empty(),
    }
}

pub open spec fn tags_entry(tags: Seq<Seq<char>>) -> Seq<EntryField> {
    if tags.len() > 0 {
        seq![EntryField { key: "tags"@, value: EntryValue::Texts(tags) }]
    } else {
        Seq::empty()
    }
}

/// The place of the wallpaper in its library, where it has one.
pub open spec fn library_entry(entry: WallpaperEntryView, relative: Option<Seq<char>>) -> Seq<
    EntryField,
> {
    if entry.library_root.len() > 0 {
        seq![text_entry("library_root"@, entry.library_root)] + some_entry(
            "relative_path"@,
            relative,
        )
    } else {
        Seq::empty()
    }
}

pub open spec fn base_entry(entry: WallpaperEntryView) -> Seq<EntryField> {
    seq![
        text_entry("id"@, text::decimal(entry.item_id as int)),
        EntryField { key: "item_id"@, value: EntryValue::Number(entry.item_id as int) },
        text_entry("name"@, entry.name),
        text_entry("wp_type"@, entry.wp_type),
        text_entry("path"@, entry.resource),
        text_entry("resource"@, entry.resource),
    ]
}

/// The fields of the table that a wallpaper is handed over as.
pub open spec fn entry_fields(entry: WallpaperEntryView, relative: Option<Seq<char>>) -> Seq<
    EntryField,
> {
    base_entry(entry) + some_entry("preview"@, entry.preview) + library_entry(entry, relative)
        + some_entry("description"@, entry.description) + tags_entry(entry.tags) + some_entry(
        "external_id"@,
        entry.external_id,
    ) + some_entry("web_url"@, entry.web_url) + number_entry(
        "size"@,
        match entry.size {
            Some(n) => Some(n as int),
            None => None,
        },
    ) + number_entry(
        "width"@,
        match entry.width {
            Some(n) => Some(n as int),
            None => None,
        },
    ) + number_entry(
        "height"@,
        match entry.height {
            Some(n) => Some(n as int),
            None => None,
        },
    ) + some_entry("content_rating"@, entry.content_rating)
}

pub open spec fn holds_entry(field: LuaField, entry: EntryField) -> bool {
    field.key@ == entry.key && match entry.value {
        EntryValue::Text(text) => schema::is_text(field.value, text),
        EntryValue::Number(n) => field.value matches LuaValue::Integer(m) && m as int == n,
        EntryValue::Texts(texts) => field.value matches LuaValue::Table(list) && schema::are_texts(
            list.sequence@,
            texts,
        ) && list.fields@.len() == 0 && list.others@.len() == 0,
    }
}

pub open spec fn hold_entries(fields: Seq<LuaField>, entries: Seq<EntryField>) -> bool {
    fields.len() == entries.len() && forall|i: int|
        0 <= i < fields.len() ==> holds_entry(#[trigger] fields[i], entries[i])
}

pub(crate) fn text_value(text: &str) -> (value: LuaValue)
    ensures
        schema::is_text(value, text@),
{
    LuaValue::Text(LuaString { text: Some(text.to_owned()), defect: String::new(), whole: None })
}

fn put_text(fields: &mut Vec<LuaField>, key: &str, text: &str)
    ensures
        forall|entries: Seq<EntryField>| #[trigger]
            hold_entries(old(fields)@, entries) ==> hold_entries(
                final(fields)@,
                entries.push(text_entry(key@, text@)),
            ),
{
    fields.push(LuaField { key: key.to_owned(), value: text_value(text) });
}

fn put_some(fields: &mut Vec<LuaField>, key: &str, text: &Option<String>)
    ensures
        forall|entries: Seq<EntryField>| #[trigger]
            hold_entries(old(fields)@, entries) ==> hold_entries(
                final(fields)@,
                entries + some_entry(key@, view_of(*text)),
            ),
{
    match text {
        Some(text) => {
            let ghost before = fields@;
            put_text(fields, key, text.as_str());
            proof {
                assert forall|entries: Seq<EntryField>| #[trigger]
                    hold_entries(before, entries) implies hold_entries(
                    fields@,
                    entries + some_entry(key@, Some(text@)),
                ) by {
                    assert(entries + some_entry(key@, Some(text@)) =~= entries.push(
                        text_entry(key@, text@),
                    ));
                }
            }
        },
        None => {
            proof {
                assert forall|entries: Seq<EntryField>| #[trigger]
                    hold_entries(fields@, entries) implies hold_entries(
                    fields@,
                    entries + some_entry(key@, None),
                ) by {
                    assert(entries + some_entry(key@, None) =~= entries);
                }
            }
        },
    }
}

fn put_number(fields: &mut Vec<LuaField>, key: &str, number: Option<i64>)
    ensures
        forall|entries: Seq<EntryField>| #[trigger]
            hold_entries(old(fields)@, entries) ==> hold_entries(
                final(fields)@,
                entries + number_entry(
                    key@,
                    match number {
                        Some(n) => Some(n as int),
                        None => None,
                    },
                ),
            ),
{
    match number {
        Some(n) => {
            let ghost before = fields@;
            fields.push(LuaField { key: key.to_owned(), value: LuaValue::Integer(n) });
            proof {
                assert forall|entries: Seq<EntryField>| #[trigger]
                    hold_entries(before, entries) implies hold_entries(
                    fields@,
                    entries + number_entry(key@, Some(n as int)),
                ) by {
                    let next = EntryField { key: key@, value: EntryValue::Number(n as int) };
                    assert(entries + number_entry(key@, Some(n as int)) =~= entries.push(next));
                }
            }
        },
        None => {
            proof {
                assert forall|entries: Seq<EntryField>| #[trigger]
                    hold_entries(fields@, entries) implies hold_entries(
                    fields@,
                    entries + number_entry(key@, None),
                ) by {
                    assert(entries + number_entry(key@, None) =~= entries);
                }
            }
        },
    }
}

/// Texts as a list.
pub fn text_list(texts: &Vec<String>) -> (list: LuaTable)
    ensures
        schema::are_texts(list.sequence@, views(texts@)),
        list.fields@.len() == 0,
        list.others@.len() == 0,
{
    let mut sequence: Vec<LuaValue> = Vec::new();
    let mut i: usize = 0;
    while i < texts.len()
        invariant
            i <= texts@.len(),
            sequence@.len() == i,
            forall|j: int|
                0 <= j < i ==> schema::is_text(#[trigger] sequence@[j], views(texts@)[j]),
        decreases texts@.len() - i,
    {
        assert(views(texts@)[i as int] == texts@[i as int]@);
        sequence.push(text_value(texts[i].as_str()));
        i = i + 1;
    }
    LuaTable { fields: Vec::new(), sequence, others: Vec::new() }
}

fn put_tags(fields: &mut Vec<LuaField>, tags: &Vec<String>)
    ensures
        forall|entries: Seq<EntryField>| #[trigger]
            hold_entries(old(fields)@, entries) ==> hold_entries(
                final(fields)@,
                entries + tags_entry(views(tags@)),
            ),
{
    let ghost before = fields@;
    if tags.len() > 0 {
        fields.push(LuaField { key: "tags".to_owned(), value: LuaValue::Table(text_list(tags)) });
    }
    proof {
        assert forall|entries: Seq<EntryField>| #[trigger]
            hold_entries(before, entries) implies hold_entries(
            fields@,
            entries + tags_entry(views(tags@)),
        ) by {
            if tags@.len() > 0 {
                let next = EntryField { key: "tags"@, value: EntryValue::Texts(views(tags@)) };
                assert(entries + tags_entry(views(tags@)) =~= entries.push(next));
            } else {
                assert(entries + tags_entry(views(tags@)) =~= entries);
            }
        }
    }
}

fn wide(n: Option<u32>) -> (r: Option<i64>)
    ensures
        match n {
            Some(n) => r == Some(n as i64),
            None => r is None,
        },
{
    match n {
        Some(n) => Some(n as i64),
        None => None,
    }
}

fn put_library(fields: &mut Vec<LuaField>, entry: &WallpaperEntry, relative: &Option<String>)
    ensures
        forall|entries: Seq<EntryField>| #[trigger]
            hold_entries(old(fields)@, entries) ==> hold_entries(
                final(fields)@,
                entries + library_entry(entry@, view_of(*relative)),
            ),
{
    let ghost before = fields@;
    if !entry.library_root.as_str().is_empty() {
        put_text(fields, "library_root", entry.library_root.as_str());
        put_some(fields, "relative_path", relative);
    }
    proof {
        assert forall|entries: Seq<EntryField>| #[trigger]
            hold_entries(before, entries) implies hold_entries(
            fields@,
            entries + library_entry(entry@, view_of(*relative)),
        ) by {
            if entry@.library_root.len() > 0 {
                let root = text_entry("library_root"@, entry@.library_root);
                let rest = some_entry("relative_path"@, view_of(*relative));
                assert(entries + library_entry(entry@, view_of(*relative)) =~= entries.push(root)
                    + rest);
            } else {
                assert(entries + library_entry(entry@, view_of(*relative)) =~= entries);
            }
        }
    }
}

/// A wallpaper as the table that is handed to callbacks. `relative` is its place
/// in its library.
pub fn wallpaper_entry_table(entry: &WallpaperEntry, relative: &Option<String>) -> (t: LuaTable)
    ensures
        hold_entries(t.fields@, entry_fields(entry@, view_of(*relative))),
        t.sequence@.len() == 0,
        t.others@.len() == 0,
{
    let mut fields: Vec<LuaField> = Vec::new();
    let ghost mut done = Seq::<EntryField>::empty();
    assert(hold_entries(fields@, done));
    let number = decimal_i64(entry.item_id);
    put_text(&mut fields, "id", number.as_str());
    put_number(&mut fields, "item_id", Some(entry.item_id));
    put_text(&mut fields, "name", entry.name.as_str());
    put_text(&mut fields, "wp_type", entry.wp_type.as_str());
    put_text(&mut fields, "path", entry.resource.as_str());
    put_text(&mut fields, "resource", entry.resource.as_str());
    proof {
        let one = done.push(text_entry("id"@, text::decimal(entry.item_id as int)));
        let two = one + number_entry("item_id"@, Some(entry.item_id as int));
        let three = two.push(text_entry("name"@, entry@.name));
        let four = three.push(text_entry("wp_type"@, entry@.wp_type));
        let five = four.push(text_entry("path"@, entry@.resource));
        let six = five.push(text_entry("resource"@, entry@.resource));
        assert(hold_entries(fields@, six));
        assert(six =~= base_entry(entry@));
    }
    put_some(&mut fields, "preview", &entry.preview);
    put_library(&mut fields, entry, relative);
    put_some(&mut fields, "description", &entry.description);
    put_tags(&mut fields, &entry.tags);
    put_some(&mut fields, "external_id", &entry.external_id);
    put_some(&mut fields, "web_url", &entry.web_url);
    put_number(&mut fields, "size", entry.size);
    put_number(&mut fields, "width", wide(entry.width));
    put_number(&mut fields, "height", wide(entry.height));
    put_some(&mut fields, "content_rating", &entry.content_rating);
    LuaTable { fields, sequence: Vec::new(), others: Vec::new() }
}

// ---------------------------------------------------------------------------
// Files

/// The most that is read of a file at once.
pub const READ_LIMIT: u64 = 1_048_576;

/// A file is read whole only if it is small.
pub fn read_whole(size: u64) -> (r: bool)
    ensures
        r == (size <= READ_LIMIT),
{
    size <= READ_LIMIT
}

/// Where a window into a file begins and how long it is; none where what is
/// asked for is no window.
pub fn read_window(offset: i64, len: i64) -> (r: Option<(u64, u64)>)
    ensures
        match r {
            Some((from, count)) => 0 <= offset && 0 < len <= READ_LIMIT && from as int
                == offset as int && count as int == len as int,
            None => offset < 0 || len <= 0 || len > READ_LIMIT,
        },
{
    if offset < 0 || len <= 0 || len as u64 > READ_LIMIT {
        None
    } else {
        Some((offset as u64, len as u64))
    }
}

/// The size of a file, where Lua can hold it.
pub fn file_size(size: u64) -> (r: Option<i64>)
    ensures
        match r {
            Some(n) => n as int == size as int,
            None => size > i64::MAX,
        },
{
    if size <= 0x7fff_ffff_ffff_ffff {
        Some(size as i64)
    } else {
        None
    }
}

/// A plugin removes directories only below its own remote directory.
pub fn check_remove_dir(root: &str, target: &str, path: &str) -> (r: Result<(), String>)
    ensures
        match r {
            Ok(_) => path::within(root@, target@),
            Err(message) => !path::within(root@, target@) && message@ == "remove_dir refused: "@
                + path@ + " is outside the plugin remote directory"@,
        },
{
    if starts_with(target, root) {
        Ok(())
    } else {
        let mut message = "remove_dir refused: ".to_owned();
        message.append(path);
        message.append(" is outside the plugin remote directory");
        Err(message)
    }
}

pub open spec fn probe_fields(size: Option<i64>, width: Option<u32>, height: Option<u32>) -> Seq<
    EntryField,
> {
    number_entry(
        "size"@,
        match size {
            Some(n) => Some(n as int),
            None => None,
        },
    ) + number_entry(
        "width"@,
        match width {
            Some(n) => Some(n as int),
            None => None,
        },
    ) + number_entry(
        "height"@,
        match height {
            Some(n) => Some(n as int),
            None => None,
        },
    )
}

/// What a probe of a file has found; nothing where it found nothing.
pub fn probe_table(size: Option<i64>, width: Option<u32>, height: Option<u32>) -> (r: Option<
    LuaTable,
>)
    ensures
        match r {
            Some(t) => {
                &&& size is Some || width is Some || height is Some
                &&& hold_entries(t.fields@, probe_fields(size, width, height))
                &&& t.sequence@.len() == 0
                &&& t.others@.len() == 0
            },
            None => size is None && width is None && height is None,
        },
{
    if size.is_none() && width.is_none() && height.is_none() {
        return None;
    }
    let mut fields: Vec<LuaField> = Vec::new();
    let ghost none = Seq::<EntryField>::empty();
    assert(hold_entries(fields@, none));
    put_number(&mut fields, "size", size);
    put_number(&mut fields, "width", wide(width));
    put_number(&mut fields, "height", wide(height));
    proof {
        let a = number_entry(
            "size"@,
            match size {
                Some(n) => Some(n as int),
                None => None,
            },
        );
        assert(none + a =~= a);
    }
    Some(LuaTable { fields, sequence: Vec::new(), others: Vec::new() })
}

/// A line that a plugin writes to the log.
pub fn log_line(plugin: &Option<String>, message: &str) -> (line: String)
    ensures
        line@ == (match plugin {
            Some(name) => "[lua:"@ + name@ + "] "@,
            None => "[lua] "@,
        }) + redact::redacted(message@),
{
    let mut line = match plugin {
        Some(name) => {
            let mut line = "[lua:".to_owned();
            line.append(name.as_str());
            line.append("] ");
            line
        },
        None => "[lua] ".to_owned(),
    };
    let shown = redact_secrets(message);
    line.append(shown.as_str());
    line
}

/// The parts of an import's name are neither empty nor `.` nor `..`, and hold
/// no slash of either kind.
pub proof fn law_names_of_imports(name: Seq<char>)
    ensures
        valid_import(name) <==> forall|i: int|
            0 <= i < text::split(name, '.').len() ==> {
                let part = #[trigger] text::split(name, '.')[i];
                &&& part.len() > 0
                &&& part != "."@
                &&& part != ".."@
                &&& !part.contains('/')
                &&& !part.contains('\\')
            },
{
    let parts = text::split(name, '.');
    if valid_import(name) {
        assert forall|i: int| 0 <= i < parts.len() implies {
            let part = #[trigger] parts[i];
            &&& part.len() > 0
            &&& part != "."@
            &&& part != ".."@
            &&& !part.contains('/')
            &&& !part.contains('\\')
        } by {
            assert(valid_part(parts[i]));
        }
    }
    if forall|i: int|
        0 <= i < parts.len() ==> {
            let part = #[trigger] parts[i];
            &&& part.len() > 0
            &&& part != "."@
            &&& part != ".."@
            &&& !part.contains('/')
            &&& !part.contains('\\')
        } {
        assert forall|i: int| 0 <= i < parts.len() implies valid_part(#[trigger] parts[i]) by {
            let part = parts[i];
            assert(part.len() > 0);
        }
    }
}

/// A module is looked for below the plugin's directory, each dot of its name a
/// slash: as a file with the extension `lua`, or as `init.lua` in a directory.
pub proof fn law_files_of_imports(root: Seq<char>, name: Seq<char>)
    ensures
        import_file(root, name) == path::joined(
            root,
            text::join(text::split(name, '.'), "/"@),
        ) + ".lua"@,
        import_directory(root, name) == path::joined(
            root,
            text::join(text::split(name, '.'), "/"@),
        ) + "/init.lua"@,
        !name.contains('.') ==> import_file(root, name) == path::joined(root, name) + ".lua"@,
        !name.contains('.') ==> import_directory(root, name) == path::joined(root, name)
            + "/init.lua"@,
{
    if !name.contains('.') {
        text::law_one_piece(name, '.');
    }
}

/// What was found is taken only from within the plugin's directory.
pub proof fn law_imports_stay_within(root: Seq<char>, found: Seq<char>)
    ensures
        importable(root, Some(found)) <==> path::within(root, found),
        !importable(root, None),
{
}

/// The texts of arguments: of a text itself, of a number its plain form, of a
/// flag its name; nothing else is one.
pub proof fn law_texts_of_arguments(n: i64, string: LuaString, table: LuaTable)
    ensures
        argument_text(LuaValue::Integer(n)) == Some(text::decimal(n as int)),
        argument_text(LuaValue::Boolean(true)) == Some("true"@),
        argument_text(LuaValue::Boolean(false)) == Some("false"@),
        argument_text(LuaValue::Text(string)) == view_of(string.text),
        argument_text(LuaValue::Nil) is None,
        argument_text(LuaValue::Table(table)) is None,
        argument_fault(LuaValue::Integer(n)) is None,
        argument_fault(LuaValue::Boolean(true)) is None,
        argument_fault(LuaValue::Boolean(false)) is None,
        string.text is Some ==> argument_fault(LuaValue::Text(string)) is None,
        argument_fault(LuaValue::Nil) == Some(
            "tr arguments must be strings, numbers, or booleans, got "@ + LuaValue::Nil.kind(),
        ),
        argument_fault(LuaValue::Table(table)) == Some(
            "tr arguments must be strings, numbers, or booleans, got "@ + LuaValue::Table(
                table,
            ).kind(),
        ),
{
}

/// A translation takes one message id that is not empty and at most sixteen
/// arguments, each of them a text, a number or a flag.
pub proof fn law_accepted_translations(arguments: Seq<LuaValue>)
    ensures
        tr_fault(arguments) is None <==> {
            &&& 1 <= arguments.len() <= 17
            &&& arguments[0] matches LuaValue::Text(string)
            &&& string.text matches Some(msgid)
            &&& msgid@.len() > 0
            &&& forall|i: int|
                1 <= i < arguments.len() ==> argument_fault(#[trigger] arguments[i]) is None
        },
        arguments.len() == 0 || arguments.len() > 17 ==> tr_fault(arguments) == Some(
            "tr requires a msgid and at most 16 arguments"@,
        ),
{
    if 1 <= arguments.len() <= 17 {
        lemma_arguments_fault(arguments, 1);
    }
}

proof fn lemma_arguments_fault(arguments: Seq<LuaValue>, i: int)
    requires
        0 <= i,
    ensures
        arguments_fault(arguments, i) is None <==> forall|j: int|
            i <= j < arguments.len() ==> argument_fault(#[trigger] arguments[j]) is None,
    decreases arguments.len() - i,
{
    if i < arguments.len() {
        lemma_arguments_fault(arguments, i + 1);
        assert(arguments[i] == arguments[i]);
    }
}

/// A translation names the plugin and the message id, and holds the texts of
/// the arguments in their order.
pub proof fn law_translations(plugin_id: Seq<char>, arguments: Seq<LuaValue>, i: int)
    requires
        arguments.len() > 0,
        1 <= i < arguments.len(),
    ensures
        tr_value(plugin_id, arguments) matches LocalizedView::Message(message) && {
            &&& message.plugin_id == plugin_id
            &&& argument_text(arguments[0]) is Some ==> argument_text(arguments[0]) == Some(
                message.msgid,
            )
            &&& message.arguments.len() == arguments.len() - 1
            &&& argument_text(arguments[i]) is Some ==> argument_text(arguments[i]) == Some(
                message.arguments[i - 1],
            )
        },
{
}

/// What a plugin is told of every wallpaper: its number as a text and as a
/// number, its name and type, and its resource under both names.
pub proof fn law_told_of_every_wallpaper(entry: WallpaperEntryView, relative: Option<Seq<char>>)
    ensures
        entry_fields(entry, relative).len() >= 6,
        entry_fields(entry, relative)[0] == (EntryField {
            key: "id"@,
            value: EntryValue::Text(text::decimal(entry.item_id as int)),
        }),
        entry_fields(entry, relative)[1] == (EntryField {
            key: "item_id"@,
            value: EntryValue::Number(entry.item_id as int),
        }),
        entry_fields(entry, relative)[2] == (EntryField {
            key: "name"@,
            value: EntryValue::Text(entry.name),
        }),
        entry_fields(entry, relative)[3] == (EntryField {
            key: "wp_type"@,
            value: EntryValue::Text(entry.wp_type),
        }),
        entry_fields(entry, relative)[4] == (EntryField {
            key: "path"@,
            value: EntryValue::Text(entry.resource),
        }),
        entry_fields(entry, relative)[5] == (EntryField {
            key: "resource"@,
            value: EntryValue::Text(entry.resource),
        }),
{
}

/// What else is known of a wallpaper is told under its name, and what is not
/// known is left out: the fields are those that are known, one after another.
pub proof fn law_told_where_known(entry: WallpaperEntryView, relative: Option<Seq<char>>)
    ensures
        base_entry(entry).len() == 6,
        entry_fields(entry, relative) == base_entry(entry) + (match entry.preview {
            Some(s) => seq![EntryField { key: "preview"@, value: EntryValue::Text(s) }],
            None => Seq::empty(),
        }) + (if entry.library_root.len() > 0 {
            seq![
                EntryField {
                    key: "library_root"@,
                    value: EntryValue::Text(entry.library_root),
                },
            ] + (match relative {
                Some(s) => seq![EntryField { key: "relative_path"@, value: EntryValue::Text(s) }],
                None => Seq::empty(),
            })
        } else {
            Seq::empty()
        }) + (match entry.description {
            Some(s) => seq![EntryField { key: "description"@, value: EntryValue::Text(s) }],
            None => Seq::empty(),
        }) + (if entry.tags.len() > 0 {
            seq![EntryField { key: "tags"@, value: EntryValue::Texts(entry.tags) }]
        } else {
            Seq::empty()
        }) + (match entry.external_id {
            Some(s) => seq![EntryField { key: "external_id"@, value: EntryValue::Text(s) }],
            None => Seq::empty(),
        }) + (match entry.web_url {
            Some(s) => seq![EntryField { key: "web_url"@, value: EntryValue::Text(s) }],
            None => Seq::empty(),
        }) + (match entry.size {
            Some(n) => seq![EntryField { key: "size"@, value: EntryValue::Number(n as int) }],
            None => Seq::empty(),
        }) + (match entry.width {
            Some(n) => seq![EntryField { key: "width"@, value: EntryValue::Number(n as int) }],
            None => Seq::empty(),
        }) + (match entry.height {
            Some(n) => seq![EntryField { key: "height"@, value: EntryValue::Number(n as int) }],
            None => Seq::empty(),
        }) + (match entry.content_rating {
            Some(s) => seq![EntryField { key: "content_rating"@, value: EntryValue::Text(s) }],
            None => Seq::empty(),
        }),
{
}

/// A field of a table holds what it stands for: a text as a text, a number as
/// an integer, texts as a list.
pub proof fn law_held_fields(field: LuaField, key: Seq<char>, shown: Seq<char>, n: int)
    ensures
        holds_entry(field, EntryField { key, value: EntryValue::Text(shown) }) <==> {
            &&& field.key@ == key
            &&& field.value matches LuaValue::Text(string)
            &&& string.text matches Some(held)
            &&& held@ == shown
            &&& string.whole is None
        },
        holds_entry(field, EntryField { key, value: EntryValue::Number(n) }) <==> {
            &&& field.key@ == key
            &&& field.value matches LuaValue::Integer(m)
            &&& m == n
        },
{
}

/// What a probe gave is told under its name, and what it did not give is left
/// out.
pub proof fn law_told_of_a_probe(size: Option<i64>, width: Option<u32>, height: Option<u32>)
    ensures
        probe_fields(size, width, height) == (match size {
            Some(n) => seq![EntryField { key: "size"@, value: EntryValue::Number(n as int) }],
            None => Seq::empty(),
        }) + (match width {
            Some(n) => seq![EntryField { key: "width"@, value: EntryValue::Number(n as int) }],
            None => Seq::empty(),
        }) + (match height {
            Some(n) => seq![EntryField { key: "height"@, value: EntryValue::Number(n as int) }],
            None => Seq::empty(),
        }),
{
}

/// A file is read whole or by the piece up to one mebibyte.
pub proof fn law_limits()
    ensures
        READ_LIMIT == 1024 * 1024,
        MAX_LOCALIZED_ARGUMENTS == 16,
{
}

} // verus!
