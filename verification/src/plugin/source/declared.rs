//! The settings, actions, status rows and state migrations that a source
//! plugin declares in `info()`.
use vstd::prelude::*;
use crate::error;
use crate::error::{Error, Fault};
use crate::plugin::i18n::{LocalizedText, LocalizedView};
use crate::plugin::lua;
use crate::plugin::lua::{
    complain, complain_why, explain_integer, explain_kind, explain_text, explain_utf8,
    info_sequence, optional_bool, optional_string, require_string, LuaTable, LuaValue,
};
use crate::plugin::source::entry::Dialect;
use crate::plugin::source::labels;
use crate::plugin::source::labels::{read_label, read_localized_only};
use crate::plugin::source::types::{
    PluginStateMigration, PluginStateMigrationView, SourceAction, SourceActionField,
    SourceActionFieldView, SourceActionKind, SourceActionView, SourceSetting, SourceSettingView,
    SourceStatus, SourceStatusView,
};
use crate::text;
use crate::text::{blank, decimal_i64, holds_text, same};

verus! {

/// A complaint about a list of `info()` that names one of its entries.
pub open spec fn list_complaint(before: Seq<char>, name: Seq<char>, after: Seq<char>) -> Fault {
    Fault::Internal(before + name + after)
}

fn complain_list(before: &str, name: &str, after: &str) -> (e: Error)
    ensures
        e@ == list_complaint(before@, name@, after@),
{
    let mut text = before.to_owned();
    text.append(name);
    text.append(after);
    Error::Internal(text)
}

/// A required string of an entry.
pub open spec fn string_fault(t: LuaTable, key: Seq<char>, context: Seq<char>) -> Option<Fault> {
    error::unless(
        t.field(key).as_text() is Some,
        lua::complaint(context, key, ": "@ + lua::not_text(t.field(key))),
    )
}

fn entry_string(t: &LuaTable, key: &str, context: &str) -> (r: Result<String, Error>)
    ensures
        error::outcome(r, string_fault(*t, key@, context@), lua::text_field(*t, key@)),
{
    let value = t.get(key);
    match value.to_text() {
        Some(text) => Ok(text),
        None => {
            let why = explain_text(value);
            Err(complain_why(context, key, ": ", why.as_str()))
        },
    }
}

/// The values of a string field in a list of tables.
pub open spec fn names(tables: Seq<LuaTable>, key: Seq<char>) -> Seq<Seq<char>> {
    tables.map_values(|t: LuaTable| lua::text_field(t, key))
}

/// An integer that falls back to zero where it is absent or none.
pub open spec fn lenient_i32(value: LuaValue) -> i32 {
    match value.as_integer_within(i32::MIN as int, i32::MAX as int) {
        Some(n) => n as i32,
        None => 0,
    }
}

fn order_of(t: &LuaTable) -> (r: i32)
    ensures
        r == lenient_i32(t.field("order"@)),
{
    match t.get("order").to_i32() {
        Some(n) => n,
        None => 0,
    }
}

// ---------------------------------------------------------------------------
// Settings

pub open spec fn setting_type(t: LuaTable) -> Seq<char> {
    let ty = lua::text_field(t, "type"@);
    if ty.len() == 0 {
        "string"@
    } else {
        ty
    }
}

pub open spec fn known_setting_type(ty: Seq<char>) -> bool {
    ty == "string"@ || ty == "bool"@ || ty == "u32"@ || ty == "i32"@ || ty == "f32"@
}

/// A default that is written out: booleans, numbers and UTF-8 strings;
/// anything else counts as none.
pub open spec fn default_text(value: LuaValue) -> Seq<char> {
    match value {
        LuaValue::Boolean(b) => if b {
            "true"@
        } else {
            "false"@
        },
        LuaValue::Integer(n) => text::decimal(n as int),
        LuaValue::Number(n) => n.shown@,
        LuaValue::Text(string) => match string.text {
            Some(text) => text@,
            None => Seq::empty(),
        },
        _ => Seq::empty(),
    }
}

pub open spec fn default_fault(value: LuaValue) -> Option<Fault> {
    match value {
        LuaValue::Text(string) => error::unless(
            string.text is Some,
            Fault::Internal(lua::not_utf8(string)),
        ),
        _ => None,
    }
}

pub open spec fn choice_faults(items: Seq<LuaValue>) -> spec_fn(int) -> Option<Fault> {
    |i: int|
        error::unless(
            items[i].as_text() is Some,
            lua::complaint("info().settings"@, "choices"@, ": "@ + lua::not_text(items[i])),
        )
}

pub open spec fn choices_fault(value: LuaValue) -> Option<Fault> {
    match value {
        LuaValue::Table(list) => error::first_of(
            list.sequence@.len() as int,
            choice_faults(list.sequence@),
        ),
        _ => None,
    }
}

pub open spec fn choices_value(value: LuaValue) -> Seq<Seq<char>> {
    match value {
        LuaValue::Table(list) => lua::text_items(list.sequence@),
        _ => Seq::empty(),
    }
}

/// The rules for one setting, given the keys declared before it.
pub open spec fn one_setting_fault(
    dialect: Dialect,
    t: LuaTable,
    keys: Seq<Seq<char>>,
) -> Option<Fault> {
    let context = "info().settings"@;
    let key = lua::text_field(t, "key"@);
    let order = t.field("order"@);
    error::first(
        string_fault(t, "key"@, context),
        error::first(
            error::unless(
                !text::is_blank(key),
                Fault::Internal("info().settings entry requires a non-empty key"@),
            ),
            error::first(
                error::unless(
                    !keys.contains(key),
                    list_complaint("info().settings contains duplicate key '"@, key, "'"@),
                ),
                error::first(
                    lua::optional_text_fault(t, "type"@, context),
                    error::first(
                        error::unless(
                            known_setting_type(setting_type(t)),
                            list_complaint(
                                "info().settings type '"@,
                                setting_type(t),
                                "' is unsupported"@,
                            ),
                        ),
                        error::first(
                            default_fault(t.field("default"@)),
                            error::first(
                                error::unless(
                                    order is Nil || order.as_integer_within(
                                        i32::MIN as int,
                                        i32::MAX as int,
                                    ) is Some,
                                    lua::complaint(
                                        context,
                                        "order"@,
                                        ": "@ + lua::not_integer(order, "i32"@),
                                    ),
                                ),
                                error::first(
                                    choices_fault(t.field("choices"@)),
                                    setting_texts_fault(dialect, t, context),
                                ),
                            ),
                        ),
                    ),
                ),
            ),
        ),
    )
}

pub open spec fn setting_texts_fault(
    dialect: Dialect,
    t: LuaTable,
    context: Seq<char>,
) -> Option<Fault> {
    error::first(
        labels::label_fault(dialect, t, "label"@, context),
        error::first(
            labels::label_fault(dialect, t, "description"@, context),
            error::first(
                lua::optional_text_fault(t, "group"@, context),
                labels::localized_only_fault(dialect, t, "group_label"@, context),
            ),
        ),
    )
}

pub open spec fn setting_value(dialect: Dialect, t: LuaTable) -> SourceSettingView {
    SourceSettingView {
        key: lua::text_field(t, "key"@),
        ty: setting_type(t),
        default: default_text(t.field("default"@)),
        label: labels::label(dialect, t, "label"@),
        description: labels::label(dialect, t, "description"@),
        group: lua::text_field(t, "group"@),
        group_label: labels::localized_only(dialect, t, "group_label"@),
        order: lenient_i32(t.field("order"@)),
        choices: choices_value(t.field("choices"@)),
    }
}

pub open spec fn setting_faults(
    dialect: Dialect,
    items: Seq<LuaValue>,
) -> spec_fn(int) -> Option<Fault> {
    |i: int|
        match items[i] {
            LuaValue::Table(t) => one_setting_fault(
                dialect,
                t,
                names(lua::table_items(items), "key"@).take(i),
            ),
            other => Some(
                lua::complaint("info()"@, "settings"@, " entry: "@ + lua::not_a(other, "table"@)),
            ),
        }
}

pub open spec fn settings_fault(dialect: Dialect, info: LuaTable) -> Option<Fault> {
    match info.field("settings"@) {
        LuaValue::Nil => None,
        LuaValue::Table(list) => error::first_of(
            list.sequence@.len() as int,
            setting_faults(dialect, list.sequence@),
        ),
        _ => Some(lua::complaint("info()"@, "settings"@, " must be a sequence of tables"@)),
    }
}

pub open spec fn settings_value(dialect: Dialect, info: LuaTable) -> Seq<SourceSettingView> {
    lua::tables_field(info, "settings"@).map_values(|t: LuaTable| setting_value(dialect, t))
}

fn parse_default(value: &LuaValue) -> (r: Result<String, Error>)
    ensures
        error::outcome(r, default_fault(*value), default_text(*value)),
{
    match value {
        LuaValue::Boolean(b) => if *b {
            Ok("true".to_owned())
        } else {
            Ok("false".to_owned())
        },
        LuaValue::Integer(n) => Ok(decimal_i64(*n)),
        LuaValue::Number(n) => Ok(n.shown.clone()),
        LuaValue::Text(string) => match &string.text {
            Some(text) => Ok(text.clone()),
            None => Err(Error::Internal(explain_utf8(string))),
        },
        _ => Ok(String::new()),
    }
}

fn parse_choices(value: &LuaValue) -> (r: Result<Vec<String>, Error>)
    ensures
        error::outcome_list(r, choices_fault(*value), choices_value(*value)),
{
    let mut out: Vec<String> = Vec::new();
    match value {
        LuaValue::Table(list) => {
            let items = &list.sequence;
            let ghost faults = choice_faults(items@);
            let mut i: usize = 0;
            assert(text::views(out@) =~= lua::text_items(items@.take(0)));
            while i < items.len()
                invariant
                    i <= items@.len(),
                    faults == choice_faults(items@),
                    choices_fault(*value) == error::first_of(items@.len() as int, faults),
                    error::first_of(i as int, faults) is None,
                    text::views(out@) == lua::text_items(items@.take(i as int)),
                decreases items@.len() - i,
            {
                proof {
                    if faults(i as int) is Some {
                        error::lemma_first_of_found(i as int, items@.len() as int, faults);
                    }
                }
                match items[i].to_text() {
                    Some(choice) => {
                        proof {
                            text::lemma_views_push(out@, choice);
                        }
                        out.push(choice);
                        assert(text::views(out@) =~= lua::text_items(items@.take(i + 1)));
                    },
                    None => {
                        let why = explain_text(&items[i]);
                        return Err(complain_why("info().settings", "choices", ": ", why.as_str()));
                    },
                }
                i = i + 1;
            }
            assert(items@.take(i as int) =~= items@);
        },
        _ => {
            assert(text::views(out@) =~= Seq::<Seq<char>>::empty());
        },
    }
    Ok(out)
}

fn parse_setting(
    dialect: Dialect,
    t: &LuaTable,
    keys: &Vec<String>,
) -> (r: Result<SourceSetting, Error>)
    ensures
        error::outcome(r, one_setting_fault(dialect, *t, text::views(keys@)), setting_value(dialect, *t)),
{
    let context = "info().settings";
    let key = entry_string(t, "key", context)?;
    if blank(key.as_str()) {
        return Err(Error::Internal("info().settings entry requires a non-empty key".to_owned()));
    }
    if holds_text(keys, key.as_str()) {
        return Err(complain_list("info().settings contains duplicate key '", key.as_str(), "'"));
    }
    let mut ty = optional_string(t, "type", context)?;
    if ty.as_str().is_empty() {
        ty = "string".to_owned();
    }
    if !(same(ty.as_str(), "string") || same(ty.as_str(), "bool") || same(ty.as_str(), "u32")
        || same(ty.as_str(), "i32") || same(ty.as_str(), "f32")) {
        return Err(complain_list("info().settings type '", ty.as_str(), "' is unsupported"));
    }
    let default = parse_default(t.get("default"))?;
    let order: i32 = match t.get("order") {
        LuaValue::Nil => 0,
        value => match value.to_i32() {
            Some(n) => n,
            None => {
                let why = explain_integer(value, "i32");
                return Err(complain_why(context, "order", ": ", why.as_str()));
            },
        },
    };
    let choices = parse_choices(t.get("choices"))?;
    let label = read_label(dialect, t, "label", context)?;
    let description = read_label(dialect, t, "description", context)?;
    let group = optional_string(t, "group", context)?;
    let group_label = read_localized_only(dialect, t, "group_label", context)?;
    Ok(
        SourceSetting {
            key,
            ty,
            default,
            label,
            description,
            group,
            group_label,
            order,
            choices,
        },
    )
}

/// Reads the optional list of settings.
pub fn parse_source_settings(
    dialect: Dialect,
    info: &LuaTable,
) -> (r: Result<Vec<SourceSetting>, Error>)
    ensures
        error::outcome_list(r, settings_fault(dialect, *info), settings_value(dialect, *info)),
{
    let mut out: Vec<SourceSetting> = Vec::new();
    match info.get("settings") {
        LuaValue::Nil => {
            assert(text::views(out@) =~= settings_value(dialect, *info));
            Ok(out)
        },
        LuaValue::Table(list) => {
            let items = &list.sequence;
            let mut keys: Vec<String> = Vec::new();
            let ghost faults = setting_faults(dialect, items@);
            let ghost tables = lua::table_items(items@);
            let ghost values = tables.map_values(|t: LuaTable| setting_value(dialect, t));
            let mut i: usize = 0;
            assert(text::views(out@) =~= values.take(0));
            assert(text::views(keys@) =~= names(tables, "key"@).take(0));
            while i < items.len()
                invariant
                    i <= items@.len(),
                    faults == setting_faults(dialect, items@),
                    tables == lua::table_items(items@),
                    values == tables.map_values(|t: LuaTable| setting_value(dialect, t)),
                    settings_fault(dialect, *info) == error::first_of(items@.len() as int, faults),
                    error::first_of(i as int, faults) is None,
                    text::views(out@) == values.take(i as int),
                    text::views(keys@) == names(tables, "key"@).take(i as int),
                decreases items@.len() - i,
            {
                proof {
                    if faults(i as int) is Some {
                        error::lemma_first_of_found(i as int, items@.len() as int, faults);
                    }
                }
                let setting = match &items[i] {
                    LuaValue::Table(t) => parse_setting(dialect, t, &keys)?,
                    other => {
                        let why = explain_kind(other, "table");
                        return Err(complain_why("info()", "settings", " entry: ", why.as_str()));
                    },
                };
                proof {
                    text::lemma_views_push(keys@, setting.key);
                    text::lemma_views_push(out@, setting);
                    assert(tables[i as int] == items@[i as int]->Table_0);
                    assert(names(tables, "key"@).take(i + 1) =~= names(tables, "key"@).take(
                        i as int,
                    ).push(setting.key@));
                    assert(values.take(i + 1) =~= values.take(i as int).push(setting@));
                }
                keys.push(setting.key.clone());
                out.push(setting);
                i = i + 1;
            }
            assert(values.take(i as int) =~= settings_value(dialect, *info));
            Ok(out)
        },
        _ => Err(complain("info()", "settings", " must be a sequence of tables")),
    }
}

// ---------------------------------------------------------------------------
// Actions

/// The rules for one field of a form, given the keys declared before it.
pub open spec fn one_field_fault(
    dialect: Dialect,
    t: LuaTable,
    keys: Seq<Seq<char>>,
) -> Option<Fault> {
    let context = "info().actions.fields"@;
    let key = lua::text_field(t, "key"@);
    error::first(
        lua::required_text_fault(t, "key"@, context),
        error::first(
            error::unless(
                !text::is_blank(key),
                Fault::Internal("info().actions.fields entry requires a non-empty key"@),
            ),
            error::first(
                error::unless(
                    !keys.contains(key),
                    list_complaint("info().actions contains duplicate field key '"@, key, "'"@),
                ),
                error::first(
                    labels::label_fault(dialect, t, "label"@, context),
                    error::first(
                        labels::label_fault(dialect, t, "description"@, context),
                        error::first(
                            labels::label_fault(dialect, t, "placeholder"@, context),
                            error::first(
                                lua::optional_bool_fault(t, "secret"@, context),
                                lua::optional_bool_fault(t, "required"@, context),
                            ),
                        ),
                    ),
                ),
            ),
        ),
    )
}

pub open spec fn field_value(dialect: Dialect, t: LuaTable) -> SourceActionFieldView {
    SourceActionFieldView {
        key: lua::text_field(t, "key"@),
        label: labels::label(dialect, t, "label"@),
        description: labels::label(dialect, t, "description"@),
        placeholder: labels::label(dialect, t, "placeholder"@),
        secret: lua::bool_field(t, "secret"@, false),
        required: lua::bool_field(t, "required"@, false),
    }
}

pub open spec fn field_faults(
    dialect: Dialect,
    tables: Seq<LuaTable>,
) -> spec_fn(int) -> Option<Fault> {
    |i: int| one_field_fault(dialect, tables[i], names(tables, "key"@).take(i))
}

pub open spec fn fields_fault(dialect: Dialect, action: LuaTable) -> Option<Fault> {
    let tables = lua::tables_field(action, "fields"@);
    error::first(
        lua::tables_fault(action, "fields"@),
        error::first_of(tables.len() as int, field_faults(dialect, tables)),
    )
}

pub open spec fn fields_value(dialect: Dialect, action: LuaTable) -> Seq<SourceActionFieldView> {
    lua::tables_field(action, "fields"@).map_values(|t: LuaTable| field_value(dialect, t))
}

fn parse_field(
    dialect: Dialect,
    t: &LuaTable,
    keys: &Vec<String>,
) -> (r: Result<SourceActionField, Error>)
    ensures
        error::outcome(r, one_field_fault(dialect, *t, text::views(keys@)), field_value(dialect, *t)),
{
    let context = "info().actions.fields";
    let key = require_string(t, "key", context)?;
    if blank(key.as_str()) {
        return Err(
            Error::Internal("info().actions.fields entry requires a non-empty key".to_owned()),
        );
    }
    if holds_text(keys, key.as_str()) {
        return Err(
            complain_list("info().actions contains duplicate field key '", key.as_str(), "'"),
        );
    }
    let label = read_label(dialect, t, "label", context)?;
    let description = read_label(dialect, t, "description", context)?;
    let placeholder = read_label(dialect, t, "placeholder", context)?;
    let secret = optional_bool(t, "secret", context, false)?;
    let required = optional_bool(t, "required", context, false)?;
    Ok(SourceActionField { key, label, description, placeholder, secret, required })
}

fn parse_fields(dialect: Dialect, action: &LuaTable) -> (r: Result<Vec<SourceActionField>, Error>)
    ensures
        error::outcome_list(r, fields_fault(dialect, *action), fields_value(dialect, *action)),
{
    let tables = info_sequence(action, "fields")?;
    let ghost all = lua::tables_field(*action, "fields"@);
    let ghost faults = field_faults(dialect, all);
    let ghost values = fields_value(dialect, *action);
    let mut out: Vec<SourceActionField> = Vec::new();
    let mut keys: Vec<String> = Vec::new();
    let mut i: usize = 0;
    assert(text::views(out@) =~= values.take(0));
    assert(text::views(keys@) =~= names(all, "key"@).take(0));
    while i < tables.len()
        invariant
            i <= tables@.len(),
            tables@.len() == all.len(),
            forall|j: int| 0 <= j < tables@.len() ==> *(#[trigger] tables@[j]) == all[j],
            all == lua::tables_field(*action, "fields"@),
            lua::tables_fault(*action, "fields"@) is None,
            faults == field_faults(dialect, all),
            values == fields_value(dialect, *action),
            error::first_of(i as int, faults) is None,
            text::views(out@) == values.take(i as int),
            text::views(keys@) == names(all, "key"@).take(i as int),
        decreases tables@.len() - i,
    {
        proof {
            assert(*tables@[i as int] == all[i as int]);
            if faults(i as int) is Some {
                error::lemma_first_of_found(i as int, all.len() as int, faults);
            }
        }
        let field = parse_field(dialect, tables[i], &keys)?;
        proof {
            text::lemma_views_push(keys@, field.key);
            text::lemma_views_push(out@, field);
            assert(names(all, "key"@).take(i + 1) =~= names(all, "key"@).take(i as int).push(
                field.key@,
            ));
            assert(values.take(i + 1) =~= values.take(i as int).push(field@));
        }
        keys.push(field.key.clone());
        out.push(field);
        i = i + 1;
    }
    assert(values.take(i as int) =~= values);
    Ok(out)
}

pub open spec fn action_kind(dialect: Dialect, name: Seq<char>) -> Option<SourceActionKind> {
    if name.len() == 0 || name == "invoke"@ {
        Some(SourceActionKind::Invoke)
    } else if name == "qr_login"@ && dialect.strict() {
        Some(SourceActionKind::QrLogin)
    } else if name == "form"@ && dialect.strict() {
        Some(SourceActionKind::Form)
    } else {
        None
    }
}

fn parse_action_kind(dialect: Dialect, name: &str) -> (r: Option<SourceActionKind>)
    ensures
        r == action_kind(dialect, name@),
{
    if name.is_empty() || same(name, "invoke") {
        Some(SourceActionKind::Invoke)
    } else if dialect.is_strict() && same(name, "qr_login") {
        Some(SourceActionKind::QrLogin)
    } else if dialect.is_strict() && same(name, "form") {
        Some(SourceActionKind::Form)
    } else {
        None
    }
}

/// What is said of a kind of action that a dialect does not know.
pub open spec fn unsupported_kind(dialect: Dialect) -> Seq<char> {
    if dialect.localized() {
        "' is unsupported"@
    } else {
        "' is unsupported for entry_version "@ + text::decimal(dialect.release() as int)
    }
}

fn refuse_kind(dialect: Dialect) -> (what: String)
    ensures
        what@ == unsupported_kind(dialect),
{
    if dialect.is_localized() {
        "' is unsupported".to_owned()
    } else {
        let mut what = "' is unsupported for entry_version ".to_owned();
        let number = decimal_i64(dialect.entry_version() as i64);
        what.append(number.as_str());
        what
    }
}

/// The rules for one action, given the ids declared before it.
pub open spec fn one_action_fault(
    dialect: Dialect,
    t: LuaTable,
    ids: Seq<Seq<char>>,
) -> Option<Fault> {
    let context = "info().actions"@;
    let id = lua::text_field(t, "id"@);
    let name = lua::text_field(t, "kind"@);
    let form = action_kind(dialect, name) == Some(SourceActionKind::Form);
    let fields = fields_value(dialect, t);
    error::first(
        string_fault(t, "id"@, context),
        error::first(
            error::unless(
                !text::is_blank(id),
                Fault::Internal("info().actions entry requires a non-empty id"@),
            ),
            error::first(
                error::unless(
                    !ids.contains(id),
                    list_complaint("info().actions contains duplicate id '"@, id, "'"@),
                ),
                error::first(
                    lua::optional_text_fault(t, "kind"@, context),
                    error::first(
                        error::unless(
                            action_kind(dialect, name) is Some,
                            list_complaint(
                                "info().actions kind '"@,
                                name,
                                unsupported_kind(dialect),
                            ),
                        ),
                        error::first(
                            fields_fault(dialect, t),
                            error::first(
                                error::unless(
                                    form ==> fields.len() > 0,
                                    Fault::Internal(
                                        "info().actions form action requires at least one field"@,
                                    ),
                                ),
                                error::first(
                                    error::unless(
                                        fields.len() > 0 ==> form,
                                        Fault::Internal(
                                            "info().actions fields are only valid for form actions"@,
                                        ),
                                    ),
                                    action_texts_fault(dialect, t, context),
                                ),
                            ),
                        ),
                    ),
                ),
            ),
        ),
    )
}

pub open spec fn action_texts_fault(
    dialect: Dialect,
    t: LuaTable,
    context: Seq<char>,
) -> Option<Fault> {
    error::first(
        labels::label_fault(dialect, t, "label"@, context),
        error::first(
            labels::label_fault(dialect, t, "description"@, context),
            error::first(
                labels::label_fault(dialect, t, "browse_description"@, context),
                error::first(
                    labels::label_fault(dialect, t, "browse_button_label"@, context),
                    error::first(
                        lua::optional_text_fault(t, "group"@, context),
                        error::first(
                            labels::localized_only_fault(dialect, t, "group_label"@, context),
                            lua::optional_bool_fault(t, "required_for_browsing"@, context),
                        ),
                    ),
                ),
            ),
        ),
    )
}

pub open spec fn action_value(dialect: Dialect, t: LuaTable) -> SourceActionView {
    let kind = action_kind(dialect, lua::text_field(t, "kind"@))->0;
    SourceActionView {
        id: lua::text_field(t, "id"@),
        label: labels::label(dialect, t, "label"@),
        description: labels::label(dialect, t, "description"@),
        browse_description: labels::label(dialect, t, "browse_description"@),
        browse_button_label: labels::label(dialect, t, "browse_button_label"@),
        group: lua::text_field(t, "group"@),
        group_label: labels::localized_only(dialect, t, "group_label"@),
        order: lenient_i32(t.field("order"@)),
        kind,
        visible: true,
        enabled: true,
        fields: fields_value(dialect, t),
        required_for_browsing: lua::bool_field(
            t,
            "required_for_browsing"@,
            kind == SourceActionKind::QrLogin,
        ),
    }
}

pub open spec fn action_faults(
    dialect: Dialect,
    tables: Seq<LuaTable>,
) -> spec_fn(int) -> Option<Fault> {
    |i: int| one_action_fault(dialect, tables[i], names(tables, "id"@).take(i))
}

pub open spec fn actions_fault(dialect: Dialect, info: LuaTable) -> Option<Fault> {
    let tables = lua::tables_field(info, "actions"@);
    error::first(
        lua::tables_fault(info, "actions"@),
        error::first_of(tables.len() as int, action_faults(dialect, tables)),
    )
}

pub open spec fn actions_value(dialect: Dialect, info: LuaTable) -> Seq<SourceActionView> {
    lua::tables_field(info, "actions"@).map_values(|t: LuaTable| action_value(dialect, t))
}

fn parse_action(
    dialect: Dialect,
    t: &LuaTable,
    ids: &Vec<String>,
) -> (r: Result<SourceAction, Error>)
    ensures
        error::outcome(r, one_action_fault(dialect, *t, text::views(ids@)), action_value(dialect, *t)),
{
    let context = "info().actions";
    let id = entry_string(t, "id", context)?;
    if blank(id.as_str()) {
        return Err(Error::Internal("info().actions entry requires a non-empty id".to_owned()));
    }
    if holds_text(ids, id.as_str()) {
        return Err(complain_list("info().actions contains duplicate id '", id.as_str(), "'"));
    }
    let name = optional_string(t, "kind", context)?;
    let kind = match parse_action_kind(dialect, name.as_str()) {
        Some(kind) => kind,
        None => {
            let what = refuse_kind(dialect);
            return Err(complain_list("info().actions kind '", name.as_str(), what.as_str()));
        },
    };
    let fields = parse_fields(dialect, t)?;
    if kind == SourceActionKind::Form && fields.len() == 0 {
        return Err(
            Error::Internal("info().actions form action requires at least one field".to_owned()),
        );
    }
    if kind != SourceActionKind::Form && fields.len() > 0 {
        return Err(
            Error::Internal("info().actions fields are only valid for form actions".to_owned()),
        );
    }
    let label = read_label(dialect, t, "label", context)?;
    let description = read_label(dialect, t, "description", context)?;
    let browse_description = read_label(dialect, t, "browse_description", context)?;
    let browse_button_label = read_label(dialect, t, "browse_button_label", context)?;
    let group = optional_string(t, "group", context)?;
    let group_label = read_localized_only(dialect, t, "group_label", context)?;
    let required_for_browsing = optional_bool(
        t,
        "required_for_browsing",
        context,
        kind == SourceActionKind::QrLogin,
    )?;
    Ok(
        SourceAction {
            id,
            label,
            description,
            browse_description,
            browse_button_label,
            group,
            group_label,
            order: order_of(t),
            kind,
            visible: true,
            enabled: true,
            fields,
            required_for_browsing,
        },
    )
}

/// Reads the optional list of actions.
pub fn parse_source_actions(
    dialect: Dialect,
    info: &LuaTable,
) -> (r: Result<Vec<SourceAction>, Error>)
    ensures
        error::outcome_list(r, actions_fault(dialect, *info), actions_value(dialect, *info)),
{
    let tables = info_sequence(info, "actions")?;
    let ghost all = lua::tables_field(*info, "actions"@);
    let ghost faults = action_faults(dialect, all);
    let ghost values = actions_value(dialect, *info);
    let mut out: Vec<SourceAction> = Vec::new();
    let mut ids: Vec<String> = Vec::new();
    let mut i: usize = 0;
    assert(text::views(out@) =~= values.take(0));
    assert(text::views(ids@) =~= names(all, "id"@).take(0));
    while i < tables.len()
        invariant
            i <= tables@.len(),
            tables@.len() == all.len(),
            forall|j: int| 0 <= j < tables@.len() ==> *(#[trigger] tables@[j]) == all[j],
            all == lua::tables_field(*info, "actions"@),
            lua::tables_fault(*info, "actions"@) is None,
            faults == action_faults(dialect, all),
            values == actions_value(dialect, *info),
            error::first_of(i as int, faults) is None,
            text::views(out@) == values.take(i as int),
            text::views(ids@) == names(all, "id"@).take(i as int),
        decreases tables@.len() - i,
    {
        proof {
            assert(*tables@[i as int] == all[i as int]);
            if faults(i as int) is Some {
                error::lemma_first_of_found(i as int, all.len() as int, faults);
            }
        }
        let action = parse_action(dialect, tables[i], &ids)?;
        proof {
            text::lemma_views_push(ids@, action.id);
            text::lemma_views_push(out@, action);
            assert(names(all, "id"@).take(i + 1) =~= names(all, "id"@).take(i as int).push(
                action.id@,
            ));
            assert(values.take(i + 1) =~= values.take(i as int).push(action@));
        }
        ids.push(action.id.clone());
        out.push(action);
        i = i + 1;
    }
    assert(values.take(i as int) =~= values);
    Ok(out)
}

// ---------------------------------------------------------------------------
// Status rows

/// The rules for one status row, given the ids declared before it.
pub open spec fn one_status_fault(
    dialect: Dialect,
    t: LuaTable,
    ids: Seq<Seq<char>>,
) -> Option<Fault> {
    let context = "info().status"@;
    let id = lua::text_field(t, "id"@);
    error::first(
        string_fault(t, "id"@, context),
        error::first(
            error::unless(
                !text::is_blank(id),
                Fault::Internal("info().status entry requires a non-empty id"@),
            ),
            error::first(
                error::unless(
                    !ids.contains(id),
                    list_complaint("info().status contains duplicate id '"@, id, "'"@),
                ),
                error::first(
                    labels::label_fault(dialect, t, "label"@, context),
                    error::first(
                        lua::optional_text_fault(t, "group"@, context),
                        labels::localized_only_fault(dialect, t, "group_label"@, context),
                    ),
                ),
            ),
        ),
    )
}

pub open spec fn status_value(dialect: Dialect, t: LuaTable) -> SourceStatusView {
    SourceStatusView {
        id: lua::text_field(t, "id"@),
        label: labels::label(dialect, t, "label"@),
        group: lua::text_field(t, "group"@),
        group_label: labels::localized_only(dialect, t, "group_label"@),
        order: lenient_i32(t.field("order"@)),
        value: LocalizedView::none(),
    }
}

pub open spec fn status_faults(
    dialect: Dialect,
    tables: Seq<LuaTable>,
) -> spec_fn(int) -> Option<Fault> {
    |i: int| one_status_fault(dialect, tables[i], names(tables, "id"@).take(i))
}

pub open spec fn statuses_fault(dialect: Dialect, info: LuaTable) -> Option<Fault> {
    let tables = lua::tables_field(info, "status"@);
    error::first(
        lua::tables_fault(info, "status"@),
        error::first_of(tables.len() as int, status_faults(dialect, tables)),
    )
}

pub open spec fn statuses_value(dialect: Dialect, info: LuaTable) -> Seq<SourceStatusView> {
    lua::tables_field(info, "status"@).map_values(|t: LuaTable| status_value(dialect, t))
}

fn parse_status(
    dialect: Dialect,
    t: &LuaTable,
    ids: &Vec<String>,
) -> (r: Result<SourceStatus, Error>)
    ensures
        error::outcome(r, one_status_fault(dialect, *t, text::views(ids@)), status_value(dialect, *t)),
{
    let context = "info().status";
    let id = entry_string(t, "id", context)?;
    if blank(id.as_str()) {
        return Err(Error::Internal("info().status entry requires a non-empty id".to_owned()));
    }
    if holds_text(ids, id.as_str()) {
        return Err(complain_list("info().status contains duplicate id '", id.as_str(), "'"));
    }
    let label = read_label(dialect, t, "label", context)?;
    let group = optional_string(t, "group", context)?;
    let group_label = read_localized_only(dialect, t, "group_label", context)?;
    Ok(
        SourceStatus {
            id,
            label,
            group,
            group_label,
            order: order_of(t),
            value: LocalizedText::default(),
        },
    )
}

/// Reads the optional list of status rows.
pub fn parse_source_status(
    dialect: Dialect,
    info: &LuaTable,
) -> (r: Result<Vec<SourceStatus>, Error>)
    ensures
        error::outcome_list(r, statuses_fault(dialect, *info), statuses_value(dialect, *info)),
{
    let tables = info_sequence(info, "status")?;
    let ghost all = lua::tables_field(*info, "status"@);
    let ghost faults = status_faults(dialect, all);
    let ghost values = statuses_value(dialect, *info);
    let mut out: Vec<SourceStatus> = Vec::new();
    let mut ids: Vec<String> = Vec::new();
    let mut i: usize = 0;
    assert(text::views(out@) =~= values.take(0));
    assert(text::views(ids@) =~= names(all, "id"@).take(0));
    while i < tables.len()
        invariant
            i <= tables@.len(),
            tables@.len() == all.len(),
            forall|j: int| 0 <= j < tables@.len() ==> *(#[trigger] tables@[j]) == all[j],
            all == lua::tables_field(*info, "status"@),
            lua::tables_fault(*info, "status"@) is None,
            faults == status_faults(dialect, all),
            values == statuses_value(dialect, *info),
            error::first_of(i as int, faults) is None,
            text::views(out@) == values.take(i as int),
            text::views(ids@) == names(all, "id"@).take(i as int),
        decreases tables@.len() - i,
    {
        proof {
            assert(*tables@[i as int] == all[i as int]);
            if faults(i as int) is Some {
                error::lemma_first_of_found(i as int, all.len() as int, faults);
            }
        }
        let row = parse_status(dialect, tables[i], &ids)?;
        proof {
            text::lemma_views_push(ids@, row.id);
            text::lemma_views_push(out@, row);
            assert(names(all, "id"@).take(i + 1) =~= names(all, "id"@).take(i as int).push(row.id@));
            assert(values.take(i + 1) =~= values.take(i as int).push(row@));
        }
        ids.push(row.id.clone());
        out.push(row);
        i = i + 1;
    }
    assert(values.take(i as int) =~= values);
    Ok(out)
}

// ---------------------------------------------------------------------------
// State migrations

/// The rules for one state migration.
pub open spec fn one_migration_fault(t: LuaTable) -> Option<Fault> {
    let context = "info().state_migrations"@;
    error::first(
        lua::required_text_fault(t, "schema_id"@, context),
        error::first(
            lua::required_text_fault(t, "file"@, context),
            error::unless(
                !text::is_blank(lua::text_field(t, "schema_id"@)) && !text::is_blank(
                    lua::text_field(t, "file"@),
                ),
                Fault::Internal("info().state_migrations schema_id/file must not be empty"@),
            ),
        ),
    )
}

pub open spec fn migration_value(t: LuaTable) -> PluginStateMigrationView {
    PluginStateMigrationView {
        schema_id: lua::text_field(t, "schema_id"@),
        file: lua::text_field(t, "file"@),
    }
}

pub open spec fn migration_faults(tables: Seq<LuaTable>) -> spec_fn(int) -> Option<Fault> {
    |i: int| one_migration_fault(tables[i])
}

pub open spec fn migrations_fault(info: LuaTable) -> Option<Fault> {
    let tables = lua::tables_field(info, "state_migrations"@);
    error::first(
        lua::tables_fault(info, "state_migrations"@),
        error::first_of(tables.len() as int, migration_faults(tables)),
    )
}

pub open spec fn migrations_value(info: LuaTable) -> Seq<PluginStateMigrationView> {
    lua::tables_field(info, "state_migrations"@).map_values(|t: LuaTable| migration_value(t))
}

fn parse_migration(t: &LuaTable) -> (r: Result<PluginStateMigration, Error>)
    ensures
        error::outcome(r, one_migration_fault(*t), migration_value(*t)),
{
    let context = "info().state_migrations";
    let schema_id = require_string(t, "schema_id", context)?;
    let file = require_string(t, "file", context)?;
    if blank(schema_id.as_str()) || blank(file.as_str()) {
        return Err(
            Error::Internal("info().state_migrations schema_id/file must not be empty".to_owned()),
        );
    }
    Ok(PluginStateMigration { schema_id, file })
}

/// Reads the optional list of state migrations.
pub fn parse_state_migrations(info: &LuaTable) -> (r: Result<Vec<PluginStateMigration>, Error>)
    ensures
        error::outcome_list(r, migrations_fault(*info), migrations_value(*info)),
{
    let tables = info_sequence(info, "state_migrations")?;
    let ghost all = lua::tables_field(*info, "state_migrations"@);
    let ghost faults = migration_faults(all);
    let ghost values = migrations_value(*info);
    let mut out: Vec<PluginStateMigration> = Vec::new();
    let mut i: usize = 0;
    assert(text::views(out@) =~= values.take(0));
    while i < tables.len()
        invariant
            i <= tables@.len(),
            tables@.len() == all.len(),
            forall|j: int| 0 <= j < tables@.len() ==> *(#[trigger] tables@[j]) == all[j],
            all == lua::tables_field(*info, "state_migrations"@),
            lua::tables_fault(*info, "state_migrations"@) is None,
            faults == migration_faults(all),
            values == migrations_value(*info),
            error::first_of(i as int, faults) is None,
            text::views(out@) == values.take(i as int),
        decreases tables@.len() - i,
    {
        proof {
            assert(*tables@[i as int] == all[i as int]);
            if faults(i as int) is Some {
                error::lemma_first_of_found(i as int, all.len() as int, faults);
            }
        }
        let migration = parse_migration(tables[i])?;
        proof {
            text::lemma_views_push(out@, migration);
            assert(values.take(i + 1) =~= values.take(i as int).push(migration@));
        }
        out.push(migration);
        i = i + 1;
    }
    assert(values.take(i as int) =~= values);
    Ok(out)
}

// ---------------------------------------------------------------------------
// Laws

/// The names of checked entries, none of which was there before it, are
/// distinct.
proof fn lemma_distinct(names: Seq<Seq<char>>)
    requires
        forall|i: int| 0 <= i < names.len() ==> !names.take(i).contains(#[trigger] names[i]),
    ensures
        names.no_duplicates(),
{
    assert forall|i: int, j: int|
        0 <= i < names.len() && 0 <= j < names.len() && i != j implies names[i] != names[j] by {
        let low = if i < j {
            i
        } else {
            j
        };
        let high = if i < j {
            j
        } else {
            i
        };
        assert(names.take(high)[low] == names[low]);
        assert(!names.take(high).contains(names[high]));
    }
}

/// The settings of an accepted declaration have keys of their own, none of them
/// blank, and types that are known.
pub proof fn law_settings_are_distinct(dialect: Dialect, info: LuaTable)
    requires
        settings_fault(dialect, info) is None,
    ensures
        settings_value(dialect, info).map_values(|s: SourceSettingView| s.key).no_duplicates(),
        forall|i: int|
            0 <= i < settings_value(dialect, info).len() ==> {
                let setting = #[trigger] settings_value(dialect, info)[i];
                !text::is_blank(setting.key) && known_setting_type(setting.ty)
            },
{
    let values = settings_value(dialect, info);
    if let LuaValue::Table(list) = info.field("settings"@) {
        let items = list.sequence@;
        let tables = lua::table_items(items);
        let keys = names(tables, "key"@);
        let faults = setting_faults(dialect, items);
        error::lemma_first_of_none(items.len() as int, faults);
        assert forall|i: int| 0 <= i < items.len() implies one_setting_fault(
            dialect,
            #[trigger] tables[i],
            keys.take(i),
        ) is None by {
            assert(faults(i) is None);
        }
        assert forall|i: int| 0 <= i < keys.len() implies !keys.take(i).contains(
            #[trigger] keys[i],
        ) by {
            assert(one_setting_fault(dialect, tables[i], keys.take(i)) is None);
        }
        lemma_distinct(keys);
        assert(values.map_values(|s: SourceSettingView| s.key) =~= keys);
        assert forall|i: int| 0 <= i < values.len() implies {
            let setting = #[trigger] values[i];
            !text::is_blank(setting.key) && known_setting_type(setting.ty)
        } by {
            assert(one_setting_fault(dialect, tables[i], keys.take(i)) is None);
        }
    }
}

/// The actions of an accepted declaration have ids of their own, none of them
/// blank; a form has fields, and nothing else has.
pub proof fn law_actions_are_distinct(dialect: Dialect, info: LuaTable)
    requires
        actions_fault(dialect, info) is None,
    ensures
        actions_value(dialect, info).map_values(|a: SourceActionView| a.id).no_duplicates(),
        forall|i: int|
            0 <= i < actions_value(dialect, info).len() ==> {
                let action = #[trigger] actions_value(dialect, info)[i];
                !text::is_blank(action.id) && (action.kind is Form <==> action.fields.len() > 0)
            },
{
    let values = actions_value(dialect, info);
    let tables = lua::tables_field(info, "actions"@);
    let ids = names(tables, "id"@);
    let faults = action_faults(dialect, tables);
    error::lemma_first_of_none(tables.len() as int, faults);
    assert forall|i: int| 0 <= i < tables.len() implies one_action_fault(
        dialect,
        #[trigger] tables[i],
        ids.take(i),
    ) is None by {
        assert(faults(i) is None);
    }
    assert forall|i: int| 0 <= i < ids.len() implies !ids.take(i).contains(#[trigger] ids[i]) by {
        assert(one_action_fault(dialect, tables[i], ids.take(i)) is None);
    }
    lemma_distinct(ids);
    assert(values.map_values(|a: SourceActionView| a.id) =~= ids);
    assert forall|i: int| 0 <= i < values.len() implies {
        let action = #[trigger] values[i];
        !text::is_blank(action.id) && (action.kind is Form <==> action.fields.len() > 0)
    } by {
        assert(one_action_fault(dialect, tables[i], ids.take(i)) is None);
    }
}

/// The status rows of an accepted declaration have ids of their own, none of
/// them blank.
pub proof fn law_status_rows_are_distinct(dialect: Dialect, info: LuaTable)
    requires
        statuses_fault(dialect, info) is None,
    ensures
        statuses_value(dialect, info).map_values(|s: SourceStatusView| s.id).no_duplicates(),
        forall|i: int|
            0 <= i < statuses_value(dialect, info).len() ==> !text::is_blank(
                (#[trigger] statuses_value(dialect, info)[i]).id,
            ),
{
    let values = statuses_value(dialect, info);
    let tables = lua::tables_field(info, "status"@);
    let ids = names(tables, "id"@);
    let faults = status_faults(dialect, tables);
    error::lemma_first_of_none(tables.len() as int, faults);
    assert forall|i: int| 0 <= i < tables.len() implies one_status_fault(
        dialect,
        #[trigger] tables[i],
        ids.take(i),
    ) is None by {
        assert(faults(i) is None);
    }
    assert forall|i: int| 0 <= i < ids.len() implies !ids.take(i).contains(#[trigger] ids[i]) by {
        assert(one_status_fault(dialect, tables[i], ids.take(i)) is None);
    }
    lemma_distinct(ids);
    assert(values.map_values(|s: SourceStatusView| s.id) =~= ids);
    assert forall|i: int| 0 <= i < values.len() implies !text::is_blank(
        (#[trigger] values[i]).id,
    ) by {
        assert(one_status_fault(dialect, tables[i], ids.take(i)) is None);
    }
}

// ---------------------------------------------------------------------------
// Laws on what is declared

/// A setting is accepted exactly where it has a key of its own, one of the five
/// types and an order that is an integer, and the rest is of the right kind; it
/// has what its declaration gives under their keys. Without a type it is a
/// string.
pub proof fn law_declared_setting(dialect: Dialect, t: LuaTable, keys: Seq<Seq<char>>)
    ensures
        one_setting_fault(dialect, t, keys) is None <==> {
            &&& t.field("key"@).as_text() is Some
            &&& !text::is_blank(t.field("key"@).as_text()->0)
            &&& !keys.contains(t.field("key"@).as_text()->0)
            &&& (t.field("type"@) is Nil || (t.field("type"@) matches LuaValue::Text(s)
                && s.text is Some))
            &&& (t.field("type"@) is Nil || t.field("type"@).as_text()
                == Some(Seq::<char>::empty()) || t.field("type"@).as_text() == Some("string"@)
                || t.field("type"@).as_text() == Some("bool"@) || t.field("type"@).as_text()
                == Some("u32"@) || t.field("type"@).as_text() == Some("i32"@)
                || t.field("type"@).as_text() == Some("f32"@))
            &&& (t.field("default"@) matches LuaValue::Text(s) ==> s.text is Some)
            &&& (t.field("order"@) is Nil
                || t.field("order"@).as_integer_within(i32::MIN as int, i32::MAX as int) is Some)
            &&& (t.field("choices"@) matches LuaValue::Table(list)
                ==> forall|i: int| 0 <= i < list.sequence@.len()
                ==> (#[trigger] list.sequence@[i]).as_text() is Some)
            &&& labels::label_fault(dialect, t, "label"@, "info().settings"@) is None
            &&& labels::label_fault(dialect, t, "description"@, "info().settings"@) is None
            &&& (t.field("group"@) is Nil || (t.field("group"@) matches LuaValue::Text(s)
                && s.text is Some))
            &&& labels::localized_only_fault(dialect, t, "group_label"@, "info().settings"@) is None
        },
        one_setting_fault(dialect, t, keys) is None ==> ({
            let v = setting_value(dialect, t);
            &&& t.field("key"@).as_text() == Some(v.key)
            &&& t.field("type"@).as_text() matches Some(x) ==> (x.len() > 0 ==> v.ty == x)
            &&& t.field("type"@) is Nil ==> v.ty == "string"@
            &&& t.field("default"@) matches LuaValue::Text(s) ==> (s.text matches Some(x)
                ==> v.default == x@)
            &&& t.field("default"@) == LuaValue::Boolean(true) ==> v.default == "true"@
            &&& t.field("default"@) == LuaValue::Boolean(false) ==> v.default == "false"@
            &&& t.field("default"@) matches LuaValue::Integer(n)
                ==> text::integer_value(v.default, true) == Some(n as int)
            &&& t.field("default"@) matches LuaValue::Number(n) ==> v.default == n.shown@
            &&& t.field("default"@) is Nil ==> v.default.len() == 0
            &&& v.label == labels::label(dialect, t, "label"@)
            &&& v.description == labels::label(dialect, t, "description"@)
            &&& t.field("group"@).as_text() is Some ==> t.field("group"@).as_text() == Some(v.group)
            &&& t.field("group"@).as_text() is None ==> v.group.len() == 0
            &&& v.group_label == labels::localized_only(dialect, t, "group_label"@)
            &&& t.field("order"@).as_integer_within(i32::MIN as int, i32::MAX as int) matches Some(n) ==> v.order == n
            &&& t.field("order"@).as_integer_within(i32::MIN as int, i32::MAX as int) is None
                ==> v.order == 0
            &&& t.field("choices"@) matches LuaValue::Table(list) ==> v.choices.len()
                == list.sequence@.len() && forall|k: int| 0 <= k < list.sequence@.len()
                ==> (#[trigger] list.sequence@[k]).as_text() == Some(v.choices[k])
            &&& !(t.field("choices"@) is Table) ==> v.choices.len() == 0
        }),

{
    reveal_strlit("string");
    if let LuaValue::Integer(n) = t.field("default"@) {
        text::law_decimal_reads_back(n as int, true);
    }
    if let LuaValue::Table(list) = t.field("choices"@) {
        error::lemma_first_of_none(list.sequence@.len() as int, choice_faults(list.sequence@));
        if choices_fault(t.field("choices"@)) is None {
            assert forall|i: int| 0 <= i < list.sequence@.len() implies (
            #[trigger] list.sequence@[i]).as_text() is Some by {
                assert(choice_faults(list.sequence@)(i) is None);
            }
        }
    }
    if let Some(x) = t.field("type"@).as_text() {
        if x.len() == 0 {
            assert(x =~= Seq::<char>::empty());
        }
    }
}

/// A field of an action is accepted exactly where it has a key of its own and the
/// rest is of the right kind; it has what its declaration gives under their keys,
/// and is neither secret nor required where that is not said.
pub proof fn law_declared_field(dialect: Dialect, t: LuaTable, keys: Seq<Seq<char>>)
    ensures
        one_field_fault(dialect, t, keys) is None <==> {
            &&& t.field("key"@).as_text() is Some
            &&& !text::is_blank(t.field("key"@).as_text()->0)
            &&& !keys.contains(t.field("key"@).as_text()->0)
            &&& labels::label_fault(dialect, t, "label"@, "info().actions.fields"@) is None
            &&& labels::label_fault(dialect, t, "description"@, "info().actions.fields"@) is None
            &&& labels::label_fault(dialect, t, "placeholder"@, "info().actions.fields"@) is None
            &&& (t.field("secret"@) is Nil || t.field("secret"@) is Boolean)
            &&& (t.field("required"@) is Nil || t.field("required"@) is Boolean)
        },
        one_field_fault(dialect, t, keys) is None ==> ({
            let v = field_value(dialect, t);
            &&& t.field("key"@).as_text() == Some(v.key)
            &&& v.label == labels::label(dialect, t, "label"@)
            &&& v.description == labels::label(dialect, t, "description"@)
            &&& v.placeholder == labels::label(dialect, t, "placeholder"@)
            &&& t.field("secret"@) matches LuaValue::Boolean(b) ==> v.secret == b
            &&& t.field("secret"@) is Nil ==> v.secret == false
            &&& t.field("required"@) matches LuaValue::Boolean(b) ==> v.required == b
            &&& t.field("required"@) is Nil ==> v.required == false
        }),

{
}

/// An action is accepted exactly where it has an id of its own and one of the
/// three kinds, a form has fields and nothing else has, and the rest is of the
/// right kind. It has the kind that it names, an invocation where it names none,
/// and what its declaration gives under their keys; only a QR login is required
/// for browsing by itself.
pub proof fn law_declared_action(dialect: Dialect, t: LuaTable, ids: Seq<Seq<char>>)
    ensures
        one_action_fault(dialect, t, ids) is None <==> {
            &&& t.field("id"@).as_text() is Some
            &&& !text::is_blank(t.field("id"@).as_text()->0)
            &&& !ids.contains(t.field("id"@).as_text()->0)
            &&& (t.field("kind"@) is Nil || (t.field("kind"@) matches LuaValue::Text(s)
                && s.text is Some))
            &&& (t.field("kind"@) is Nil || t.field("kind"@).as_text()
                == Some(Seq::<char>::empty()) || t.field("kind"@).as_text() == Some("invoke"@)
                || (dialect.strict() && (t.field("kind"@).as_text() == Some("qr_login"@)
                || t.field("kind"@).as_text() == Some("form"@))))
            &&& fields_fault(dialect, t) is None
            &&& (fields_value(dialect, t).len() > 0 <==> t.field("kind"@).as_text()
                == Some("form"@))
            &&& labels::label_fault(dialect, t, "label"@, "info().actions"@) is None
            &&& labels::label_fault(dialect, t, "description"@, "info().actions"@) is None
            &&& labels::label_fault(dialect, t, "browse_description"@, "info().actions"@) is None
            &&& labels::label_fault(dialect, t, "browse_button_label"@, "info().actions"@) is None
            &&& (t.field("group"@) is Nil || (t.field("group"@) matches LuaValue::Text(s)
                && s.text is Some))
            &&& labels::localized_only_fault(dialect, t, "group_label"@, "info().actions"@) is None
            &&& (t.field("required_for_browsing"@) is Nil
                || t.field("required_for_browsing"@) is Boolean)
        },
        one_action_fault(dialect, t, ids) is None ==> ({
            let v = action_value(dialect, t);
            &&& t.field("id"@).as_text() == Some(v.id)
            &&& v.kind is QrLogin <==> t.field("kind"@).as_text() == Some("qr_login"@)
            &&& v.kind is Form <==> t.field("kind"@).as_text() == Some("form"@)
            &&& v.label == labels::label(dialect, t, "label"@)
            &&& v.description == labels::label(dialect, t, "description"@)
            &&& v.browse_description == labels::label(dialect, t, "browse_description"@)
            &&& v.browse_button_label == labels::label(dialect, t, "browse_button_label"@)
            &&& t.field("group"@).as_text() is Some ==> t.field("group"@).as_text() == Some(v.group)
            &&& t.field("group"@).as_text() is None ==> v.group.len() == 0
            &&& v.group_label == labels::localized_only(dialect, t, "group_label"@)
            &&& t.field("order"@).as_integer_within(i32::MIN as int, i32::MAX as int) matches Some(n) ==> v.order == n
            &&& t.field("order"@).as_integer_within(i32::MIN as int, i32::MAX as int) is None
                ==> v.order == 0
            &&& v.visible && v.enabled
            &&& v.fields == fields_value(dialect, t)
            &&& t.field("required_for_browsing"@) matches LuaValue::Boolean(b)
                ==> v.required_for_browsing == b
            &&& t.field("required_for_browsing"@) is Nil ==> v.required_for_browsing
                == (v.kind is QrLogin)
        }),

{
    reveal_strlit("invoke");
    reveal_strlit("qr_login");
    reveal_strlit("form");
    assert("invoke"@ != "qr_login"@) by {
        assert("invoke"@.len() != "qr_login"@.len());
    }
    assert("invoke"@ != "form"@) by {
        assert("invoke"@.len() != "form"@.len());
    }
    assert("qr_login"@ != "form"@) by {
        assert("qr_login"@.len() != "form"@.len());
    }
    if let Some(x) = t.field("kind"@).as_text() {
        if x.len() == 0 {
            assert(x =~= Seq::<char>::empty());
        }
    }
}

/// A status row is accepted exactly where it has an id of its own and the rest is
/// of the right kind; it has what its declaration gives under their keys, and no
/// value yet.
pub proof fn law_declared_status(dialect: Dialect, t: LuaTable, ids: Seq<Seq<char>>)
    ensures
        one_status_fault(dialect, t, ids) is None <==> {
            &&& t.field("id"@).as_text() is Some
            &&& !text::is_blank(t.field("id"@).as_text()->0)
            &&& !ids.contains(t.field("id"@).as_text()->0)
            &&& labels::label_fault(dialect, t, "label"@, "info().status"@) is None
            &&& (t.field("group"@) is Nil || (t.field("group"@) matches LuaValue::Text(s)
                && s.text is Some))
            &&& labels::localized_only_fault(dialect, t, "group_label"@, "info().status"@) is None
        },
        one_status_fault(dialect, t, ids) is None ==> ({
            let v = status_value(dialect, t);
            &&& t.field("id"@).as_text() == Some(v.id)
            &&& v.label == labels::label(dialect, t, "label"@)
            &&& t.field("group"@).as_text() is Some ==> t.field("group"@).as_text() == Some(v.group)
            &&& t.field("group"@).as_text() is None ==> v.group.len() == 0
            &&& v.group_label == labels::localized_only(dialect, t, "group_label"@)
            &&& t.field("order"@).as_integer_within(i32::MIN as int, i32::MAX as int) matches Some(n) ==> v.order == n
            &&& t.field("order"@).as_integer_within(i32::MIN as int, i32::MAX as int) is None
                ==> v.order == 0
            &&& v.value.text().len() == 0
        }),

{
}

/// A migration of a state names a schema and a file, and neither is blank.
pub proof fn law_declared_migration(t: LuaTable)
    ensures
        one_migration_fault(t) is None <==> {
            &&& t.field("schema_id"@).as_text() is Some
            &&& t.field("file"@).as_text() is Some
            &&& !text::is_blank(t.field("schema_id"@).as_text()->0)
            &&& !text::is_blank(t.field("file"@).as_text()->0)
        },
        one_migration_fault(t) is None ==> ({
            let v = migration_value(t);
            &&& t.field("schema_id"@).as_text() == Some(v.schema_id)
            &&& t.field("file"@).as_text() == Some(v.file)
        }),

{
}

/// The declared actions are loaded in their order, each from its own row.
pub proof fn law_actions_in_order(dialect: Dialect, info: LuaTable, i: int)
    requires
        actions_fault(dialect, info) is None,
        0 <= i < actions_value(dialect, info).len(),
    ensures
        info.field("actions"@) matches LuaValue::Table(list) && list.sequence@.len()
            == actions_value(dialect, info).len() && (list.sequence@[i] matches LuaValue::Table(t)
            && actions_value(dialect, info)[i] == action_value(dialect, t)
                && one_action_fault(dialect, t, names(lua::tables_field(info, "actions"@), "id"@).take(i)) is None),
{
    let tables = lua::tables_field(info, "actions"@);
    error::lemma_first_of_none(tables.len() as int, action_faults(dialect, tables));
    assert(action_faults(dialect, tables)(i) is None);
    if let LuaValue::Table(list) = info.field("actions"@) {
        let shape = |i: int|
            error::unless(
                list.sequence@[i] is Table,
                lua::complaint(
                    "info()"@,
                    "actions"@,
                    " entry: "@ + lua::not_a(list.sequence@[i], "table"@),
                ),
            );
        error::lemma_first_of_none(list.sequence@.len() as int, shape);
        assert(shape(i) is None);
    }
}

/// The declared status rows are loaded in their order, each from its own row.
pub proof fn law_status_rows_in_order(dialect: Dialect, info: LuaTable, i: int)
    requires
        statuses_fault(dialect, info) is None,
        0 <= i < statuses_value(dialect, info).len(),
    ensures
        info.field("status"@) matches LuaValue::Table(list) && list.sequence@.len()
            == statuses_value(dialect, info).len() && (list.sequence@[i] matches LuaValue::Table(t)
            && statuses_value(dialect, info)[i] == status_value(dialect, t)
                && one_status_fault(dialect, t, names(lua::tables_field(info, "status"@), "id"@).take(i)) is None),
{
    let tables = lua::tables_field(info, "status"@);
    error::lemma_first_of_none(tables.len() as int, status_faults(dialect, tables));
    assert(status_faults(dialect, tables)(i) is None);
    if let LuaValue::Table(list) = info.field("status"@) {
        let shape = |i: int|
            error::unless(
                list.sequence@[i] is Table,
                lua::complaint(
                    "info()"@,
                    "status"@,
                    " entry: "@ + lua::not_a(list.sequence@[i], "table"@),
                ),
            );
        error::lemma_first_of_none(list.sequence@.len() as int, shape);
        assert(shape(i) is None);
    }
}

/// The declared migrations are loaded in their order, each from its own row.
pub proof fn law_migrations_in_order(info: LuaTable, i: int)
    requires
        migrations_fault(info) is None,
        0 <= i < migrations_value(info).len(),
    ensures
        info.field("state_migrations"@) matches LuaValue::Table(list) && list.sequence@.len()
            == migrations_value(info).len() && (list.sequence@[i] matches LuaValue::Table(t)
            && migrations_value(info)[i] == migration_value(t) && one_migration_fault(t) is None),
{
    let tables = lua::tables_field(info, "state_migrations"@);
    error::lemma_first_of_none(tables.len() as int, migration_faults(tables));
    assert(migration_faults(tables)(i) is None);
    if let LuaValue::Table(list) = info.field("state_migrations"@) {
        let shape = |i: int|
            error::unless(
                list.sequence@[i] is Table,
                lua::complaint(
                    "info()"@,
                    "state_migrations"@,
                    " entry: "@ + lua::not_a(list.sequence@[i], "table"@),
                ),
            );
        error::lemma_first_of_none(list.sequence@.len() as int, shape);
        assert(shape(i) is None);
    }
}

/// The declared fields of an action are loaded in their order, each from its own
/// row.
pub proof fn law_fields_in_order(dialect: Dialect, info: LuaTable, i: int)
    requires
        fields_fault(dialect, info) is None,
        0 <= i < fields_value(dialect, info).len(),
    ensures
        info.field("fields"@) matches LuaValue::Table(list) && list.sequence@.len()
            == fields_value(dialect, info).len() && (list.sequence@[i] matches LuaValue::Table(t)
            && fields_value(dialect, info)[i] == field_value(dialect, t)
                && one_field_fault(dialect, t, names(lua::tables_field(info, "fields"@), "key"@).take(i)) is None),
{
    let tables = lua::tables_field(info, "fields"@);
    error::lemma_first_of_none(tables.len() as int, field_faults(dialect, tables));
    assert(field_faults(dialect, tables)(i) is None);
    if let LuaValue::Table(list) = info.field("fields"@) {
        let shape = |i: int|
            error::unless(
                list.sequence@[i] is Table,
                lua::complaint(
                    "info()"@,
                    "fields"@,
                    " entry: "@ + lua::not_a(list.sequence@[i], "table"@),
                ),
            );
        error::lemma_first_of_none(list.sequence@.len() as int, shape);
        assert(shape(i) is None);
    }
}

/// The declared settings are loaded in their order, each from its own row.
pub proof fn law_settings_in_order(dialect: Dialect, info: LuaTable, i: int)
    requires
        settings_fault(dialect, info) is None,
        0 <= i < settings_value(dialect, info).len(),
    ensures
        info.field("settings"@) matches LuaValue::Table(list) && list.sequence@.len()
            == settings_value(dialect, info).len() && (list.sequence@[i] matches LuaValue::Table(t)
            && settings_value(dialect, info)[i] == setting_value(dialect, t) && one_setting_fault(
            dialect,
            t,
            names(lua::table_items(list.sequence@), "key"@).take(i),
        ) is None),
{
    if let LuaValue::Table(list) = info.field("settings"@) {
        let faults = setting_faults(dialect, list.sequence@);
        error::lemma_first_of_none(list.sequence@.len() as int, faults);
        assert(faults(i) is None);
    }
}

/// What a plugin does not declare it does not have.
pub proof fn law_nothing_declared(dialect: Dialect, info: LuaTable)
    ensures
        info.field("settings"@) is Nil ==> settings_fault(dialect, info) is None && settings_value(
            dialect,
            info,
        ).len() == 0,
        info.field("actions"@) is Nil ==> actions_fault(dialect, info) is None && actions_value(
            dialect,
            info,
        ).len() == 0,
        info.field("status"@) is Nil ==> statuses_fault(dialect, info) is None && statuses_value(
            dialect,
            info,
        ).len() == 0,
        info.field("state_migrations"@) is Nil ==> migrations_fault(info) is None
            && migrations_value(info).len() == 0,
        info.field("fields"@) is Nil ==> fields_fault(dialect, info) is None && fields_value(
            dialect,
            info,
        ).len() == 0,
{
}

// ---------------------------------------------------------------------------
// What is told of what is refused

/// What is told of a setting that is refused: the first of the rules that it
/// breaks.
pub proof fn law_refused_declared_setting(dialect: Dialect, t: LuaTable, keys: Seq<Seq<char>>)
    ensures
        ({
            let key = lua::text_field(t, "key"@);
            let order = t.field("order"@);
            let ty = lua::optional_text_fault(t, "type"@, "info().settings"@);
            let default = default_fault(t.field("default"@));
            let choices = choices_fault(t.field("choices"@));
            let setting_texts = setting_texts_fault(dialect, t, "info().settings"@);
            one_setting_fault(dialect, t, keys) == (if t.field("key"@).as_text() is None {
                Some(
                    Fault::Internal(
                        "info().settings"@ + "."@ + "key"@ + (": "@
                            + lua::not_text(t.field("key"@))),
                    ),
                )
            } else if text::is_blank(key) {
                Some(Fault::Internal("info().settings entry requires a non-empty key"@))
            } else if keys.contains(key) {
                Some(Fault::Internal("info().settings contains duplicate key '"@ + key + "'"@))
            } else if ty is Some {
                ty
            } else if !(known_setting_type(setting_type(t))) {
                Some(
                    Fault::Internal(
                        "info().settings type '"@ + setting_type(t) + "' is unsupported"@,
                    ),
                )
            } else if default is Some {
                default
            } else if !(order is Nil
                || order.as_integer_within(i32::MIN as int, i32::MAX as int) is Some) {
                Some(
                    Fault::Internal(
                        "info().settings"@ + "."@ + "order"@ + (": "@
                            + lua::not_integer(order, "i32"@)),
                    ),
                )
            } else if choices is Some {
                choices
            } else if setting_texts is Some {
                setting_texts
            } else {
                None
            })
        }),
{
}

/// Of the texts of a setting the first that is none is told of.
pub proof fn law_refused_texts_of_a_setting(dialect: Dialect, t: LuaTable, context: Seq<char>)
    ensures
        ({
            let label = labels::label_fault(dialect, t, "label"@, context);
            let description = labels::label_fault(dialect, t, "description"@, context);
            let group = lua::optional_text_fault(t, "group"@, context);
            let group_label = labels::localized_only_fault(dialect, t, "group_label"@, context);
            setting_texts_fault(dialect, t, context) == (if label is Some {
                label
            } else if description is Some {
                description
            } else if group is Some {
                group
            } else if group_label is Some {
                group_label
            } else {
                None
            })
        }),
{
}

/// What is told of a field of a form that is refused: the first of the rules that
/// it breaks.
pub proof fn law_refused_declared_field(dialect: Dialect, t: LuaTable, keys: Seq<Seq<char>>)
    ensures
        ({
            let key = lua::text_field(t, "key"@);
            let label = labels::label_fault(dialect, t, "label"@, "info().actions.fields"@);
            let description = labels::label_fault(
                dialect,
                t,
                "description"@,
                "info().actions.fields"@,
            );
            let placeholder = labels::label_fault(
                dialect,
                t,
                "placeholder"@,
                "info().actions.fields"@,
            );
            let secret = lua::optional_bool_fault(t, "secret"@, "info().actions.fields"@);
            let required = lua::optional_bool_fault(t, "required"@, "info().actions.fields"@);
            one_field_fault(dialect, t, keys) == (if t.field("key"@).as_text() is None {
                Some(
                    Fault::Internal(
                        "info().actions.fields"@ + "."@ + "key"@ + (" required: "@
                            + lua::not_text(t.field("key"@))),
                    ),
                )
            } else if text::is_blank(key) {
                Some(Fault::Internal("info().actions.fields entry requires a non-empty key"@))
            } else if keys.contains(key) {
                Some(Fault::Internal("info().actions contains duplicate field key '"@ + key + "'"@))
            } else if label is Some {
                label
            } else if description is Some {
                description
            } else if placeholder is Some {
                placeholder
            } else if secret is Some {
                secret
            } else if required is Some {
                required
            } else {
                None
            })
        }),
{
}

/// The fields of an action are refused as a list, or for the first refused field.
pub proof fn law_refused_fields(dialect: Dialect, action: LuaTable)
    ensures
        ({
            let tables = lua::tables_field(action, "fields"@);
            let fields = lua::tables_fault(action, "fields"@);
            let of_an_item = error::first_of(tables.len() as int, field_faults(dialect, tables));
            fields_fault(dialect, action) == (if fields is Some {
                fields
            } else if of_an_item is Some {
                of_an_item
            } else {
                None
            })
        }),
{
}

/// What is told of an action that is refused: the first of the rules that it
/// breaks.
pub proof fn law_refused_declared_action(dialect: Dialect, t: LuaTable, ids: Seq<Seq<char>>)
    ensures
        ({
            let id = lua::text_field(t, "id"@);
            let name = lua::text_field(t, "kind"@);
            let form = action_kind(dialect, name) == Some(SourceActionKind::Form);
            let fields = fields_value(dialect, t);
            let kind = lua::optional_text_fault(t, "kind"@, "info().actions"@);
            let fields_part = fields_fault(dialect, t);
            let action_texts = action_texts_fault(dialect, t, "info().actions"@);
            one_action_fault(dialect, t, ids) == (if t.field("id"@).as_text() is None {
                Some(
                    Fault::Internal(
                        "info().actions"@ + "."@ + "id"@ + (": "@ + lua::not_text(t.field("id"@))),
                    ),
                )
            } else if text::is_blank(id) {
                Some(Fault::Internal("info().actions entry requires a non-empty id"@))
            } else if ids.contains(id) {
                Some(Fault::Internal("info().actions contains duplicate id '"@ + id + "'"@))
            } else if kind is Some {
                kind
            } else if !(action_kind(dialect, name) is Some) {
                Some(Fault::Internal("info().actions kind '"@ + name + unsupported_kind(dialect)))
            } else if fields_part is Some {
                fields_part
            } else if !(form ==> fields.len() > 0) {
                Some(Fault::Internal("info().actions form action requires at least one field"@))
            } else if !(fields.len() > 0 ==> form) {
                Some(Fault::Internal("info().actions fields are only valid for form actions"@))
            } else if action_texts is Some {
                action_texts
            } else {
                None
            })
        }),
{
}

/// Of the texts and the flag of an action the first that is none is told of.
pub proof fn law_refused_texts_of_an_action(dialect: Dialect, t: LuaTable, context: Seq<char>)
    ensures
        ({
            let label = labels::label_fault(dialect, t, "label"@, context);
            let description = labels::label_fault(dialect, t, "description"@, context);
            let browse_description = labels::label_fault(
                dialect,
                t,
                "browse_description"@,
                context,
            );
            let browse_button_label = labels::label_fault(
                dialect,
                t,
                "browse_button_label"@,
                context,
            );
            let group = lua::optional_text_fault(t, "group"@, context);
            let group_label = labels::localized_only_fault(dialect, t, "group_label"@, context);
            let required_for_browsing = lua::optional_bool_fault(
                t,
                "required_for_browsing"@,
                context,
            );
            action_texts_fault(dialect, t, context) == (if label is Some {
                label
            } else if description is Some {
                description
            } else if browse_description is Some {
                browse_description
            } else if browse_button_label is Some {
                browse_button_label
            } else if group is Some {
                group
            } else if group_label is Some {
                group_label
            } else if required_for_browsing is Some {
                required_for_browsing
            } else {
                None
            })
        }),
{
}

/// The actions are refused as a list, or for the first refused action.
pub proof fn law_refused_actions(dialect: Dialect, info: LuaTable)
    ensures
        ({
            let tables = lua::tables_field(info, "actions"@);
            let actions = lua::tables_fault(info, "actions"@);
            let of_an_item = error::first_of(tables.len() as int, action_faults(dialect, tables));
            actions_fault(dialect, info) == (if actions is Some {
                actions
            } else if of_an_item is Some {
                of_an_item
            } else {
                None
            })
        }),
{
}

/// What is told of a row of the status that is refused: the first of the rules
/// that it breaks.
pub proof fn law_refused_declared_status(dialect: Dialect, t: LuaTable, ids: Seq<Seq<char>>)
    ensures
        ({
            let id = lua::text_field(t, "id"@);
            let label = labels::label_fault(dialect, t, "label"@, "info().status"@);
            let group = lua::optional_text_fault(t, "group"@, "info().status"@);
            let group_label = labels::localized_only_fault(
                dialect,
                t,
                "group_label"@,
                "info().status"@,
            );
            one_status_fault(dialect, t, ids) == (if t.field("id"@).as_text() is None {
                Some(
                    Fault::Internal(
                        "info().status"@ + "."@ + "id"@ + (": "@ + lua::not_text(t.field("id"@))),
                    ),
                )
            } else if text::is_blank(id) {
                Some(Fault::Internal("info().status entry requires a non-empty id"@))
            } else if ids.contains(id) {
                Some(Fault::Internal("info().status contains duplicate id '"@ + id + "'"@))
            } else if label is Some {
                label
            } else if group is Some {
                group
            } else if group_label is Some {
                group_label
            } else {
                None
            })
        }),
{
}

/// The rows of the status are refused as a list, or for the first refused row.
pub proof fn law_refused_status_rows(dialect: Dialect, info: LuaTable)
    ensures
        ({
            let tables = lua::tables_field(info, "status"@);
            let status = lua::tables_fault(info, "status"@);
            let of_an_item = error::first_of(tables.len() as int, status_faults(dialect, tables));
            statuses_fault(dialect, info) == (if status is Some {
                status
            } else if of_an_item is Some {
                of_an_item
            } else {
                None
            })
        }),
{
}

/// What is told of a migration that is refused: the first of the rules that it
/// breaks.
pub proof fn law_refused_declared_migration(t: LuaTable)
    ensures
        ({
            one_migration_fault(t) == (if t.field("schema_id"@).as_text() is None {
                Some(
                    Fault::Internal(
                        "info().state_migrations"@ + "."@ + "schema_id"@ + (" required: "@
                            + lua::not_text(t.field("schema_id"@))),
                    ),
                )
            } else if t.field("file"@).as_text() is None {
                Some(
                    Fault::Internal(
                        "info().state_migrations"@ + "."@ + "file"@ + (" required: "@
                            + lua::not_text(t.field("file"@))),
                    ),
                )
            } else if !(!text::is_blank(lua::text_field(t, "schema_id"@))
                && !text::is_blank(lua::text_field(t, "file"@))) {
                Some(Fault::Internal("info().state_migrations schema_id/file must not be empty"@))
            } else {
                None
            })
        }),
{
}

/// The migrations are refused as a list, or for the first refused migration.
pub proof fn law_refused_migrations(info: LuaTable)
    ensures
        ({
            let tables = lua::tables_field(info, "state_migrations"@);
            let state_migrations = lua::tables_fault(info, "state_migrations"@);
            let of_an_item = error::first_of(tables.len() as int, migration_faults(tables));
            migrations_fault(info) == (if state_migrations is Some {
                state_migrations
            } else if of_an_item is Some {
                of_an_item
            } else {
                None
            })
        }),
{
}

/// What is told of the settings that are refused: that they are no list, that
/// one is no table, or the first that is refused, with the keys before it.
pub proof fn law_refused_settings(dialect: Dialect, info: LuaTable, list: LuaTable, i: int)
    ensures
        !(info.field("settings"@) is Nil) && !(info.field("settings"@) is Table) ==> settings_fault(
            dialect,
            info,
        ) == Some(
            Fault::Internal("info()"@ + "."@ + "settings"@ + " must be a sequence of tables"@),
        ),
        info.field("settings"@) == LuaValue::Table(list) && 0 <= i < list.sequence@.len() && (
        forall|j: int|
            0 <= j < i ==> (#[trigger] setting_faults(dialect, list.sequence@)(j)) is None) ==> {
            &&& !(list.sequence@[i] is Table) ==> settings_fault(dialect, info) == Some(
                Fault::Internal(
                    "info()"@ + "."@ + "settings"@ + (" entry: "@ + lua::not_a(
                        list.sequence@[i],
                        "table"@,
                    )),
                ),
            )
            &&& list.sequence@[i] matches LuaValue::Table(t) ==> {
                let told = one_setting_fault(
                    dialect,
                    t,
                    names(lua::table_items(list.sequence@), "key"@).take(i),
                );
                told is Some ==> settings_fault(dialect, info) == told
            }
        },
{
    if 0 <= i < list.sequence@.len() {
        error::law_first_fault(
            list.sequence@.len() as int,
            setting_faults(dialect, list.sequence@),
            i,
        );
    }
}

/// A choice that is no text and a default that is none are told of.
pub proof fn law_refused_choices(value: LuaValue, list: LuaTable, i: int)
    ensures
        value == LuaValue::Table(list) && 0 <= i < list.sequence@.len()
            && list.sequence@[i].as_text() is None && (forall|j: int|
            0 <= j < i ==> (#[trigger] list.sequence@[j]).as_text() is Some)
                ==> choices_fault(value)
            == Some(
            Fault::Internal(
                "info().settings"@ + "."@ + "choices"@ + (": "@ + lua::not_text(
                    list.sequence@[i],
                )),
            ),
        ),
        !(value is Table) ==> choices_fault(value) is None,
        value matches LuaValue::Text(string) ==> default_fault(value) == (if string.text is None {
            Some(Fault::Internal(lua::not_utf8(string)))
        } else {
            None
        }),
        !(value is Text) ==> default_fault(value) is None,
{
    if 0 <= i < list.sequence@.len() {
        let faults = choice_faults(list.sequence@);
        error::law_first_fault(list.sequence@.len() as int, faults, i);
        if forall|j: int| 0 <= j < i ==> (#[trigger] list.sequence@[j]).as_text() is Some {
            assert forall|j: int| 0 <= j < i implies (#[trigger] faults(j)) is None by {
                assert(list.sequence@[j].as_text() is Some);
            }
        }
    }
}

/// The items of a list are each held to the rules with the names before them.
pub proof fn law_items_of_lists(dialect: Dialect, tables: Seq<LuaTable>, i: int)
    ensures
        field_faults(dialect, tables)(i) == one_field_fault(
            dialect,
            tables[i],
            names(tables, "key"@).take(i),
        ),
        action_faults(dialect, tables)(i) == one_action_fault(
            dialect,
            tables[i],
            names(tables, "id"@).take(i),
        ),
        status_faults(dialect, tables)(i) == one_status_fault(
            dialect,
            tables[i],
            names(tables, "id"@).take(i),
        ),
        migration_faults(tables)(i) == one_migration_fault(tables[i]),
        0 <= i < tables.len() ==> names(tables, "key"@)[i] == lua::text_field(tables[i], "key"@)
            && names(tables, "id"@)[i] == lua::text_field(tables[i], "id"@),
        names(tables, "key"@).len() == tables.len(),
        names(tables, "id"@).len() == tables.len(),
        dialect.localized() ==> unsupported_kind(dialect) == "' is unsupported"@,
        !dialect.localized() ==> unsupported_kind(dialect) == "' is unsupported for entry_version "@
            + text::decimal(dialect.release() as int),
{
}

} // verus!
