//! Texts for the user in the dialects of the entry contract.
use vstd::prelude::*;
use crate::error;
use crate::error::{Error, Fault};
use crate::plugin::i18n::{LocalizedText, LocalizedView};
use crate::plugin::lua;
use crate::plugin::lua::{
    optional_localized_text, optional_string, require_localized_text, require_string, LuaTable,
    LuaValue,
};
use crate::plugin::source::entry::Dialect;

verus! {

/// An optional text: a plain string, or one that may be marked for translation.
pub open spec fn label_fault(
    dialect: Dialect,
    t: LuaTable,
    key: Seq<char>,
    context: Seq<char>,
) -> Option<Fault> {
    if dialect.localized() {
        lua::localized_field_fault(t, key, context)
    } else {
        lua::optional_text_fault(t, key, context)
    }
}

pub open spec fn label(dialect: Dialect, t: LuaTable, key: Seq<char>) -> LocalizedView {
    if dialect.localized() {
        lua::localized_field(t, key)
    } else {
        LocalizedView::Raw(lua::text_field(t, key))
    }
}

pub fn read_label(dialect: Dialect, t: &LuaTable, key: &str, context: &str) -> (r: Result<
    LocalizedText,
    Error,
>)
    ensures
        error::outcome(r, label_fault(dialect, *t, key@, context@), label(dialect, *t, key@)),
{
    if dialect.is_localized() {
        optional_localized_text(t, key, context)
    } else {
        let text = optional_string(t, key, context)?;
        Ok(LocalizedText::Raw(text))
    }
}

/// An optional text that plain dialects do not know.
pub open spec fn localized_only_fault(
    dialect: Dialect,
    t: LuaTable,
    key: Seq<char>,
    context: Seq<char>,
) -> Option<Fault> {
    if dialect.localized() {
        lua::localized_field_fault(t, key, context)
    } else {
        None
    }
}

pub open spec fn localized_only(dialect: Dialect, t: LuaTable, key: Seq<char>) -> LocalizedView {
    if dialect.localized() {
        lua::localized_field(t, key)
    } else {
        LocalizedView::none()
    }
}

pub fn read_localized_only(dialect: Dialect, t: &LuaTable, key: &str, context: &str) -> (r: Result<
    LocalizedText,
    Error,
>)
    ensures
        error::outcome(
            r,
            localized_only_fault(dialect, *t, key@, context@),
            localized_only(dialect, *t, key@),
        ),
{
    if dialect.is_localized() {
        optional_localized_text(t, key, context)
    } else {
        Ok(LocalizedText::default())
    }
}

/// A required text. That a plain one is not empty is left to its reader.
pub open spec fn required_label_fault(
    dialect: Dialect,
    t: LuaTable,
    key: Seq<char>,
    context: Seq<char>,
) -> Option<Fault> {
    if dialect.localized() {
        lua::required_localized_fault(t, key, context)
    } else {
        lua::required_text_fault(t, key, context)
    }
}

pub fn require_label(dialect: Dialect, t: &LuaTable, key: &str, context: &str) -> (r: Result<
    LocalizedText,
    Error,
>)
    ensures
        error::outcome(
            r,
            required_label_fault(dialect, *t, key@, context@),
            label(dialect, *t, key@),
        ),
{
    if dialect.is_localized() {
        require_localized_text(t, key, context)
    } else {
        let text = require_string(t, key, context)?;
        Ok(LocalizedText::Raw(text))
    }
}

/// A text for the user of a plain dialect is the string under its key; in the
/// others it is what the key holds, be it a string or the result of `tr()`.
pub proof fn law_labels(dialect: Dialect, t: LuaTable, key: Seq<char>, context: Seq<char>)
    ensures
        dialect.localized() ==> label(dialect, t, key) == lua::localized_field(t, key)
            && localized_only(dialect, t, key) == lua::localized_field(t, key),
        dialect.localized() ==> (label_fault(dialect, t, key, context) is None
            <==> lua::localized_field_fault(t, key, context) is None) && (localized_only_fault(
            dialect,
            t,
            key,
            context,
        ) is None <==> lua::localized_field_fault(t, key, context) is None),
        dialect.localized() ==> (required_label_fault(dialect, t, key, context) is None
            <==> lua::localized_field_fault(t, key, context) is None && lua::localized_field(
            t,
            key,
        ).text().len() > 0),
        !dialect.localized() ==> label(dialect, t, key) == LocalizedView::Raw(
            match t.field(key).as_text() {
                Some(text) => text,
                None => Seq::empty(),
            },
        ),
        !dialect.localized() ==> (label_fault(dialect, t, key, context) is None <==> t.field(
            key,
        ) is Nil || (t.field(key) matches LuaValue::Text(string) && string.text is Some)),
        !dialect.localized() ==> (required_label_fault(dialect, t, key, context) is None
            <==> t.field(key).as_text() is Some),
        !dialect.localized() ==> localized_only(dialect, t, key).text().len() == 0
            && localized_only_fault(dialect, t, key, context) is None,
{
}

/// What is told of a label that is refused is what is told of a localized text
/// where there are any, and of a plain text where there are none.
pub proof fn law_refused_labels(dialect: Dialect, t: LuaTable, key: Seq<char>, context: Seq<char>)
    ensures
        dialect.localized() ==> {
            &&& label_fault(dialect, t, key, context) == lua::localized_field_fault(t, key, context)
            &&& localized_only_fault(dialect, t, key, context) == lua::localized_field_fault(
                t,
                key,
                context,
            )
            &&& required_label_fault(dialect, t, key, context) == lua::required_localized_fault(
                t,
                key,
                context,
            )
        },
        !dialect.localized() ==> {
            &&& label_fault(dialect, t, key, context) == lua::optional_text_fault(t, key, context)
            &&& required_label_fault(dialect, t, key, context) == lua::required_text_fault(
                t,
                key,
                context,
            )
        },
{
}

} // verus!
