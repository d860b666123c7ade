//! What a plugin's Lua code hands over, and the rules for reading it.
use vstd::prelude::*;
use crate::error::{
    first, first_of, lemma_first_of_found, outcome, outcome_check, outcome_list, unless, Error,
    Fault,
};
use crate::map::{lemma_texts_of_insert, texts_of, TextMap};
use crate::plugin::i18n::{LocalizedText, LocalizedView};
use crate::text::{decimal, decimal_i64, decimal_u64, lemma_views_push, same, views};

verus! {

/// A Lua float: how Lua writes it as a string, how it is shown, whether it is
/// a Lua integer too, and the integer that is left when its fraction is cut off.
#[derive(Debug)]
pub struct LuaNumber {
    pub coerced: String,
    pub shown: String,
    pub exact: bool,
    pub whole: Option<i128>,
}

/// A Lua string: its text if it is UTF-8, what is wrong with its bytes if it is
/// not, and the integer that it reads as.
#[derive(Debug)]
pub struct LuaString {
    pub text: Option<String>,
    pub defect: String,
    pub whole: Option<i128>,
}

#[derive(Debug)]
pub enum LuaValue {
    Nil,
    Boolean(bool),
    Integer(i64),
    Number(LuaNumber),
    Text(LuaString),
    Table(LuaTable),
    Function,
    /// The result of `tr()`.
    Localized(LocalizedText),
    /// A value of another kind, by the name of the kind.
    Other(String),
}

#[derive(Debug)]
pub struct LuaField {
    pub key: String,
    pub value: LuaValue,
}

#[derive(Debug)]
pub struct LuaPair {
    pub key: LuaValue,
    pub value: LuaValue,
}

/// A Lua table: the fields under UTF-8 string keys, the values from index 1 up
/// to the first gap, and every other pair.
#[derive(Debug)]
pub struct LuaTable {
    pub fields: Vec<LuaField>,
    pub sequence: Vec<LuaValue>,
    pub others: Vec<LuaPair>,
}

/// The value of the first field with the key; nil where there is none.
pub open spec fn field_in(fields: Seq<LuaField>, key: Seq<char>) -> LuaValue
    decreases fields.len(),
{
    if fields.len() == 0 {
        LuaValue::Nil
    } else if fields[0].key@ == key {
        fields[0].value
    } else {
        field_in(fields.skip(1), key)
    }
}

impl LuaTable {
    pub open spec fn field(self, key: Seq<char>) -> LuaValue {
        field_in(self.fields@, key)
    }

    pub fn get(&self, key: &str) -> (r: &LuaValue)
        ensures
            *r == self.field(key@),
    {
        let mut i: usize = 0;
        assert(self.fields@.skip(0) =~= self.fields@);
        while i < self.fields.len()
            invariant
                i <= self.fields.len(),
                self.field(key@) == field_in(self.fields@.skip(i as int), key@),
            decreases self.fields.len() - i,
        {
            assert(self.fields@.skip(i as int)[0] == self.fields@[i as int]);
            if same(self.fields[i].key.as_str(), key) {
                return &self.fields[i].value;
            }
            assert(self.fields@.skip(i as int).skip(1) =~= self.fields@.skip(i + 1));
            i = i + 1;
        }
        &LuaValue::Nil
    }
}


// ---------------------------------------------------------------------------
// Conversions of one value

impl LuaValue {
    /// The name of the value's kind.
    pub open spec fn kind(self) -> Seq<char> {
        match self {
            LuaValue::Nil => "nil"@,
            LuaValue::Boolean(_) => "boolean"@,
            LuaValue::Integer(_) => "integer"@,
            LuaValue::Number(_) => "number"@,
            LuaValue::Text(_) => "string"@,
            LuaValue::Table(_) => "table"@,
            LuaValue::Function => "function"@,
            LuaValue::Localized(_) => "userdata"@,
            LuaValue::Other(name) => name@,
        }
    }

    pub fn kind_name(&self) -> (name: &str)
        ensures
            name@ == self.kind(),
    {
        match self {
            LuaValue::Nil => "nil",
            LuaValue::Boolean(_) => "boolean",
            LuaValue::Integer(_) => "integer",
            LuaValue::Number(_) => "number",
            LuaValue::Text(_) => "string",
            LuaValue::Table(_) => "table",
            LuaValue::Function => "function",
            LuaValue::Localized(_) => "userdata",
            LuaValue::Other(name) => name.as_str(),
        }
    }

    /// The value as a string: numbers are written out, UTF-8 strings taken as
    /// they are.
    pub open spec fn as_text(self) -> Option<Seq<char>> {
        match self {
            LuaValue::Integer(n) => Some(decimal(n as int)),
            LuaValue::Number(n) => Some(n.coerced@),
            LuaValue::Text(string) => match string.text {
                Some(text) => Some(text@),
                None => None,
            },
            _ => None,
        }
    }

    pub fn to_text(&self) -> (r: Option<String>)
        ensures
            crate::text::view_of(r) == self.as_text(),
    {
        match self {
            LuaValue::Integer(n) => Some(decimal_i64(*n)),
            LuaValue::Number(n) => Some(n.coerced.clone()),
            LuaValue::Text(string) => match &string.text {
                Some(text) => Some(text.clone()),
                None => None,
            },
            _ => None,
        }
    }

    /// The value as an integer, with the fraction of a float cut off.
    pub open spec fn as_integer(self) -> Option<int> {
        match self {
            LuaValue::Integer(n) => Some(n as int),
            LuaValue::Number(n) => match n.whole {
                Some(whole) => Some(whole as int),
                None => None,
            },
            LuaValue::Text(string) => match string.whole {
                Some(whole) => Some(whole as int),
                None => None,
            },
            _ => None,
        }
    }

    /// The value as an integer between two bounds.
    pub open spec fn as_integer_within(self, low: int, high: int) -> Option<int> {
        match self.as_integer() {
            Some(n) => if low <= n <= high {
                Some(n)
            } else {
                None
            },
            None => None,
        }
    }

    fn integer(&self) -> (r: Option<i128>)
        ensures
            match r {
                Some(n) => self.as_integer() == Some(n as int),
                None => self.as_integer() is None,
            },
    {
        match self {
            LuaValue::Integer(n) => Some(*n as i128),
            LuaValue::Number(n) => n.whole,
            LuaValue::Text(string) => string.whole,
            _ => None,
        }
    }

    pub fn to_u32(&self) -> (r: Option<u32>)
        ensures
            match r {
                Some(n) => self.as_integer_within(0, u32::MAX as int) == Some(n as int),
                None => self.as_integer_within(0, u32::MAX as int) is None,
            },
    {
        match self.integer() {
            Some(n) => if 0 <= n && n <= 0xffff_ffff {
                Some(n as u32)
            } else {
                None
            },
            None => None,
        }
    }

    pub fn to_i32(&self) -> (r: Option<i32>)
        ensures
            match r {
                Some(n) => self.as_integer_within(i32::MIN as int, i32::MAX as int) == Some(
                    n as int,
                ),
                None => self.as_integer_within(i32::MIN as int, i32::MAX as int) is None,
            },
    {
        match self.integer() {
            Some(n) => if -0x8000_0000 <= n && n <= 0x7fff_ffff {
                Some(n as i32)
            } else {
                None
            },
            None => None,
        }
    }

    pub fn to_i64(&self) -> (r: Option<i64>)
        ensures
            match r {
                Some(n) => self.as_integer_within(i64::MIN as int, i64::MAX as int) == Some(
                    n as int,
                ),
                None => self.as_integer_within(i64::MIN as int, i64::MAX as int) is None,
            },
    {
        match self.integer() {
            Some(n) => if -0x8000_0000_0000_0000 <= n && n <= 0x7fff_ffff_ffff_ffff {
                Some(n as i64)
            } else {
                None
            },
            None => None,
        }
    }

    pub fn to_u64(&self) -> (r: Option<u64>)
        ensures
            match r {
                Some(n) => self.as_integer_within(0, u64::MAX as int) == Some(n as int),
                None => self.as_integer_within(0, u64::MAX as int) is None,
            },
    {
        match self.integer() {
            Some(n) => if 0 <= n && n <= 0xffff_ffff_ffff_ffff {
                Some(n as u64)
            } else {
                None
            },
            None => None,
        }
    }

    /// Everything but nil and false counts as true.
    pub open spec fn truthy(self) -> bool {
        match self {
            LuaValue::Nil => false,
            LuaValue::Boolean(b) => b,
            _ => true,
        }
    }

    pub fn to_bool(&self) -> (r: bool)
        ensures
            r == self.truthy(),
    {
        match self {
            LuaValue::Nil => false,
            LuaValue::Boolean(b) => *b,
            _ => true,
        }
    }
}

// ---------------------------------------------------------------------------
// Messages

/// Where a field stands.
pub open spec fn at(context: Seq<char>, key: Seq<char>) -> Seq<char> {
    context + "."@ + key
}

/// A complaint about a field.
pub open spec fn complaint(context: Seq<char>, key: Seq<char>, what: Seq<char>) -> Fault {
    Fault::Internal(at(context, key) + what)
}

pub fn place_of(context: &str, key: &str) -> (text: String)
    ensures
        text@ == at(context@, key@),
{
    let mut text = context.to_owned();
    text.append(".");
    text.append(key);
    text
}

pub fn complain(context: &str, key: &str, what: &str) -> (error: Error)
    ensures
        error@ == complaint(context@, key@, what@),
{
    let mut text = place_of(context, key);
    text.append(what);
    Error::Internal(text)
}

/// The entry with a number, counted from 1.
pub open spec fn numbered(context: Seq<char>, i: int) -> Seq<char> {
    context + "["@ + decimal(i + 1) + "]"@
}

pub fn number_entry(context: &str, i: usize) -> (text: String)
    requires
        i < usize::MAX,
    ensures
        text@ == numbered(context@, i as int),
{
    let mut text = context.to_owned();
    text.append("[");
    let number = decimal_u64(i as u64 + 1);
    text.append(number.as_str());
    text.append("]");
    text
}

fn complain_got(context: &str, key: &str, what: &str, value: &LuaValue) -> (error: Error)
    ensures
        error@ == complaint(context@, key@, what@ + ", got "@ + value.kind()),
{
    let mut text = place_of(context, key);
    text.append(what);
    text.append(", got ");
    text.append(value.kind_name());
    assert(text@ =~= at(context@, key@) + (what@ + ", got "@ + value.kind()));
    Error::Internal(text)
}

/// Why a value is not of a kind.
pub open spec fn not_a(value: LuaValue, wanted: Seq<char>) -> Seq<char> {
    "error converting Lua "@ + value.kind() + " to "@ + wanted
}

/// Why a string is not taken as text.
pub open spec fn not_utf8(string: LuaString) -> Seq<char> {
    "error converting Lua string to &str ("@ + string.defect@ + ")"@
}

/// Why a value is not taken as a string.
pub open spec fn not_text(value: LuaValue) -> Seq<char> {
    match value {
        LuaValue::Text(string) => "error converting Lua string to String ("@ + string.defect@
            + ")"@,
        other => not_a(other, "String (expected string or number)"@),
    }
}

/// Why a key is not taken as a string.
pub open spec fn not_key(key: LuaValue) -> Seq<char> {
    match key {
        LuaValue::Text(string) => not_utf8(string),
        other => not_text(other),
    }
}

/// Whether a value holds a number, be it as a string.
pub open spec fn holds_number(value: LuaValue) -> bool {
    match value {
        LuaValue::Integer(_) => true,
        LuaValue::Number(_) => true,
        LuaValue::Text(string) => string.whole is Some,
        _ => false,
    }
}

/// The kind of a value that is asked for an integer: a float that is an
/// integer counts as one.
pub open spec fn integer_kind(value: LuaValue) -> Seq<char> {
    match value {
        LuaValue::Number(n) => if n.exact {
            "integer"@
        } else {
            "number"@
        },
        other => other.kind(),
    }
}

/// Why a value is not taken as an integer of a type.
pub open spec fn not_integer(value: LuaValue, wanted: Seq<char>) -> Seq<char> {
    "error converting Lua "@ + integer_kind(value) + " to "@ + wanted + if holds_number(value) {
        " (out of range)"@
    } else {
        " (expected number or string coercible to number)"@
    }
}

pub fn explain_kind(value: &LuaValue, wanted: &str) -> (text: String)
    ensures
        text@ == not_a(*value, wanted@),
{
    let mut text = "error converting Lua ".to_owned();
    text.append(value.kind_name());
    text.append(" to ");
    text.append(wanted);
    text
}

pub fn explain_utf8(string: &LuaString) -> (text: String)
    ensures
        text@ == not_utf8(*string),
{
    let mut text = "error converting Lua string to &str (".to_owned();
    text.append(string.defect.as_str());
    text.append(")");
    text
}

pub fn explain_text(value: &LuaValue) -> (text: String)
    ensures
        text@ == not_text(*value),
{
    match value {
        LuaValue::Text(string) => {
            let mut text = "error converting Lua string to String (".to_owned();
            text.append(string.defect.as_str());
            text.append(")");
            text
        },
        other => explain_kind(other, "String (expected string or number)"),
    }
}

pub fn explain_key(key: &LuaValue) -> (text: String)
    ensures
        text@ == not_key(*key),
{
    match key {
        LuaValue::Text(string) => explain_utf8(string),
        other => explain_text(other),
    }
}

pub fn explain_integer(value: &LuaValue, wanted: &str) -> (text: String)
    ensures
        text@ == not_integer(*value, wanted@),
{
    let mut text = "error converting Lua ".to_owned();
    let ranged = match value {
        LuaValue::Number(n) => {
            text.append(
                if n.exact {
                    "integer"
                } else {
                    "number"
                },
            );
            true
        },
        other => {
            text.append(other.kind_name());
            match other {
                LuaValue::Integer(_) => true,
                LuaValue::Text(string) => string.whole.is_some(),
                _ => false,
            }
        },
    };
    text.append(" to ");
    text.append(wanted);
    if ranged {
        text.append(" (out of range)");
    } else {
        text.append(" (expected number or string coercible to number)");
    }
    text
}

/// A complaint with its reason.
pub fn complain_why(context: &str, key: &str, what: &str, why: &str) -> (error: Error)
    ensures
        error@ == complaint(context@, key@, what@ + why@),
{
    let mut text = place_of(context, key);
    text.append(what);
    text.append(why);
    assert(text@ =~= at(context@, key@) + (what@ + why@));
    Error::Internal(text)
}

// ---------------------------------------------------------------------------
// Fields of a table

/// A required string; numbers are taken as their decimal form.
pub open spec fn required_text_fault(
    t: LuaTable,
    key: Seq<char>,
    context: Seq<char>,
) -> Option<Fault> {
    unless(
        t.field(key).as_text() is Some,
        complaint(context, key, " required: "@ + not_text(t.field(key))),
    )
}

pub open spec fn text_field(t: LuaTable, key: Seq<char>) -> Seq<char> {
    match t.field(key).as_text() {
        Some(text) => text,
        None => Seq::empty(),
    }
}

pub fn require_string(t: &LuaTable, key: &str, context: &str) -> (r: Result<String, Error>)
    ensures
        outcome(r, required_text_fault(*t, key@, context@), text_field(*t, key@)),
{
    let value = t.get(key);
    match value.to_text() {
        Some(text) => Ok(text),
        None => {
            let why = explain_text(value);
            Err(complain_why(context, key, " required: ", why.as_str()))
        },
    }
}

/// An optional string: absent or a UTF-8 string, nothing else.
pub open spec fn optional_text_fault(
    t: LuaTable,
    key: Seq<char>,
    context: Seq<char>,
) -> Option<Fault> {
    match t.field(key) {
        LuaValue::Nil => None,
        LuaValue::Text(string) => unless(
            string.text is Some,
            complaint(context, key, " invalid string: "@ + not_utf8(string)),
        ),
        other => Some(complaint(context, key, " must be a string"@ + ", got "@ + other.kind())),
    }
}

pub fn optional_string(t: &LuaTable, key: &str, context: &str) -> (r: Result<String, Error>)
    ensures
        outcome(r, optional_text_fault(*t, key@, context@), text_field(*t, key@)),
{
    let value = t.get(key);
    match value {
        LuaValue::Nil => Ok(String::new()),
        LuaValue::Text(string) => match &string.text {
            Some(text) => Ok(text.clone()),
            None => {
                let why = explain_utf8(string);
                Err(complain_why(context, key, " invalid string: ", why.as_str()))
            },
        },
        other => Err(complain_got(context, key, " must be a string", other)),
    }
}

/// A text for the user: a UTF-8 string or a `tr()` result.
pub open spec fn localized_fault(
    value: LuaValue,
    key: Seq<char>,
    context: Seq<char>,
) -> Option<Fault> {
    match value {
        LuaValue::Nil => None,
        LuaValue::Text(string) => unless(
            string.text is Some,
            complaint(context, key, " invalid string: "@ + not_utf8(string)),
        ),
        LuaValue::Localized(_) => None,
        other => Some(
            complaint(
                context,
                key,
                if other.kind() == "userdata"@ {
                    " must be a string or tr() result"@
                } else {
                    " must be a string or tr() result"@ + ", got "@ + other.kind()
                },
            ),
        ),
    }
}

pub open spec fn localized_value(value: LuaValue) -> LocalizedView {
    match value {
        LuaValue::Text(string) => match string.text {
            Some(text) => LocalizedView::Raw(text@),
            None => LocalizedView::none(),
        },
        LuaValue::Localized(text) => text@,
        _ => LocalizedView::none(),
    }
}

pub fn localized_text(
    value: &LuaValue,
    key: &str,
    context: &str,
) -> (r: Result<LocalizedText, Error>)
    ensures
        outcome(r, localized_fault(*value, key@, context@), localized_value(*value)),
{
    match value {
        LuaValue::Nil => Ok(LocalizedText::default()),
        LuaValue::Text(string) => match &string.text {
            Some(text) => Ok(LocalizedText::raw(text.as_str())),
            None => {
                let why = explain_utf8(string);
                Err(complain_why(context, key, " invalid string: ", why.as_str()))
            },
        },
        LuaValue::Localized(text) => Ok(text.clone()),
        other => if same(other.kind_name(), "userdata") {
            Err(complain(context, key, " must be a string or tr() result"))
        } else {
            Err(complain_got(context, key, " must be a string or tr() result", other))
        },
    }
}

pub open spec fn localized_field_fault(
    t: LuaTable,
    key: Seq<char>,
    context: Seq<char>,
) -> Option<Fault> {
    localized_fault(t.field(key), key, context)
}

pub open spec fn localized_field(t: LuaTable, key: Seq<char>) -> LocalizedView {
    localized_value(t.field(key))
}

pub fn optional_localized_text(t: &LuaTable, key: &str, context: &str) -> (r: Result<
    LocalizedText,
    Error,
>)
    ensures
        outcome(r, localized_field_fault(*t, key@, context@), localized_field(*t, key@)),
{
    localized_text(t.get(key), key, context)
}

pub open spec fn required_localized_fault(
    t: LuaTable,
    key: Seq<char>,
    context: Seq<char>,
) -> Option<Fault> {
    first(
        localized_field_fault(t, key, context),
        unless(
            localized_field(t, key).text().len() > 0,
            complaint(context, key, " must not be empty"@),
        ),
    )
}

pub fn require_localized_text(t: &LuaTable, key: &str, context: &str) -> (r: Result<
    LocalizedText,
    Error,
>)
    ensures
        outcome(r, required_localized_fault(*t, key@, context@), localized_field(*t, key@)),
{
    let value = optional_localized_text(t, key, context)?;
    if value.text().is_empty() {
        return Err(complain(context, key, " must not be empty"));
    }
    Ok(value)
}

/// An optional table.
pub open spec fn optional_table_fault(
    t: LuaTable,
    key: Seq<char>,
    context: Seq<char>,
) -> Option<Fault> {
    match t.field(key) {
        LuaValue::Nil => None,
        LuaValue::Table(_) => None,
        other => Some(complaint(context, key, " must be a table"@ + ", got "@ + other.kind())),
    }
}

pub open spec fn table_field(t: LuaTable, key: Seq<char>) -> Option<LuaTable> {
    match t.field(key) {
        LuaValue::Table(table) => Some(table),
        _ => None,
    }
}

pub fn optional_table<'a>(t: &'a LuaTable, key: &str, context: &str) -> (r: Result<
    Option<&'a LuaTable>,
    Error,
>)
    ensures
        match r {
            Ok(Some(table)) => optional_table_fault(*t, key@, context@) is None && table_field(
                *t,
                key@,
            ) == Some(*table),
            Ok(None) => optional_table_fault(*t, key@, context@) is None && table_field(*t, key@)
                is None,
            Err(e) => optional_table_fault(*t, key@, context@) == Some(e@),
        },
{
    let value = t.get(key);
    match value {
        LuaValue::Nil => Ok(None),
        LuaValue::Table(table) => Ok(Some(table)),
        other => Err(complain_got(context, key, " must be a table", other)),
    }
}

/// An optional boolean.
pub open spec fn optional_bool_fault(
    t: LuaTable,
    key: Seq<char>,
    context: Seq<char>,
) -> Option<Fault> {
    match t.field(key) {
        LuaValue::Nil => None,
        LuaValue::Boolean(_) => None,
        other => Some(complaint(context, key, " must be a boolean"@ + ", got "@ + other.kind())),
    }
}

pub open spec fn bool_field(t: LuaTable, key: Seq<char>, default: bool) -> bool {
    match t.field(key) {
        LuaValue::Boolean(b) => b,
        _ => default,
    }
}

pub fn optional_bool(t: &LuaTable, key: &str, context: &str, default: bool) -> (r: Result<
    bool,
    Error,
>)
    ensures
        match r {
            Ok(b) => optional_bool_fault(*t, key@, context@) is None && b == bool_field(
                *t,
                key@,
                default,
            ),
            Err(e) => optional_bool_fault(*t, key@, context@) == Some(e@),
        },
{
    let value = t.get(key);
    match value {
        LuaValue::Nil => Ok(default),
        LuaValue::Boolean(b) => Ok(*b),
        other => Err(complain_got(context, key, " must be a boolean", other)),
    }
}

/// A field that must hold a function.
pub open spec fn function_fault(t: LuaTable, key: Seq<char>, context: Seq<char>) -> Option<Fault> {
    unless(
        t.field(key) is Function,
        complaint(context, key, " required: "@ + not_a(t.field(key), "function"@)),
    )
}

pub fn require_table_function(t: &LuaTable, key: &str, context: &str) -> (r: Result<(), Error>)
    ensures
        outcome_check(r, function_fault(*t, key@, context@)),
{
    match t.get(key) {
        LuaValue::Function => Ok(()),
        other => {
            let why = explain_kind(other, "function");
            Err(complain_why(context, key, " required: ", why.as_str()))
        },
    }
}

/// A field that must not be there.
pub open spec fn absent_fault(t: LuaTable, key: Seq<char>, context: Seq<char>) -> Option<Fault> {
    unless(
        t.field(key) is Nil,
        complaint(context, key, " must be absent unless its capability is declared"@),
    )
}

pub fn require_field_absent(t: &LuaTable, key: &str, context: &str) -> (r: Result<(), Error>)
    ensures
        outcome_check(r, absent_fault(*t, key@, context@)),
{
    match t.get(key) {
        LuaValue::Nil => Ok(()),
        _ => Err(
            complain(context, key, " must be absent unless its capability is declared"),
        ),
    }
}

/// A callback that must be there exactly if its capability is declared.
pub open spec fn declared_function_fault(
    t: LuaTable,
    key: Seq<char>,
    context: Seq<char>,
    declared: bool,
) -> Option<Fault> {
    if declared {
        function_fault(t, key, context)
    } else {
        absent_fault(t, key, context)
    }
}

pub fn match_declared_function(t: &LuaTable, key: &str, context: &str, declared: bool) -> (r:
    Result<(), Error>)
    ensures
        outcome_check(r, declared_function_fault(*t, key@, context@, declared)),
{
    if declared {
        require_table_function(t, key, context)
    } else {
        require_field_absent(t, key, context)
    }
}

/// A table that a module must export.
pub open spec fn module_table_fault(module: LuaTable, name: Seq<char>) -> Option<Fault> {
    unless(
        module.field(name) is Table,
        complaint("module"@, name, " table required: "@ + not_a(module.field(name), "table"@)),
    )
}

pub fn require_module_table<'a>(module: &'a LuaTable, name: &str) -> (r: Result<
    &'a LuaTable,
    Error,
>)
    ensures
        match r {
            Ok(table) => module_table_fault(*module, name@) is None && table_field(*module, name@)
                == Some(*table),
            Err(e) => module_table_fault(*module, name@) == Some(e@),
        },
{
    match module.get(name) {
        LuaValue::Table(table) => Ok(table),
        other => {
            let why = explain_kind(other, "table");
            Err(complain_why("module", name, " table required: ", why.as_str()))
        },
    }
}

// ---------------------------------------------------------------------------
// Sequences

/// The fault of a sequence that must hold strings or numbers.
pub open spec fn text_items_fault(
    items: Seq<LuaValue>,
    key: Seq<char>,
    context: Seq<char>,
) -> Option<Fault> {
    first_of(
        items.len() as int,
        |i: int|
            unless(
                items[i].as_text() is Some,
                Fault::Internal(
                    numbered(at(context, key), i) + " must be a string: "@ + not_text(items[i]),
                ),
            ),
    )
}

pub open spec fn text_items(items: Seq<LuaValue>) -> Seq<Seq<char>> {
    Seq::new(
        items.len(),
        |i: int|
            match items[i].as_text() {
                Some(text) => text,
                None => Seq::empty(),
            },
    )
}

pub fn string_sequence(items: &Vec<LuaValue>, key: &str, context: &str) -> (r: Result<
    Vec<String>,
    Error,
>)
    ensures
        outcome_list(r, text_items_fault(items@, key@, context@), text_items(items@)),
{
    let ghost fault = |i: int|
        unless(
            items@[i].as_text() is Some,
            Fault::Internal(
                numbered(at(context@, key@), i) + " must be a string: "@ + not_text(items@[i]),
            ),
        );
    let mut out: Vec<String> = Vec::new();
    let mut i: usize = 0;
    while i < items.len()
        invariant
            i <= items.len(),
            fault == (|i: int|
                unless(
                    items@[i].as_text() is Some,
                    Fault::Internal(
                        numbered(at(context@, key@), i) + " must be a string: "@ + not_text(
                            items@[i],
                        ),
                    ),
                )),
            first_of(i as int, fault) is None,
            views(out@) == text_items(items@.take(i as int)),
        decreases items.len() - i,
    {
        match items[i].to_text() {
            Some(text) => {
                proof {
                    lemma_views_push(out@, text);
                    assert(fault(i as int) is None);
                }
                out.push(text);
                assert(views(out@) =~= text_items(items@.take(i + 1)));
            },
            None => {
                let place = place_of(context, key);
                let mut text = number_entry(place.as_str(), i);
                text.append(" must be a string: ");
                let why = explain_text(&items[i]);
                text.append(why.as_str());
                proof {
                    lemma_first_of_found(i as int, items@.len() as int, fault);
                }
                return Err(Error::Internal(text));
            },
        }
        i = i + 1;
    }
    assert(items@.take(i as int) =~= items@);
    Ok(out)
}

/// A required list of strings.
pub open spec fn required_texts_fault(
    t: LuaTable,
    key: Seq<char>,
    context: Seq<char>,
) -> Option<Fault> {
    match t.field(key) {
        LuaValue::Table(table) => text_items_fault(table.sequence@, key, context),
        other => Some(complaint(context, key, " required: "@ + not_a(other, "table"@))),
    }
}

pub open spec fn texts_field(t: LuaTable, key: Seq<char>) -> Seq<Seq<char>> {
    match t.field(key) {
        LuaValue::Table(table) => text_items(table.sequence@),
        _ => Seq::empty(),
    }
}

pub fn require_string_sequence(t: &LuaTable, key: &str, context: &str) -> (r: Result<
    Vec<String>,
    Error,
>)
    ensures
        outcome_list(r, required_texts_fault(*t, key@, context@), texts_field(*t, key@)),
{
    match t.get(key) {
        LuaValue::Table(table) => string_sequence(&table.sequence, key, context),
        other => {
            let why = explain_kind(other, "table");
            Err(complain_why(context, key, " required: ", why.as_str()))
        },
    }
}

/// An optional list of strings.
pub open spec fn optional_texts_fault(
    t: LuaTable,
    key: Seq<char>,
    context: Seq<char>,
) -> Option<Fault> {
    match t.field(key) {
        LuaValue::Nil => None,
        LuaValue::Table(table) => text_items_fault(table.sequence@, key, context),
        other => Some(complaint(context, key, " must be a table"@ + ", got "@ + other.kind())),
    }
}

pub fn optional_string_sequence(t: &LuaTable, key: &str, context: &str) -> (r: Result<
    Vec<String>,
    Error,
>)
    ensures
        outcome_list(r, optional_texts_fault(*t, key@, context@), texts_field(*t, key@)),
{
    match optional_table(t, key, context)? {
        Some(table) => string_sequence(&table.sequence, key, context),
        None => {
            let out: Vec<String> = Vec::new();
            assert(views(out@) =~= Seq::<Seq<char>>::empty());
            Ok(out)
        },
    }
}

/// The fault of a field of `info()` that must be a list of tables if it is
/// there.
pub open spec fn tables_fault(t: LuaTable, key: Seq<char>) -> Option<Fault> {
    match t.field(key) {
        LuaValue::Nil => None,
        LuaValue::Table(table) => first_of(
            table.sequence@.len() as int,
            |i: int|
                unless(
                    table.sequence@[i] is Table,
                    complaint("info()"@, key, " entry: "@ + not_a(table.sequence@[i], "table"@)),
                ),
        ),
        _ => Some(complaint("info()"@, key, " must be a sequence of tables"@)),
    }
}

pub open spec fn tables_field(t: LuaTable, key: Seq<char>) -> Seq<LuaTable> {
    match t.field(key) {
        LuaValue::Table(table) => table_items(table.sequence@),
        _ => Seq::empty(),
    }
}

pub open spec fn table_items(items: Seq<LuaValue>) -> Seq<LuaTable> {
    Seq::new(items.len(), |i: int| items[i]->Table_0)
}

/// The tables of a list field of `info()`.
pub fn info_sequence<'a>(info: &'a LuaTable, key: &str) -> (r: Result<Vec<&'a LuaTable>, Error>)
    ensures
        match r {
            Ok(tables) => tables_fault(*info, key@) is None && tables@.len() == tables_field(
                *info,
                key@,
            ).len() && forall|i: int|
                0 <= i < tables@.len() ==> *(#[trigger] tables@[i]) == tables_field(*info, key@)[i],
            Err(e) => tables_fault(*info, key@) == Some(e@),
        },
{
    let mut out: Vec<&'a LuaTable> = Vec::new();
    match info.get(key) {
        LuaValue::Nil => Ok(out),
        LuaValue::Table(table) => {
            let ghost fault = |i: int|
                unless(
                    table.sequence@[i] is Table,
                    complaint("info()"@, key@, " entry: "@ + not_a(table.sequence@[i], "table"@)),
                );
            let items = &table.sequence;
            let mut i: usize = 0;
            while i < items.len()
                invariant
                    i <= items.len(),
                    fault == (|i: int|
                        unless(
                            items@[i] is Table,
                            complaint("info()"@, key@, " entry: "@ + not_a(items@[i], "table"@)),
                        )),
                    first_of(i as int, fault) is None,
                    tables_fault(*info, key@) == first_of(items@.len() as int, fault),
                    out@.len() == i,
                    forall|j: int|
                        0 <= j < i ==> items@[j] == LuaValue::Table(*(#[trigger] out@[j])),
                decreases items.len() - i,
            {
                match &items[i] {
                    LuaValue::Table(entry) => {
                        assert(fault(i as int) is None);
                        out.push(entry);
                    },
                    other => {
                        proof {
                            lemma_first_of_found(i as int, items@.len() as int, fault);
                        }
                        let why = explain_kind(other, "table");
                        return Err(complain_why("info()", key, " entry: ", why.as_str()));
                    },
                }
                i = i + 1;
            }
            Ok(out)
        },
        _ => Err(complain("info()", key, " must be a sequence of tables")),
    }
}

// ---------------------------------------------------------------------------
// Maps

/// Why the first value of a sequence, from an index on, that is no string is
/// none.
pub open spec fn sequence_defect(items: Seq<LuaValue>, i: int) -> Option<Seq<char>>
    decreases items.len() - i,
{
    if i >= items.len() {
        None
    } else if items[i].as_text() is None {
        Some(not_text(items[i]))
    } else {
        sequence_defect(items, i + 1)
    }
}

/// The same for the values of fields.
pub open spec fn fields_defect(fields: Seq<LuaField>, i: int) -> Option<Seq<char>>
    decreases fields.len() - i,
{
    if i >= fields.len() {
        None
    } else if fields[i].value.as_text() is None {
        Some(not_text(fields[i].value))
    } else {
        fields_defect(fields, i + 1)
    }
}

/// The same for the keys and values of pairs.
pub open spec fn others_defect(others: Seq<LuaPair>, i: int) -> Option<Seq<char>>
    decreases others.len() - i,
{
    if i >= others.len() {
        None
    } else if others[i].key.as_text() is None {
        Some(not_key(others[i].key))
    } else if others[i].value.as_text() is None {
        Some(not_text(others[i].value))
    } else {
        others_defect(others, i + 1)
    }
}

/// Why a table is no map of strings, or of numbers taken as such. Lua walks
/// the pairs of a table in no fixed order: of several that are at fault the
/// one is named that the table lists first.
pub open spec fn text_map_defect(t: LuaTable) -> Option<Seq<char>> {
    match sequence_defect(t.sequence@, 0) {
        Some(why) => Some(why),
        None => match fields_defect(t.fields@, 0) {
            Some(why) => Some(why),
            None => others_defect(t.others@, 0),
        },
    }
}

/// The first `n` values of a sequence under their numbers.
pub open spec fn sequence_map(items: Seq<LuaValue>, n: int) -> Map<Seq<char>, Seq<char>>
    decreases n,
{
    if n <= 0 {
        Map::empty()
    } else {
        sequence_map(items, n - 1).insert(decimal(n), items[n - 1].as_text()->0)
    }
}

pub open spec fn fields_map(
    before: Map<Seq<char>, Seq<char>>,
    fields: Seq<LuaField>,
    n: int,
) -> Map<Seq<char>, Seq<char>>
    decreases n,
{
    if n <= 0 {
        before
    } else {
        fields_map(before, fields, n - 1).insert(
            fields[n - 1].key@,
            fields[n - 1].value.as_text()->0,
        )
    }
}

pub open spec fn others_map(
    before: Map<Seq<char>, Seq<char>>,
    others: Seq<LuaPair>,
    n: int,
) -> Map<Seq<char>, Seq<char>>
    decreases n,
{
    if n <= 0 {
        before
    } else {
        others_map(before, others, n - 1).insert(
            others[n - 1].key.as_text()->0,
            others[n - 1].value.as_text()->0,
        )
    }
}

/// The texts of a table under its keys.
pub open spec fn text_map(t: LuaTable) -> Map<Seq<char>, Seq<char>> {
    let numbered = sequence_map(t.sequence@, t.sequence@.len() as int);
    let named = fields_map(numbered, t.fields@, t.fields@.len() as int);
    others_map(named, t.others@, t.others@.len() as int)
}

/// The pairs of a table as texts, or why one of them is none.
pub fn to_text_map(t: &LuaTable) -> (r: Result<TextMap<String>, String>)
    ensures
        match r {
            Ok(map) => text_map_defect(*t) is None && map.wf() && texts_of(map@) == text_map(*t),
            Err(why) => text_map_defect(*t) == Some(why@),
        },
{
    let mut map: TextMap<String> = TextMap::new();
    assert(texts_of(map@) =~= Map::<Seq<char>, Seq<char>>::empty());
    let mut i: usize = 0;
    while i < t.sequence.len()
        invariant
            i <= t.sequence@.len(),
            map.wf(),
            sequence_defect(t.sequence@, 0) == sequence_defect(t.sequence@, i as int),
            texts_of(map@) == sequence_map(t.sequence@, i as int),
        decreases t.sequence@.len() - i,
    {
        match t.sequence[i].to_text() {
            Some(text) => {
                let key = decimal_u64(i as u64 + 1);
                proof {
                    lemma_texts_of_insert(map@, key@, text);
                }
                map.insert(key, text);
            },
            None => {
                return Err(explain_text(&t.sequence[i]));
            },
        }
        i = i + 1;
    }
    let ghost numbered = texts_of(map@);
    i = 0;
    while i < t.fields.len()
        invariant
            i <= t.fields@.len(),
            map.wf(),
            sequence_defect(t.sequence@, 0) is None,
            fields_defect(t.fields@, 0) == fields_defect(t.fields@, i as int),
            texts_of(map@) == fields_map(numbered, t.fields@, i as int),
        decreases t.fields@.len() - i,
    {
        match t.fields[i].value.to_text() {
            Some(text) => {
                let key = t.fields[i].key.clone();
                proof {
                    lemma_texts_of_insert(map@, key@, text);
                }
                map.insert(key, text);
            },
            None => {
                return Err(explain_text(&t.fields[i].value));
            },
        }
        i = i + 1;
    }
    let ghost named = texts_of(map@);
    i = 0;
    while i < t.others.len()
        invariant
            i <= t.others@.len(),
            map.wf(),
            sequence_defect(t.sequence@, 0) is None,
            fields_defect(t.fields@, 0) is None,
            others_defect(t.others@, 0) == others_defect(t.others@, i as int),
            texts_of(map@) == others_map(named, t.others@, i as int),
        decreases t.others@.len() - i,
    {
        match (t.others[i].key.to_text(), t.others[i].value.to_text()) {
            (Some(key), Some(text)) => {
                proof {
                    lemma_texts_of_insert(map@, key@, text);
                }
                map.insert(key, text);
            },
            (None, _) => {
                return Err(explain_key(&t.others[i].key));
            },
            (Some(_), None) => {
                return Err(explain_text(&t.others[i].value));
            },
        }
        i = i + 1;
    }
    Ok(map)
}

/// The fault of a field that must be a map of strings if it is there.
pub open spec fn text_map_fault(t: LuaTable, key: Seq<char>, context: Seq<char>) -> Option<Fault> {
    match t.field(key) {
        LuaValue::Nil => None,
        LuaValue::Table(table) => match text_map_defect(table) {
            Some(why) => Some(complaint(context, key, " must be a string map: "@ + why)),
            None => None,
        },
        other => Some(complaint(context, key, " must be a table"@ + ", got "@ + other.kind())),
    }
}

pub open spec fn text_map_field(t: LuaTable, key: Seq<char>) -> Map<Seq<char>, Seq<char>> {
    match t.field(key) {
        LuaValue::Table(table) => text_map(table),
        _ => Map::empty(),
    }
}

pub fn parse_lua_string_map(t: &LuaTable, key: &str, context: &str) -> (r: Result<
    TextMap<String>,
    Error,
>)
    ensures
        match r {
            Ok(map) => text_map_fault(*t, key@, context@) is None && map.wf() && texts_of(map@)
                == text_map_field(*t, key@),
            Err(e) => text_map_fault(*t, key@, context@) == Some(e@),
        },
{
    match optional_table(t, key, context)? {
        Some(table) => match to_text_map(table) {
            Ok(map) => Ok(map),
            Err(why) => Err(complain_why(context, key, " must be a string map: ", why.as_str())),
        },
        None => {
            let map: TextMap<String> = TextMap::new();
            assert(texts_of(map@) =~= Map::<Seq<char>, Seq<char>>::empty());
            Ok(map)
        },
    }
}

// ---------------------------------------------------------------------------
// Laws on reading

proof fn lemma_field_in(fields: Seq<LuaField>, key: Seq<char>, i: int)
    requires
        0 <= i < fields.len(),
        fields[i].key@ == key,
        forall|j: int| 0 <= j < i ==> (#[trigger] fields[j]).key@ != key,
    ensures
        field_in(fields, key) == fields[i].value,
    decreases fields.len(),
{
    if i > 0 {
        assert(fields[0].key@ != key);
        assert forall|j: int| 0 <= j < i - 1 implies (#[trigger] fields.skip(1)[j]).key@ != key by {
            assert(fields.skip(1)[j] == fields[j + 1]);
        }
        lemma_field_in(fields.skip(1), key, i - 1);
    }
}

proof fn lemma_no_field_in(fields: Seq<LuaField>, key: Seq<char>)
    requires
        forall|j: int| 0 <= j < fields.len() ==> (#[trigger] fields[j]).key@ != key,
    ensures
        field_in(fields, key) is Nil,
    decreases fields.len(),
{
    if fields.len() > 0 {
        assert(fields[0].key@ != key);
        assert forall|j: int| 0 <= j < fields.skip(1).len() implies (
        #[trigger] fields.skip(1)[j]).key@ != key by {
            assert(fields.skip(1)[j] == fields[j + 1]);
        }
        lemma_no_field_in(fields.skip(1), key);
    }
}

/// What a table holds under a key is the value of the first field with the key.
pub proof fn law_field_is_found(t: LuaTable, key: Seq<char>, i: int)
    requires
        0 <= i < t.fields@.len(),
        t.fields@[i].key@ == key,
        forall|j: int| 0 <= j < i ==> (#[trigger] t.fields@[j]).key@ != key,
    ensures
        t.field(key) == t.fields@[i].value,
{
    lemma_field_in(t.fields@, key, i);
}

/// A table holds nothing under a key that none of its fields has.
pub proof fn law_other_fields_are_nil(t: LuaTable, key: Seq<char>)
    requires
        forall|j: int| 0 <= j < t.fields@.len() ==> (#[trigger] t.fields@[j]).key@ != key,
    ensures
        t.field(key) is Nil,
{
    lemma_no_field_in(t.fields@, key);
}

/// Strings are taken as they are, integers as digits that read back as the
/// integer, floats as Lua writes them; nothing else is a string.
pub proof fn law_value_as_text(value: LuaValue)
    ensures
        value matches LuaValue::Text(string) ==> match string.text {
            Some(text) => value.as_text() == Some(text@),
            None => value.as_text() is None,
        },
        value matches LuaValue::Integer(n) ==> value.as_text() is Some
            && crate::text::integer_value(value.as_text()->0, true) == Some(n as int),
        value matches LuaValue::Number(n) ==> value.as_text() == Some(n.coerced@),
        !(value is Text || value is Integer || value is Number) ==> value.as_text() is None,
{
    if let LuaValue::Integer(n) = value {
        crate::text::law_decimal_reads_back(n as int, true);
    }
}

/// Integers are taken as they are, floats and strings as the integer that they
/// read as, and only within the bounds; nothing else is an integer.
pub proof fn law_value_as_integer(value: LuaValue, low: int, high: int)
    ensures
        value.as_integer_within(low, high) matches Some(n) ==> low <= n <= high && (
        value == LuaValue::Integer(n as i64) || (value matches LuaValue::Number(f) && f.whole
            == Some(n as i128)) || (value matches LuaValue::Text(s) && s.whole == Some(n as i128))),
        value matches LuaValue::Integer(n) ==> (value.as_integer_within(low, high) is Some <==> low
            <= n <= high),
        value matches LuaValue::Number(f) ==> (value.as_integer_within(low, high) is Some
            <==> f.whole is Some && low <= f.whole->0 <= high),
        value matches LuaValue::Text(s) ==> (value.as_integer_within(low, high) is Some
            <==> s.whole is Some && low <= s.whole->0 <= high),
        !(value is Text || value is Integer || value is Number) ==> value.as_integer_within(
            low,
            high,
        ) is None,
{
}

/// Only nil and false count as false.
pub proof fn law_value_truthy(value: LuaValue)
    ensures
        !value.truthy() <==> value is Nil || value == LuaValue::Boolean(false),
{
}

/// A required string is there exactly where the field is a string or a number;
/// an optional one may be missing and is then empty, and a number is refused.
pub proof fn law_strings(t: LuaTable, key: Seq<char>, context: Seq<char>)
    ensures
        required_text_fault(t, key, context) is None <==> t.field(key).as_text() is Some,
        t.field(key).as_text() is Some ==> t.field(key).as_text() == Some(text_field(t, key)),
        t.field(key).as_text() is None ==> text_field(t, key).len() == 0,
        optional_text_fault(t, key, context) is None <==> t.field(key) is Nil || (t.field(
            key,
        ) matches LuaValue::Text(string) && string.text is Some),
{
}

/// A text for the user is missing and then empty, a string, or the result of
/// `tr()`; where it is required it is not empty.
pub proof fn law_localized_texts(t: LuaTable, key: Seq<char>, context: Seq<char>)
    ensures
        localized_field_fault(t, key, context) is None <==> t.field(key) is Nil || t.field(
            key,
        ) is Localized || (t.field(key) matches LuaValue::Text(string) && string.text is Some),
        t.field(key) matches LuaValue::Text(string) ==> (string.text matches Some(text)
            ==> localized_field(t, key) == LocalizedView::Raw(text@)),
        t.field(key) matches LuaValue::Localized(text) ==> localized_field(t, key) == text@,
        t.field(key) is Nil ==> localized_field(t, key) == LocalizedView::Raw(Seq::empty()),
        required_localized_fault(t, key, context) is None <==> localized_field_fault(
            t,
            key,
            context,
        ) is None && localized_field(t, key).text().len() > 0,
{
}

/// An optional flag is missing or a boolean, and then that boolean.
pub proof fn law_flags(t: LuaTable, key: Seq<char>, context: Seq<char>, default: bool)
    ensures
        optional_bool_fault(t, key, context) is None <==> t.field(key) is Nil || t.field(
            key,
        ) is Boolean,
        t.field(key) matches LuaValue::Boolean(b) ==> bool_field(t, key, default) == b,
        t.field(key) is Nil ==> bool_field(t, key, default) == default,
{
}

/// An optional table is missing or a table.
pub proof fn law_tables(t: LuaTable, key: Seq<char>, context: Seq<char>)
    ensures
        optional_table_fault(t, key, context) is None <==> t.field(key) is Nil || t.field(
            key,
        ) is Table,
        t.field(key) matches LuaValue::Table(table) ==> table_field(t, key) == Some(table),
        !(t.field(key) is Table) ==> table_field(t, key) is None,
        module_table_fault(t, key) is None <==> t.field(key) is Table,
{
}

/// A function is exported exactly where it is declared.
pub proof fn law_functions(t: LuaTable, key: Seq<char>, context: Seq<char>)
    ensures
        function_fault(t, key, context) is None <==> t.field(key) is Function,
        absent_fault(t, key, context) is None <==> t.field(key) is Nil,
        declared_function_fault(t, key, context, true) is None <==> t.field(key) is Function,
        declared_function_fault(t, key, context, false) is None <==> t.field(key) is Nil,
{
}

proof fn lemma_text_items(items: Seq<LuaValue>, key: Seq<char>, context: Seq<char>)
    ensures
        text_items_fault(items, key, context) is None <==> forall|i: int|
            0 <= i < items.len() ==> (#[trigger] items[i]).as_text() is Some,
{
    let fault = |i: int|
        unless(
            items[i].as_text() is Some,
            Fault::Internal(
                numbered(at(context, key), i) + " must be a string: "@ + not_text(items[i]),
            ),
        );
    crate::error::lemma_first_of_none(items.len() as int, fault);
    if text_items_fault(items, key, context) is None {
        assert forall|i: int| 0 <= i < items.len() implies (#[trigger] items[i]).as_text()
            is Some by {
            assert(fault(i) is None);
        }
    } else {
        let i = choose|i: int| 0 <= i < items.len() && (#[trigger] fault(i)) is Some;
        assert(items[i].as_text() is None);
    }
}

/// A list of strings holds strings and numbers only, and is read in order; a
/// required one is a table, an optional one may be missing.
pub proof fn law_string_lists(t: LuaTable, key: Seq<char>, context: Seq<char>)
    ensures
        required_texts_fault(t, key, context) is None <==> (t.field(key) matches LuaValue::Table(
            list,
        ) && forall|i: int|
            0 <= i < list.sequence@.len() ==> (#[trigger] list.sequence@[i]).as_text() is Some),
        optional_texts_fault(t, key, context) is None <==> t.field(key) is Nil || (t.field(
            key,
        ) matches LuaValue::Table(list) && forall|i: int|
            0 <= i < list.sequence@.len() ==> (#[trigger] list.sequence@[i]).as_text() is Some),
        !(t.field(key) is Table) ==> texts_field(t, key).len() == 0,
        t.field(key) matches LuaValue::Table(list) ==> texts_field(t, key).len()
            == list.sequence@.len() && forall|i: int|
            0 <= i < list.sequence@.len() && (#[trigger] list.sequence@[i]).as_text() is Some
                ==> list.sequence@[i].as_text() == Some(texts_field(t, key)[i]),
{
    if let LuaValue::Table(list) = t.field(key) {
        lemma_text_items(list.sequence@, key, context);
    }
}

/// The table holds a text under a key, be it a place of the sequence, a field
/// or another pair.
pub open spec fn holds_pair(t: LuaTable, key: Seq<char>, text: Seq<char>) -> bool {
    ||| exists|i: int|
        0 <= i < t.sequence@.len() && (#[trigger] t.sequence@[i]).as_text() == Some(text)
            && decimal(i + 1) == key
    ||| exists|i: int|
        0 <= i < t.fields@.len() && (#[trigger] t.fields@[i]).value.as_text() == Some(text)
            && t.fields@[i].key@ == key
    ||| exists|i: int|
        0 <= i < t.others@.len() && (#[trigger] t.others@[i]).value.as_text() == Some(text)
            && t.others@[i].key.as_text() == Some(key)
}

proof fn lemma_sequence_map(t: LuaTable, n: int, key: Seq<char>)
    requires
        0 <= n <= t.sequence@.len(),
        forall|i: int| 0 <= i < n ==> (#[trigger] t.sequence@[i]).as_text() is Some,
    ensures
        sequence_map(t.sequence@, n).contains_key(key) ==> holds_pair(
            t,
            key,
            sequence_map(t.sequence@, n)[key],
        ),
        forall|i: int|
            0 <= i < n ==> sequence_map(t.sequence@, n).contains_key(#[trigger] decimal(i + 1)),
    decreases n,
{
    if n > 0 {
        lemma_sequence_map(t, n - 1, key);
        assert(t.sequence@[n - 1].as_text() is Some);
    }
}

proof fn lemma_fields_map(t: LuaTable, before: Map<Seq<char>, Seq<char>>, n: int, key: Seq<char>)
    requires
        0 <= n <= t.fields@.len(),
        before.contains_key(key) ==> holds_pair(t, key, before[key]),
        forall|i: int| 0 <= i < n ==> (#[trigger] t.fields@[i]).value.as_text() is Some,
    ensures
        fields_map(before, t.fields@, n).contains_key(key) ==> holds_pair(
            t,
            key,
            fields_map(before, t.fields@, n)[key],
        ),
        before.contains_key(key) ==> fields_map(before, t.fields@, n).contains_key(key),
        forall|i: int|
            0 <= i < n && (#[trigger] t.fields@[i]).key@ == key ==> fields_map(
                before,
                t.fields@,
                n,
            ).contains_key(key),
    decreases n,
{
    if n > 0 {
        lemma_fields_map(t, before, n - 1, key);
        assert(t.fields@[n - 1].value.as_text() is Some);
    }
}

proof fn lemma_others_map(t: LuaTable, before: Map<Seq<char>, Seq<char>>, n: int, key: Seq<char>)
    requires
        0 <= n <= t.others@.len(),
        before.contains_key(key) ==> holds_pair(t, key, before[key]),
        forall|i: int|
            0 <= i < n ==> (#[trigger] t.others@[i]).key.as_text() is Some
                && t.others@[i].value.as_text() is Some,
    ensures
        others_map(before, t.others@, n).contains_key(key) ==> holds_pair(
            t,
            key,
            others_map(before, t.others@, n)[key],
        ),
        before.contains_key(key) ==> others_map(before, t.others@, n).contains_key(key),
        forall|i: int|
            0 <= i < n && (#[trigger] t.others@[i]).key.as_text() == Some(key) ==> others_map(
                before,
                t.others@,
                n,
            ).contains_key(key),
    decreases n,
{
    if n > 0 {
        lemma_others_map(t, before, n - 1, key);
        assert(t.others@[n - 1].key.as_text() is Some);
    }
}

proof fn lemma_sequence_defect(items: Seq<LuaValue>, i: int)
    requires
        0 <= i,
    ensures
        sequence_defect(items, i) is None <==> forall|j: int|
            i <= j < items.len() ==> (#[trigger] items[j]).as_text() is Some,
    decreases items.len() - i,
{
    if i < items.len() {
        lemma_sequence_defect(items, i + 1);
    }
}

proof fn lemma_fields_defect(fields: Seq<LuaField>, i: int)
    requires
        0 <= i,
    ensures
        fields_defect(fields, i) is None <==> forall|j: int|
            i <= j < fields.len() ==> (#[trigger] fields[j]).value.as_text() is Some,
    decreases fields.len() - i,
{
    if i < fields.len() {
        lemma_fields_defect(fields, i + 1);
    }
}

proof fn lemma_others_defect(others: Seq<LuaPair>, i: int)
    requires
        0 <= i,
    ensures
        others_defect(others, i) is None <==> forall|j: int|
            i <= j < others.len() ==> (#[trigger] others[j]).key.as_text() is Some
                && others[j].value.as_text() is Some,
    decreases others.len() - i,
{
    if i < others.len() {
        lemma_others_defect(others, i + 1);
    }
}

/// A table is a map of strings exactly where every key and every value of it is
/// a string or a number.
pub proof fn law_string_maps(t: LuaTable)
    ensures
        text_map_defect(t) is None <==> {
            &&& forall|i: int|
                0 <= i < t.sequence@.len() ==> (#[trigger] t.sequence@[i]).as_text() is Some
            &&& forall|i: int|
                0 <= i < t.fields@.len() ==> (#[trigger] t.fields@[i]).value.as_text() is Some
            &&& forall|i: int|
                0 <= i < t.others@.len() ==> (#[trigger] t.others@[i]).key.as_text() is Some
                    && t.others@[i].value.as_text() is Some
        },
{
    lemma_sequence_defect(t.sequence@, 0);
    lemma_fields_defect(t.fields@, 0);
    lemma_others_defect(t.others@, 0);
}

/// The map of an accepted table has the keys of the table, and under each of
/// them a text that the table holds under it.
pub proof fn law_string_map_holds_pairs(t: LuaTable, key: Seq<char>)
    requires
        text_map_defect(t) is None,
    ensures
        text_map(t).contains_key(key) <==> exists|text: Seq<char>| #[trigger]
            holds_pair(t, key, text),
        text_map(t).contains_key(key) ==> holds_pair(t, key, text_map(t)[key]),
{
    law_string_maps(t);
    let numbered = sequence_map(t.sequence@, t.sequence@.len() as int);
    let named = fields_map(numbered, t.fields@, t.fields@.len() as int);
    lemma_sequence_map(t, t.sequence@.len() as int, key);
    lemma_fields_map(t, numbered, t.fields@.len() as int, key);
    lemma_others_map(t, named, t.others@.len() as int, key);
    if exists|text: Seq<char>| #[trigger] holds_pair(t, key, text) {
        let text = choose|text: Seq<char>| #[trigger] holds_pair(t, key, text);
        if exists|i: int|
            0 <= i < t.sequence@.len() && (#[trigger] t.sequence@[i]).as_text() == Some(text)
                && decimal(i + 1) == key {
            let i = choose|i: int|
                0 <= i < t.sequence@.len() && (#[trigger] t.sequence@[i]).as_text() == Some(text)
                    && decimal(i + 1) == key;
            assert(numbered.contains_key(decimal(i + 1)));
        }
    }
}

/// An optional map of strings is missing or such a map.
pub proof fn law_string_map_fields(t: LuaTable, key: Seq<char>, context: Seq<char>)
    ensures
        text_map_fault(t, key, context) is None <==> t.field(key) is Nil || (t.field(
            key,
        ) matches LuaValue::Table(table) && text_map_defect(table) is None),
        t.field(key) matches LuaValue::Table(table) ==> text_map_field(t, key) == text_map(table),
        !(t.field(key) is Table) ==> text_map_field(t, key) == Map::<Seq<char>, Seq<char>>::empty(),
{
}

// ---------------------------------------------------------------------------
// What is told of what is refused

/// A complaint names the place by its context, a dot and the key, then says
/// what is wrong; the items of a list are counted from one.
pub proof fn law_complaints(context: Seq<char>, key: Seq<char>, what: Seq<char>, i: int)
    ensures
        complaint(context, key, what) == Fault::Internal(context + "."@ + key + what),
        at(context, key) == context + "."@ + key,
        numbered(context, i) == context + "["@ + decimal(i + 1) + "]"@,
{
}

/// The names of the kinds of values.
pub proof fn law_kinds(
    b: bool,
    n: i64,
    number: LuaNumber,
    string: LuaString,
    table: LuaTable,
    text: LocalizedText,
    name: String,
)
    ensures
        LuaValue::Nil.kind() == "nil"@,
        LuaValue::Boolean(b).kind() == "boolean"@,
        LuaValue::Integer(n).kind() == "integer"@,
        LuaValue::Number(number).kind() == "number"@,
        LuaValue::Text(string).kind() == "string"@,
        LuaValue::Table(table).kind() == "table"@,
        LuaValue::Function.kind() == "function"@,
        LuaValue::Localized(text).kind() == "userdata"@,
        LuaValue::Other(name).kind() == name@,
{
}

/// What is told of a value that is not of the wanted kind.
pub proof fn law_failed_conversions(value: LuaValue, string: LuaString, wanted: Seq<char>)
    ensures
        not_a(value, wanted) == "error converting Lua "@ + value.kind() + " to "@ + wanted,
        not_utf8(string) == "error converting Lua string to &str ("@ + string.defect@ + ")"@,
        not_text(LuaValue::Text(string)) == "error converting Lua string to String ("@
            + string.defect@ + ")"@,
        !(value is Text) ==> not_text(value) == "error converting Lua "@ + value.kind() + " to "@
            + "String (expected string or number)"@,
        not_key(LuaValue::Text(string)) == not_utf8(string),
        !(value is Text) ==> not_key(value) == not_text(value),
{
}

/// What is told of a value that is no integer of the wanted type: a number is
/// out of its range, anything else is no number.
pub proof fn law_failed_integers(value: LuaValue, wanted: Seq<char>)
    ensures
        value is Integer ==> not_integer(value, wanted) == "error converting Lua "@ + "integer"@
            + " to "@ + wanted + " (out of range)"@,
        value matches LuaValue::Number(n) ==> not_integer(value, wanted) == "error converting Lua "@
            + (if n.exact {
            "integer"@
        } else {
            "number"@
        }) + " to "@ + wanted + " (out of range)"@,
        value matches LuaValue::Text(string) ==> not_integer(value, wanted)
            == "error converting Lua "@ + "string"@ + " to "@ + wanted + (if string.whole is Some {
            " (out of range)"@
        } else {
            " (expected number or string coercible to number)"@
        }),
        !(value is Text || value is Integer || value is Number) ==> not_integer(value, wanted)
            == "error converting Lua "@ + value.kind() + " to "@ + wanted
            + " (expected number or string coercible to number)"@,
{
}

/// What is told of texts that are refused.
pub proof fn law_refused_texts(t: LuaTable, key: Seq<char>, context: Seq<char>)
    ensures
        t.field(key).as_text() is None ==> required_text_fault(t, key, context) == Some(
            Fault::Internal(context + "."@ + key + (" required: "@ + not_text(t.field(key)))),
        ),
        t.field(key) matches LuaValue::Text(string) ==> (string.text is None ==> {
            let invalid = Some(
                Fault::Internal(context + "."@ + key + (" invalid string: "@ + not_utf8(string))),
            );
            &&& optional_text_fault(t, key, context) == invalid
            &&& localized_field_fault(t, key, context) == invalid
        }),
        !(t.field(key) is Nil) && !(t.field(key) is Text) ==> optional_text_fault(t, key, context)
            == Some(
            Fault::Internal(
                context + "."@ + key + (" must be a string"@ + ", got "@ + t.field(key).kind()),
            ),
        ),
        !(t.field(key) is Nil) && !(t.field(key) is Text) && !(t.field(key) is Localized) ==> (
        localized_field_fault(t, key, context) matches Some(fault) && (t.field(key).kind()
            == "userdata"@ || fault == Fault::Internal(
            context + "."@ + key + (" must be a string or tr() result"@ + ", got "@ + t.field(
                key,
            ).kind()),
        )) && (t.field(key).kind() != "userdata"@ || fault == Fault::Internal(
            context + "."@ + key + " must be a string or tr() result"@,
        ))),
        localized_field_fault(t, key, context) is Some ==> required_localized_fault(t, key, context)
            == localized_field_fault(t, key, context),
        localized_field_fault(t, key, context) is None && localized_field(t, key).text().len() == 0
            ==> required_localized_fault(t, key, context) == Some(
            Fault::Internal(context + "."@ + key + " must not be empty"@),
        ),
{
}

/// What is told of tables, flags and functions that are refused.
pub proof fn law_refused_values(t: LuaTable, key: Seq<char>, context: Seq<char>)
    ensures
        ({
            let value = t.field(key);
            let place = context + "."@ + key;
            &&& !(value is Nil) && !(value is Table) ==> {
                let no_table = Some(
                    Fault::Internal(place + (" must be a table"@ + ", got "@ + value.kind())),
                );
                &&& optional_table_fault(t, key, context) == no_table
                &&& optional_texts_fault(t, key, context) == no_table
                &&& text_map_fault(t, key, context) == no_table
            }
            &&& !(value is Nil) && !(value is Boolean) ==> optional_bool_fault(t, key, context)
                == Some(Fault::Internal(place + (" must be a boolean"@ + ", got "@ + value.kind())))
            &&& !(value is Function) ==> function_fault(t, key, context) == Some(
                Fault::Internal(place + (" required: "@ + not_a(value, "function"@))),
            )
            &&& !(value is Nil) ==> absent_fault(t, key, context) == Some(
                Fault::Internal(place + " must be absent unless its capability is declared"@),
            )
            &&& declared_function_fault(t, key, context, true) == function_fault(t, key, context)
            &&& declared_function_fault(t, key, context, false) == absent_fault(t, key, context)
            &&& !(value is Table) ==> module_table_fault(t, key) == Some(
                Fault::Internal(
                    "module"@ + "."@ + key + (" table required: "@ + not_a(value, "table"@)),
                ),
            )
            &&& !(value is Table) ==> required_texts_fault(t, key, context) == Some(
                Fault::Internal(place + (" required: "@ + not_a(value, "table"@))),
            )
            &&& value matches LuaValue::Table(map) ==> (text_map_defect(map) matches Some(why)
                ==> text_map_fault(t, key, context) == Some(
                Fault::Internal(place + (" must be a string map: "@ + why)),
            ))
            &&& !(value is Nil) && !(value is Table) ==> tables_fault(t, key) == Some(
                Fault::Internal("info()"@ + "."@ + key + " must be a sequence of tables"@),
            )
        }),
{
}

/// A list is refused for its first item that is no text, or no table where
/// tables are wanted.
pub proof fn law_refused_items(
    t: LuaTable,
    list: LuaTable,
    key: Seq<char>,
    context: Seq<char>,
    i: int,
)
    requires
        t.field(key) == LuaValue::Table(list),
        0 <= i < list.sequence@.len(),
    ensures
        list.sequence@[i].as_text() is None && (forall|j: int|
            0 <= j < i ==> (#[trigger] list.sequence@[j]).as_text() is Some) ==> {
            let told = Some(
                Fault::Internal(
                    context + "."@ + key + "["@ + decimal(i + 1) + "]"@ + " must be a string: "@
                        + not_text(list.sequence@[i]),
                ),
            );
            &&& required_texts_fault(t, key, context) == told
            &&& optional_texts_fault(t, key, context) == told
        },
        !(list.sequence@[i] is Table) && (forall|j: int|
            0 <= j < i ==> (#[trigger] list.sequence@[j]) is Table) ==> tables_fault(t, key)
                == Some(
            Fault::Internal(
                "info()"@ + "."@ + key + (" entry: "@ + not_a(list.sequence@[i], "table"@)),
            ),
        ),
        (forall|j: int| 0 <= j < list.sequence@.len() ==> (#[trigger] list.sequence@[j]) is Table)
            ==> tables_fault(t, key) is None && tables_field(t, key).len() == list.sequence@.len()
            && LuaValue::Table(tables_field(t, key)[i]) == list.sequence@[i],
{
    let items = list.sequence@;
    let n = items.len() as int;
    let texts = |j: int|
        unless(
            items[j].as_text() is Some,
            Fault::Internal(
                numbered(at(context, key), j) + " must be a string: "@ + not_text(items[j]),
            ),
        );
    let tables = |j: int|
        unless(
            items[j] is Table,
            complaint("info()"@, key, " entry: "@ + not_a(items[j], "table"@)),
        );
    crate::error::law_first_fault(n, texts, i);
    crate::error::law_first_fault(n, tables, i);
    if forall|j: int| 0 <= j < i ==> (#[trigger] items[j]).as_text() is Some {
        assert forall|j: int| 0 <= j < i implies (#[trigger] texts(j)) is None by {
            assert(items[j].as_text() is Some);
        }
    }
    if forall|j: int| 0 <= j < i ==> (#[trigger] items[j]) is Table {
        assert forall|j: int| 0 <= j < i implies (#[trigger] tables(j)) is None by {
            assert(items[j] is Table);
        }
    }
    if forall|j: int| 0 <= j < n ==> (#[trigger] items[j]) is Table {
        assert forall|j: int| 0 <= j < n implies (#[trigger] tables(j)) is None by {
            assert(items[j] is Table);
        }
    }
}

} // verus!
