//! Settings that a renderer manifest declares, and the check of their values.
use vstd::prelude::*;
use crate::text;
use crate::text::{copy_texts, decimal_i64, decimal_u64, holds_text, parse_i32, parse_u32, same};

verus! {

/// A number of single precision: how it is written, and its place among all
/// such numbers. What is not a number has no place.
#[derive(Debug)]
pub struct F32 {
    pub text: String,
    pub rank: Option<i64>,
}

/// The kinds of manifest values that settings tell apart.
#[derive(Debug)]
pub enum TomlKind {
    Integer(i64),
    /// A float, in its decimal form.
    Float(String),
    String(String),
    Boolean(bool),
    Other,
}

/// A manifest value, how the manifest language writes it, and how it reads as
/// a number of single precision.
#[derive(Debug)]
pub struct TomlValue {
    pub kind: TomlKind,
    pub shown: String,
    pub single: Option<F32>,
}

/// A text of a manifest that is looked up in the translations of its plugin.
#[derive(Debug)]
pub struct LocalizedTextDef {
    pub msgid: String,
}

impl LocalizedTextDef {
    pub fn is_valid(&self) -> (r: bool)
        ensures
            r <==> self.msgid@.len() > 0,
    {
        !self.msgid.as_str().is_empty()
    }
}

#[derive(Clone, Copy, Debug, PartialEq, Eq, Structural)]
pub enum SettingType {
    U32,
    I32,
    F32,
    String,
    Bool,
}

#[derive(Debug)]
pub struct SettingDef {
    pub ty: SettingType,
    pub default: TomlValue,
    /// Whether a change of the setting starts the renderer anew.
    pub identity: bool,
    pub label_key: Option<String>,
    pub description_key: Option<String>,
    pub label: Option<LocalizedTextDef>,
    pub description: Option<LocalizedTextDef>,
    pub group_label: Option<LocalizedTextDef>,
    /// Smallest number that is accepted.
    pub min: Option<TomlValue>,
    /// Largest number that is accepted.
    pub max: Option<TomlValue>,
    /// Increment for sliders; not enforced.
    pub step: Option<TomlValue>,
    /// Strings that are accepted.
    pub choices: Option<Vec<String>>,
    pub group: Option<String>,
    /// Place within a group, lower first.
    pub order: Option<i32>,
}

impl SettingDef {
    pub fn new(ty: SettingType, default: TomlValue, identity: bool) -> (setting: Self)
        ensures
            setting == (SettingDef {
                ty,
                default,
                identity,
                label_key: None,
                description_key: None,
                label: None,
                description: None,
                group_label: None,
                min: None,
                max: None,
                step: None,
                choices: None,
                group: None,
                order: None,
            }),
    {
        SettingDef {
            ty,
            default,
            identity,
            label_key: None,
            description_key: None,
            label: None,
            description: None,
            group_label: None,
            min: None,
            max: None,
            step: None,
            choices: None,
            group: None,
            order: None,
        }
    }
}

/// Why a setting value is refused.
#[derive(Debug, PartialEq)]
pub enum ValidationError {
    /// The value is not of the declared type.
    BadSettingType { key: String, expected: SettingType, got: String },
    /// The number lies outside the declared bounds.
    OutOfRange { key: String, got: String, min: Option<String>, max: Option<String> },
    /// The string is not among the declared choices.
    BadChoice { key: String, got: String, choices: Vec<String> },
}

pub enum ValidationFault {
    BadSettingType { key: Seq<char>, expected: SettingType, got: Seq<char> },
    OutOfRange {
        key: Seq<char>,
        got: Seq<char>,
        min: Option<Seq<char>>,
        max: Option<Seq<char>>,
    },
    BadChoice { key: Seq<char>, got: Seq<char>, choices: Seq<Seq<char>> },
}

impl View for ValidationError {
    type V = ValidationFault;

    open spec fn view(&self) -> ValidationFault {
        match *self {
            ValidationError::BadSettingType { key, expected, got } => ValidationFault::BadSettingType {
                key: key@,
                expected,
                got: got@,
            },
            ValidationError::OutOfRange { key, got, min, max } => ValidationFault::OutOfRange {
                key: key@,
                got: got@,
                min: text::view_of(min),
                max: text::view_of(max),
            },
            ValidationError::BadChoice { key, got, choices } => ValidationFault::BadChoice {
                key: key@,
                got: got@,
                choices: text::views(choices@),
            },
        }
    }
}

// ---------------------------------------------------------------------------
// Messages

/// A text as std's debug format writes it, in quotes and escaped.
pub uninterp spec fn debug_form(s: Seq<char>) -> Seq<char>;

/// The debug format of `str` depends on the text alone.
#[verifier::external_body]
fn debug_text(s: &str) -> (r: String)
    ensures
        r@ == debug_form(s@),
{
    format!("{s:?}")
}

pub open spec fn debug_option(s: Option<Seq<char>>) -> Seq<char> {
    match s {
        Some(inner) => "Some("@ + debug_form(inner) + ")"@,
        None => "None"@,
    }
}

pub open spec fn debug_list(items: Seq<Seq<char>>) -> Seq<char> {
    "["@ + text::join(items.map_values(|s: Seq<char>| debug_form(s)), ", "@) + "]"@
}

pub open spec fn type_text(ty: SettingType) -> Seq<char> {
    match ty {
        SettingType::U32 => "U32"@,
        SettingType::I32 => "I32"@,
        SettingType::F32 => "F32"@,
        SettingType::String => "String"@,
        SettingType::Bool => "Bool"@,
    }
}

impl ValidationFault {
    /// The text that the user is shown.
    pub open spec fn message(self) -> Seq<char> {
        match self {
            ValidationFault::BadSettingType { key, expected, got } => "plugin setting '"@ + key
                + "' expected type "@ + type_text(expected) + ", got "@ + debug_form(got),
            ValidationFault::OutOfRange { key, got, min, max } => "plugin setting '"@ + key
                + "' value "@ + debug_form(got) + " out of range (min="@ + debug_option(min)
                + ", max="@ + debug_option(max) + ")"@,
            ValidationFault::BadChoice { key, got, choices } => "plugin setting '"@ + key
                + "' value "@ + debug_form(got) + " not in allowed choices "@ + debug_list(choices),
        }
    }
}

fn debug_option_text(s: &Option<String>) -> (r: String)
    ensures
        r@ == debug_option(text::view_of(*s)),
{
    match s {
        Some(inner) => {
            let mut out = "Some(".to_owned();
            let quoted = debug_text(inner.as_str());
            out.append(quoted.as_str());
            out.append(")");
            out
        },
        None => "None".to_owned(),
    }
}

fn debug_list_text(items: &Vec<String>) -> (r: String)
    ensures
        r@ == debug_list(text::views(items@)),
{
    let mut quoted: Vec<String> = Vec::new();
    let mut i: usize = 0;
    while i < items.len()
        invariant
            i <= items.len(),
            text::views(quoted@) == text::views(items@).take(i as int).map_values(
                |s: Seq<char>| debug_form(s),
            ),
        decreases items.len() - i,
    {
        let one = debug_text(items[i].as_str());
        proof {
            text::lemma_views_push(quoted@, one);
        }
        quoted.push(one);
        i = i + 1;
        assert(text::views(quoted@) =~= text::views(items@).take(i as int).map_values(
            |s: Seq<char>| debug_form(s),
        ));
    }
    assert(text::views(items@).take(i as int) =~= text::views(items@));
    let mut out = "[".to_owned();
    let inner = text::join_texts(&quoted, ", ");
    out.append(inner.as_str());
    out.append("]");
    out
}

impl ValidationError {
    pub fn message(&self) -> (r: String)
        ensures
            r@ == self@.message(),
    {
        let mut out = "plugin setting '".to_owned();
        match self {
            ValidationError::BadSettingType { key, expected, got } => {
                out.append(key.as_str());
                out.append("' expected type ");
                out.append(
                    match expected {
                        SettingType::U32 => "U32",
                        SettingType::I32 => "I32",
                        SettingType::F32 => "F32",
                        SettingType::String => "String",
                        SettingType::Bool => "Bool",
                    },
                );
                out.append(", got ");
                let quoted = debug_text(got.as_str());
                out.append(quoted.as_str());
            },
            ValidationError::OutOfRange { key, got, min, max } => {
                out.append(key.as_str());
                out.append("' value ");
                let quoted = debug_text(got.as_str());
                out.append(quoted.as_str());
                out.append(" out of range (min=");
                let low = debug_option_text(min);
                out.append(low.as_str());
                out.append(", max=");
                let high = debug_option_text(max);
                out.append(high.as_str());
                out.append(")");
            },
            ValidationError::BadChoice { key, got, choices } => {
                out.append(key.as_str());
                out.append("' value ");
                let quoted = debug_text(got.as_str());
                out.append(quoted.as_str());
                out.append(" not in allowed choices ");
                let list = debug_list_text(choices);
                out.append(list.as_str());
            },
        }
        out
    }
}

// ---------------------------------------------------------------------------
// Reading manifest values

impl TomlValue {
    /// How a bound is shown in an error.
    pub open spec fn display(self) -> Seq<char> {
        match self.kind {
            TomlKind::Integer(i) => text::decimal(i as int),
            TomlKind::Float(f) => f@,
            TomlKind::String(s) => s@,
            _ => self.shown@,
        }
    }

    /// The value as an integer between two bounds; strings are read.
    pub open spec fn integer(self, signed: bool, low: int, high: int) -> Option<int> {
        match self.kind {
            TomlKind::Integer(i) => if low <= i <= high {
                Some(i as int)
            } else {
                None
            },
            TomlKind::String(s) => text::integer_within(s@, signed, low, high),
            _ => None,
        }
    }

    /// The place of the value among the numbers of single precision.
    pub open spec fn single_rank(self) -> Option<i64> {
        match self.single {
            Some(f) => f.rank,
            None => None,
        }
    }
}

fn toml_value_to_display(v: &TomlValue) -> (r: String)
    ensures
        r@ == v.display(),
{
    match &v.kind {
        TomlKind::Integer(i) => decimal_i64(*i),
        TomlKind::Float(f) => f.clone(),
        TomlKind::String(s) => s.clone(),
        _ => v.shown.clone(),
    }
}

fn toml_to_u32(v: &TomlValue) -> (r: Option<u32>)
    ensures
        match r {
            Some(n) => v.integer(false, 0, u32::MAX as int) == Some(n as int),
            None => v.integer(false, 0, u32::MAX as int) is None,
        },
{
    match &v.kind {
        TomlKind::Integer(i) => if 0 <= *i && *i <= 0xffff_ffff {
            Some(*i as u32)
        } else {
            None
        },
        TomlKind::String(s) => parse_u32(s.as_str()),
        _ => None,
    }
}

fn toml_to_i32(v: &TomlValue) -> (r: Option<i32>)
    ensures
        match r {
            Some(n) => v.integer(true, i32::MIN as int, i32::MAX as int) == Some(n as int),
            None => v.integer(true, i32::MIN as int, i32::MAX as int) is None,
        },
{
    match &v.kind {
        TomlKind::Integer(i) => if -0x8000_0000 <= *i && *i <= 0x7fff_ffff {
            Some(*i as i32)
        } else {
            None
        },
        TomlKind::String(s) => parse_i32(s.as_str()),
        _ => None,
    }
}

// ---------------------------------------------------------------------------
// Validation

/// The canonical form of a raw value, if it is one of the type. `single` is
/// how the raw value reads as a number of single precision.
pub open spec fn coerced(
    raw: Seq<char>,
    ty: SettingType,
    single: Option<F32>,
) -> Option<Seq<char>> {
    match ty {
        SettingType::U32 => match text::integer_within(raw, false, 0, u32::MAX as int) {
            Some(n) => Some(text::decimal(n)),
            None => None,
        },
        SettingType::I32 => match text::integer_within(
            raw,
            true,
            i32::MIN as int,
            i32::MAX as int,
        ) {
            Some(n) => Some(text::decimal(n)),
            None => None,
        },
        SettingType::F32 => match single {
            Some(f) => Some(f.text@),
            None => None,
        },
        SettingType::Bool => if raw == "true"@ || raw == "false"@ {
            Some(raw)
        } else {
            None
        },
        SettingType::String => Some(raw),
    }
}

pub open spec fn bad_type(key: Seq<char>, ty: SettingType, got: Seq<char>) -> ValidationFault {
    ValidationFault::BadSettingType { key, expected: ty, got }
}

pub open spec fn beyond(key: Seq<char>, got: Seq<char>, schema: SettingDef) -> ValidationFault {
    ValidationFault::OutOfRange {
        key,
        got,
        min: match schema.min {
            Some(v) => Some(v.display()),
            None => None,
        },
        max: match schema.max {
            Some(v) => Some(v.display()),
            None => None,
        },
    }
}

/// A bound of the schema as an integer, if it has one that reads as such.
pub open spec fn integer_bound(
    bound: Option<TomlValue>,
    signed: bool,
    low: int,
    high: int,
) -> Option<int> {
    match bound {
        Some(v) => v.integer(signed, low, high),
        None => None,
    }
}

pub open spec fn rank_bound(bound: Option<TomlValue>) -> Option<i64> {
    match bound {
        Some(v) => v.single_rank(),
        None => None,
    }
}

/// The number lies within the bounds that are given.
pub open spec fn within(n: int, min: Option<int>, max: Option<int>) -> bool {
    &&& min matches Some(low) ==> low <= n
    &&& max matches Some(high) ==> n <= high
}

/// The number lies within the bounds; what has no place is never outside.
pub open spec fn rank_within(rank: Option<i64>, min: Option<i64>, max: Option<i64>) -> bool {
    match rank {
        Some(r) => {
            &&& min matches Some(low) ==> low <= r
            &&& max matches Some(high) ==> r <= high
        },
        None => true,
    }
}

/// Why a value that is already in the type's form is refused.
pub open spec fn bounds_fault(
    key: Seq<char>,
    value: Seq<char>,
    schema: SettingDef,
    single: Option<F32>,
) -> Option<ValidationFault> {
    match schema.ty {
        SettingType::U32 => match text::integer_within(value, false, 0, u32::MAX as int) {
            None => Some(bad_type(key, SettingType::U32, value)),
            Some(n) => if within(
                n,
                integer_bound(schema.min, false, 0, u32::MAX as int),
                integer_bound(schema.max, false, 0, u32::MAX as int),
            ) {
                None
            } else {
                Some(beyond(key, value, schema))
            },
        },
        SettingType::I32 => match text::integer_within(
            value,
            true,
            i32::MIN as int,
            i32::MAX as int,
        ) {
            None => Some(bad_type(key, SettingType::I32, value)),
            Some(n) => if within(
                n,
                integer_bound(schema.min, true, i32::MIN as int, i32::MAX as int),
                integer_bound(schema.max, true, i32::MIN as int, i32::MAX as int),
            ) {
                None
            } else {
                Some(beyond(key, value, schema))
            },
        },
        SettingType::F32 => match single {
            None => Some(bad_type(key, SettingType::F32, value)),
            Some(f) => if rank_within(f.rank, rank_bound(schema.min), rank_bound(schema.max)) {
                None
            } else {
                Some(beyond(key, value, schema))
            },
        },
        SettingType::String => match schema.choices {
            Some(choices) => if text::views(choices@).contains(value) {
                None
            } else {
                Some(
                    ValidationFault::BadChoice {
                        key,
                        got: value,
                        choices: text::views(choices@),
                    },
                )
            },
            None => None,
        },
        SettingType::Bool => None,
    }
}

/// Why a raw value is refused.
pub open spec fn setting_fault(
    key: Seq<char>,
    raw: Seq<char>,
    schema: SettingDef,
    single: Option<F32>,
) -> Option<ValidationFault> {
    match coerced(raw, schema.ty, single) {
        None => Some(bad_type(key, schema.ty, raw)),
        Some(value) => bounds_fault(key, value, schema, single),
    }
}

fn out_of_range(key: &str, got: &str, schema: &SettingDef) -> (error: ValidationError)
    ensures
        error@ == beyond(key@, got@, *schema),
{
    ValidationError::OutOfRange {
        key: key.to_owned(),
        got: got.to_owned(),
        min: match &schema.min {
            Some(v) => Some(toml_value_to_display(v)),
            None => None,
        },
        max: match &schema.max {
            Some(v) => Some(toml_value_to_display(v)),
            None => None,
        },
    }
}

fn bad_setting_type(key: &str, expected: SettingType, got: &str) -> (error: ValidationError)
    ensures
        error@ == bad_type(key@, expected, got@),
{
    ValidationError::BadSettingType { key: key.to_owned(), expected, got: got.to_owned() }
}

/// Checks a value in the type's form against the bounds and choices of the
/// schema. `single` is how the value reads as a number of single precision.
pub fn check_setting_bounds(
    key: &str,
    value: &str,
    schema: &SettingDef,
    single: &Option<F32>,
) -> (r: Result<(), ValidationError>)
    ensures
        match r {
            Ok(_) => bounds_fault(key@, value@, *schema, *single) is None,
            Err(e) => bounds_fault(key@, value@, *schema, *single) == Some(e@),
        },
{
    match schema.ty {
        SettingType::U32 => {
            let v: u32 = match parse_u32(value) {
                Some(v) => v,
                None => {
                    return Err(bad_setting_type(key, SettingType::U32, value));
                },
            };
            if let Some(bound) = &schema.min {
                if let Some(min) = toml_to_u32(bound) {
                    if v < min {
                        return Err(out_of_range(key, value, schema));
                    }
                }
            }
            if let Some(bound) = &schema.max {
                if let Some(max) = toml_to_u32(bound) {
                    if v > max {
                        return Err(out_of_range(key, value, schema));
                    }
                }
            }
            Ok(())
        },
        SettingType::I32 => {
            let v: i32 = match parse_i32(value) {
                Some(v) => v,
                None => {
                    return Err(bad_setting_type(key, SettingType::I32, value));
                },
            };
            if let Some(bound) = &schema.min {
                if let Some(min) = toml_to_i32(bound) {
                    if v < min {
                        return Err(out_of_range(key, value, schema));
                    }
                }
            }
            if let Some(bound) = &schema.max {
                if let Some(max) = toml_to_i32(bound) {
                    if v > max {
                        return Err(out_of_range(key, value, schema));
                    }
                }
            }
            Ok(())
        },
        SettingType::F32 => {
            let rank: Option<i64> = match single {
                Some(f) => f.rank,
                None => {
                    return Err(bad_setting_type(key, SettingType::F32, value));
                },
            };
            if let Some(v) = rank {
                if let Some(bound) = &schema.min {
                    if let Some(min) = single_rank_of(bound) {
                        if v < min {
                            return Err(out_of_range(key, value, schema));
                        }
                    }
                }
                if let Some(bound) = &schema.max {
                    if let Some(max) = single_rank_of(bound) {
                        if v > max {
                            return Err(out_of_range(key, value, schema));
                        }
                    }
                }
            }
            Ok(())
        },
        SettingType::String => {
            if let Some(choices) = &schema.choices {
                if !holds_text(choices, value) {
                    return Err(
                        ValidationError::BadChoice {
                            key: key.to_owned(),
                            got: value.to_owned(),
                            choices: copy_texts(choices),
                        },
                    );
                }
            }
            Ok(())
        },
        SettingType::Bool => Ok(()),
    }
}

fn single_rank_of(v: &TomlValue) -> (r: Option<i64>)
    ensures
        r == v.single_rank(),
{
    match &v.single {
        Some(f) => f.rank,
        None => None,
    }
}

/// The canonical form of a raw value of a type.
pub fn coerce_setting(raw: &str, ty: SettingType, single: &Option<F32>) -> (r: Option<String>)
    ensures
        text::view_of(r) == coerced(raw@, ty, *single),
{
    match ty {
        SettingType::U32 => match parse_u32(raw) {
            Some(n) => Some(decimal_u64(n as u64)),
            None => None,
        },
        SettingType::I32 => match parse_i32(raw) {
            Some(n) => Some(decimal_i64(n as i64)),
            None => None,
        },
        SettingType::F32 => match single {
            Some(f) => Some(f.text.clone()),
            None => None,
        },
        SettingType::Bool => if same(raw, "true") || same(raw, "false") {
            Some(raw.to_owned())
        } else {
            None
        },
        SettingType::String => Some(raw.to_owned()),
    }
}

/// Checks a raw value and gives its canonical form. `single` is how the raw
/// value, and so its canonical form, reads as a number of single precision.
pub fn coerce_and_validate(key: &str, raw: &str, schema: &SettingDef, single: &Option<F32>) -> (r:
    Result<String, ValidationError>)
    ensures
        match r {
            Ok(value) => setting_fault(key@, raw@, *schema, *single) is None && coerced(
                raw@,
                schema.ty,
                *single,
            ) == Some(value@),
            Err(e) => setting_fault(key@, raw@, *schema, *single) == Some(e@),
        },
        r is Ok && schema.ty is I32 ==> (text::integer_value(raw@, true) matches Some(n) && {
            &&& schema.min matches Some(bound) ==> (bound.kind matches TomlKind::Integer(low) ==> (
            i32::MIN <= low <= i32::MAX ==> low <= n))
            &&& schema.max matches Some(bound) ==> (bound.kind matches TomlKind::Integer(high) ==> (
            i32::MIN <= high <= i32::MAX ==> n <= high))
        }),
        r is Ok && schema.ty is U32 ==> (text::integer_value(raw@, false) matches Some(n) && {
            &&& schema.min matches Some(bound) ==> (bound.kind matches TomlKind::Integer(low) ==> (
            0 <= low <= u32::MAX ==> low <= n))
            &&& schema.max matches Some(bound) ==> (bound.kind matches TomlKind::Integer(high) ==> (
            0 <= high <= u32::MAX ==> n <= high))
        }),
{
    proof {
        if setting_fault(key@, raw@, *schema, *single) is None {
            if schema.ty is I32 {
                text::law_decimal_reads_back(
                    text::integer_within(raw@, true, i32::MIN as int, i32::MAX as int)->0,
                    true,
                );
            }
            if schema.ty is U32 {
                text::law_decimal_reads_back(
                    text::integer_within(raw@, false, 0, u32::MAX as int)->0,
                    false,
                );
            }
        }
    }
    match coerce_setting(raw, schema.ty, single) {
        None => Err(bad_setting_type(key, schema.ty, raw)),
        Some(value) => {
            check_setting_bounds(key, value.as_str(), schema, single)?;
            Ok(value)
        },
    }
}

/// The canonical form of an accepted value is accepted and stays as it is. For
/// numbers of single precision it must read as the same number.
pub proof fn law_coerced_value_stays(
    key: Seq<char>,
    raw: Seq<char>,
    schema: SettingDef,
    single: Option<F32>,
    value: Seq<char>,
)
    requires
        setting_fault(key, raw, schema, single) is None,
        coerced(raw, schema.ty, single) == Some(value),
    ensures
        setting_fault(key, value, schema, single) is None,
        coerced(value, schema.ty, single) == Some(value),
{
    match schema.ty {
        SettingType::U32 => {
            let n = text::integer_within(raw, false, 0, u32::MAX as int)->0;
            text::law_decimal_reads_back(n, false);
        },
        SettingType::I32 => {
            let n = text::integer_within(raw, true, i32::MIN as int, i32::MAX as int)->0;
            text::law_decimal_reads_back(n, true);
        },
        _ => {},
    }
}

// ---------------------------------------------------------------------------
// Defaults

/// The default of a setting in its canonical form.
pub open spec fn default_value(setting: SettingDef) -> Seq<char> {
    let v = setting.default;
    match (setting.ty, v.kind) {
        (_, TomlKind::String(s)) => s@,
        (SettingType::U32, TomlKind::Integer(i)) => if i >= 0 {
            text::decimal(i as int)
        } else {
            v.shown@
        },
        (SettingType::I32, TomlKind::Integer(i)) => text::decimal(i as int),
        (SettingType::F32, TomlKind::Float(f)) => f@,
        (SettingType::F32, TomlKind::Integer(_)) => match v.single {
            Some(f) => f.text@,
            None => v.shown@,
        },
        (SettingType::Bool, TomlKind::Boolean(b)) => if b {
            "true"@
        } else {
            "false"@
        },
        _ => v.shown@,
    }
}

pub fn setting_default_value(setting: &SettingDef) -> (r: String)
    ensures
        r@ == default_value(*setting),
{
    let v = &setting.default;
    match (setting.ty, &v.kind) {
        (_, TomlKind::String(s)) => s.clone(),
        (SettingType::U32, TomlKind::Integer(i)) => if *i >= 0 {
            decimal_i64(*i)
        } else {
            v.shown.clone()
        },
        (SettingType::I32, TomlKind::Integer(i)) => decimal_i64(*i),
        (SettingType::F32, TomlKind::Float(f)) => f.clone(),
        (SettingType::F32, TomlKind::Integer(_)) => match &v.single {
            Some(f) => f.text.clone(),
            None => v.shown.clone(),
        },
        (SettingType::Bool, TomlKind::Boolean(b)) => if *b {
            "true".to_owned()
        } else {
            "false".to_owned()
        },
        _ => v.shown.clone(),
    }
}

// ---------------------------------------------------------------------------
// Laws on accepted values

/// A bound of a manifest as an integer: one that is written as an integer, or
/// as a text that reads as one.
pub open spec fn bound_is(bound: TomlValue, signed: bool, n: int) -> bool {
    ||| bound.kind == TomlKind::Integer(n as i64) && i64::MIN <= n <= i64::MAX
    ||| bound.kind matches TomlKind::String(s) && text::integer_value(s@, signed) == Some(n)
}

/// An accepted value of a setting of type `u32` is a number of 32 bits that the
/// raw text reads as, not below the declared minimum and not above the declared
/// maximum, as far as these are numbers of the type.
pub proof fn law_accepted_u32(
    key: Seq<char>,
    raw: Seq<char>,
    schema: SettingDef,
    single: Option<F32>,
    low: int,
    high: int,
)
    requires
        schema.ty is U32,
        setting_fault(key, raw, schema, single) is None,
    ensures
        text::integer_value(raw, false) matches Some(n) && 0 <= n <= u32::MAX && {
            &&& schema.min matches Some(bound) ==> (bound_is(bound, false, low) && 0 <= low
                <= u32::MAX ==> low <= n)
            &&& schema.max matches Some(bound) ==> (bound_is(bound, false, high) && 0 <= high
                <= u32::MAX ==> n <= high)
            &&& coerced(raw, schema.ty, single) matches Some(value) && text::integer_value(
                value,
                false,
            ) == Some(n)
        },
{
    let n = text::integer_within(raw, false, 0, u32::MAX as int)->0;
    text::law_decimal_reads_back(n, false);
}

/// The same for a setting of type `i32`.
pub proof fn law_accepted_i32(
    key: Seq<char>,
    raw: Seq<char>,
    schema: SettingDef,
    single: Option<F32>,
    low: int,
    high: int,
)
    requires
        schema.ty is I32,
        setting_fault(key, raw, schema, single) is None,
    ensures
        text::integer_value(raw, true) matches Some(n) && i32::MIN <= n <= i32::MAX && {
            &&& schema.min matches Some(bound) ==> (bound_is(bound, true, low) && i32::MIN <= low
                <= i32::MAX ==> low <= n)
            &&& schema.max matches Some(bound) ==> (bound_is(bound, true, high) && i32::MIN <= high
                <= i32::MAX ==> n <= high)
            &&& coerced(raw, schema.ty, single) matches Some(value) && text::integer_value(
                value,
                true,
            ) == Some(n)
        },
{
    let n = text::integer_within(raw, true, i32::MIN as int, i32::MAX as int)->0;
    text::law_decimal_reads_back(n, true);
}

/// A number of the type is accepted where it lies between the bounds that are
/// numbers of the type; one beyond a bound is refused with both bounds.
pub proof fn law_integers_between_bounds(
    key: Seq<char>,
    raw: Seq<char>,
    schema: SettingDef,
    single: Option<F32>,
    n: int,
)
    requires
        schema.ty is U32 || schema.ty is I32,
        schema.ty is U32 ==> 0 <= n <= u32::MAX,
        schema.ty is I32 ==> i32::MIN <= n <= i32::MAX,
        text::integer_value(raw, schema.ty is I32) == Some(n),
    ensures
        (forall|low: int| schema.min is Some
            && #[trigger] bound_is(schema.min->0, schema.ty is I32, low)
            ==> low <= n) && (forall|high: int|
            schema.max is Some && #[trigger] bound_is(schema.max->0, schema.ty is I32, high) ==> n
                <= high) ==> setting_fault(key, raw, schema, single) is None,
        setting_fault(key, raw, schema, single) matches Some(fault) ==> (
        fault matches ValidationFault::OutOfRange { key: k, got, min, max } && k == key
            && text::integer_value(got, schema.ty is I32) == Some(n) && (schema.min is None
            <==> min is None) && (schema.max is None <==> max is None) && (
        schema.min matches Some(bound) ==> min == Some(bound.display())) && (
        schema.max matches Some(bound) ==> max == Some(bound.display()))),
{
    let signed = schema.ty is I32;
    text::law_decimal_reads_back(n, signed);
    if schema.min is Some {
        let bound = schema.min->0;
        if let TomlKind::Integer(i) = bound.kind {
            assert(bound_is(bound, signed, i as int));
        } else if let TomlKind::String(s) = bound.kind {
            if let Some(i) = text::integer_value(s@, signed) {
                assert(bound_is(bound, signed, i));
            }
        }
    }
    if schema.max is Some {
        let bound = schema.max->0;
        if let TomlKind::Integer(i) = bound.kind {
            assert(bound_is(bound, signed, i as int));
        } else if let TomlKind::String(s) = bound.kind {
            if let Some(i) = text::integer_value(s@, signed) {
                assert(bound_is(bound, signed, i));
            }
        }
    }
}

/// What does not read as a number of the declared type is refused as such.
pub proof fn law_wrong_types_are_refused(
    key: Seq<char>,
    raw: Seq<char>,
    schema: SettingDef,
    single: Option<F32>,
)
    ensures
        ({
            let refused = Some(
                ValidationFault::BadSettingType { key, expected: schema.ty, got: raw },
            );
            let fault = setting_fault(key, raw, schema, single);
            &&& schema.ty is U32 ==> (fault == refused <==> !(text::integer_value(
                raw,
                false,
            ) matches Some(n) && 0 <= n <= u32::MAX))
            &&& schema.ty is I32 ==> (fault == refused <==> !(text::integer_value(
                raw,
                true,
            ) matches Some(n) && i32::MIN <= n <= i32::MAX))
            &&& schema.ty is F32 ==> (fault == refused <==> single is None)
            &&& schema.ty is Bool ==> (fault == refused <==> raw != "true"@ && raw != "false"@)
            &&& schema.ty is String ==> fault != refused
        }),
{
    if schema.ty is U32 {
        if let Some(n) = text::integer_within(raw, false, 0, u32::MAX as int) {
            text::law_decimal_reads_back(n, false);
        }
    }
    if schema.ty is I32 {
        if let Some(n) = text::integer_within(raw, true, i32::MIN as int, i32::MAX as int) {
            text::law_decimal_reads_back(n, true);
        }
    }
}

/// A flag is accepted as it is; a text is accepted as it is where it is among
/// the choices or there are none.
pub proof fn law_accepted_texts_and_flags(
    key: Seq<char>,
    raw: Seq<char>,
    schema: SettingDef,
    single: Option<F32>,
)
    requires
        schema.ty is String || schema.ty is Bool,
    ensures
        schema.ty is Bool ==> (setting_fault(key, raw, schema, single) is None <==> raw == "true"@
            || raw == "false"@),
        schema.ty is String ==> (setting_fault(key, raw, schema, single) is None
            <==> schema.choices is None || exists|i: int|
            0 <= i < schema.choices->0@.len() && (#[trigger] schema.choices->0@[i])@ == raw),
        setting_fault(key, raw, schema, single) is None ==> coerced(raw, schema.ty, single) == Some(
            raw,
        ),
        schema.ty is String ==> (setting_fault(key, raw, schema, single) matches Some(fault) ==> (
        fault matches ValidationFault::BadChoice { key: k, got, choices } && k == key && got == raw
            && choices == text::views(schema.choices->0@))),
{
    if schema.ty is String && schema.choices is Some {
        let choices = schema.choices->0@;
        if text::views(choices).contains(raw) {
            let i = choose|i: int| 0 <= i < choices.len() && text::views(choices)[i] == raw;
            assert(choices[i]@ == raw);
        }
        if exists|i: int| 0 <= i < choices.len() && (#[trigger] choices[i])@ == raw {
            let i = choose|i: int| 0 <= i < choices.len() && (#[trigger] choices[i])@ == raw;
            assert(text::views(choices)[i] == raw);
        }
    }
}

/// A number of single precision is accepted exactly where it lies between the
/// bounds, as far as they can be ranked with it; it is kept in its own form.
pub proof fn law_accepted_single_numbers(
    key: Seq<char>,
    raw: Seq<char>,
    schema: SettingDef,
    single: Option<F32>,
)
    requires
        schema.ty is F32,
        single is Some,
    ensures
        setting_fault(key, raw, schema, single) is None <==> (single->0.rank matches Some(rank)
            ==> {
            &&& schema.min matches Some(bound) ==> (bound.single matches Some(f) ==> (
            f.rank matches Some(low) ==> low <= rank))
            &&& schema.max matches Some(bound) ==> (bound.single matches Some(f) ==> (
            f.rank matches Some(high) ==> rank <= high))
        }),
        coerced(raw, schema.ty, single) == Some(single->0.text@),
{
}

/// The default of a setting in its canonical form: texts and flags as they are,
/// integers as their digits.
pub proof fn law_default_values(setting: SettingDef)
    ensures
        setting.default.kind matches TomlKind::String(s) ==> default_value(setting) == s@,
        setting.ty is Bool ==> (setting.default.kind matches TomlKind::Boolean(b) ==> default_value(
            setting,
        ) == if b {
            "true"@
        } else {
            "false"@
        }),
        setting.ty is I32 ==> (setting.default.kind matches TomlKind::Integer(i)
            ==> text::integer_value(default_value(setting), true) == Some(i as int)),
        setting.ty is U32 ==> (setting.default.kind matches TomlKind::Integer(i) ==> (i >= 0
            ==> text::integer_value(default_value(setting), false) == Some(i as int))),
        setting.ty is F32 ==> (setting.default.kind matches TomlKind::Float(f) ==> default_value(
            setting,
        ) == f@),
{
    if let TomlKind::Integer(i) = setting.default.kind {
        text::law_decimal_reads_back(i as int, true);
        if i >= 0 {
            text::law_decimal_reads_back(i as int, false);
        }
    }
}

/// The messages of the errors: each names the setting and what it was given,
/// then the type, the bounds or the choices.
pub proof fn law_error_messages(
    key: Seq<char>,
    got: Seq<char>,
    ty: SettingType,
    min: Option<Seq<char>>,
    max: Option<Seq<char>>,
    choices: Seq<Seq<char>>,
)
    ensures
        (ValidationFault::BadSettingType { key, expected: ty, got }).message()
            == "plugin setting '"@
            + key + "' expected type "@ + (match ty {
            SettingType::U32 => "U32"@,
            SettingType::I32 => "I32"@,
            SettingType::F32 => "F32"@,
            SettingType::String => "String"@,
            SettingType::Bool => "Bool"@,
        }) + ", got "@ + debug_form(got),
        (ValidationFault::OutOfRange { key, got, min, max }).message() == "plugin setting '"@ + key
            + "' value "@ + debug_form(got) + " out of range (min="@ + (match min {
            Some(low) => "Some("@ + debug_form(low) + ")"@,
            None => "None"@,
        }) + ", max="@ + (match max {
            Some(high) => "Some("@ + debug_form(high) + ")"@,
            None => "None"@,
        }) + ")"@,
        (ValidationFault::BadChoice { key, got, choices }).message() == "plugin setting '"@ + key
            + "' value "@ + debug_form(got) + " not in allowed choices "@ + ("["@ + text::join(
            choices.map_values(|s: Seq<char>| debug_form(s)),
            ", "@,
        ) + "]"@),
{
}

/// An error stands for the fault of its kind, with the same key and values.
pub proof fn law_errors(
    key: String,
    got: String,
    ty: SettingType,
    min: Option<String>,
    max: Option<String>,
    choices: Vec<String>,
)
    ensures
        (ValidationError::BadSettingType { key, expected: ty, got })@
            == (ValidationFault::BadSettingType { key: key@, expected: ty, got: got@ }),
        (ValidationError::OutOfRange { key, got, min, max })@ == (ValidationFault::OutOfRange {
            key: key@,
            got: got@,
            min: text::view_of(min),
            max: text::view_of(max),
        }),
        (ValidationError::BadChoice { key, got, choices })@ == (ValidationFault::BadChoice {
            key: key@,
            got: got@,
            choices: text::views(choices@),
        }),
{
}

/// How a bound is shown: a number and a text as themselves, all else in the
/// form of its file.
pub proof fn law_shown_bounds(value: TomlValue)
    ensures
        value.kind matches TomlKind::Integer(i) ==> value.display() == text::decimal(i as int),
        value.kind matches TomlKind::Float(f) ==> value.display() == f@,
        value.kind matches TomlKind::String(s) ==> value.display() == s@,
        !(value.kind is Integer || value.kind is Float || value.kind is String) ==> value.display()
            == value.shown@,
{
}

/// A default that does not fit its type is given in the form of its file; an
/// integer for a single-precision number in that number's form.
pub proof fn law_other_default_values(setting: SettingDef)
    ensures
        setting.ty is F32 && setting.default.kind is Integer ==> default_value(setting) == (
        match setting.default.single {
            Some(f) => f.text@,
            None => setting.default.shown@,
        }),
        setting.ty is U32 ==> (setting.default.kind matches TomlKind::Integer(i) ==> (i < 0
            ==> default_value(setting) == setting.default.shown@)),
        !(setting.default.kind is String) && !(setting.default.kind is Integer)
            && !(setting.default.kind is Float) && !(setting.default.kind is Boolean)
            ==> default_value(setting) == setting.default.shown@,
        setting.ty is String && !(setting.default.kind is String) ==> default_value(setting)
            == setting.default.shown@,
        setting.ty is Bool && (setting.default.kind is Integer || setting.default.kind is Float)
            ==> default_value(setting) == setting.default.shown@,
        !(setting.ty is Bool) && setting.default.kind is Boolean ==> default_value(setting)
            == setting.default.shown@,
        (setting.ty is U32 || setting.ty is I32) && setting.default.kind is Float
            ==> default_value(setting) == setting.default.shown@,
{
}

} // verus!
