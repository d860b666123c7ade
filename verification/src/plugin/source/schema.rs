//! Making a schema of properties ready to be encoded.
use vstd::prelude::*;
use crate::plugin::i18n::{LocalizedText, LocalizedView, MessageView};
use crate::plugin::lua::{LuaField, LuaNumber, LuaPair, LuaString, LuaTable, LuaValue};
use crate::text::views;

verus! {

/// The value is a string with the text.
pub open spec fn is_text(value: LuaValue, text: Seq<char>) -> bool {
    value matches LuaValue::Text(string) && string.text matches Some(held) && held@ == text
        && string.whole is None
}

/// The values are strings with the texts.
pub open spec fn are_texts(values: Seq<LuaValue>, texts: Seq<Seq<char>>) -> bool {
    values.len() == texts.len() && forall|i: int|
        0 <= i < values.len() ==> is_text(#[trigger] values[i], texts[i])
}

/// The value is what a text for the user is encoded as: a string, or a table
/// that says how to translate it.
pub open spec fn is_encoded(value: LuaValue, text: LocalizedView) -> bool {
    match text {
        LocalizedView::Raw(text) => is_text(value, text),
        LocalizedView::Message(message) => value matches LuaValue::Table(t) && {
            &&& t.sequence@.len() == 0
            &&& t.others@.len() == 0
            &&& t.fields@.len() == 3
            &&& t.fields@[0].key@ == "pluginId"@
            &&& is_text(t.fields@[0].value, message.plugin_id)
            &&& t.fields@[1].key@ == "msgid"@
            &&& is_text(t.fields@[1].value, message.msgid)
            &&& t.fields@[2].key@ == "arguments"@
            &&& t.fields@[2].value matches LuaValue::Table(list)
            &&& list.fields@.len() == 0
            &&& list.others@.len() == 0
            &&& are_texts(list.sequence@, message.arguments)
        },
    }
}

/// `out` is `value` with every text for the user encoded. A text that stands in
/// a named field stays there in its plain form, and is encoded in a field
/// beside it.
pub open spec fn is_normalized(value: LuaValue, out: LuaValue) -> bool
    decreases value, 0int,
{
    match value {
        LuaValue::Table(t) => out matches LuaValue::Table(u) && {
            proof {
                assert(decreases_to!(value => t));
            }
            &&& fields_normalized(t, t.fields@.len() as int, u.fields@)
            &&& items_normalized(t, t.sequence@.len() as int, u.sequence@)
            &&& pairs_normalized(t, t.others@.len() as int, u.others@)
        },
        LuaValue::Localized(text) => is_encoded(out, text@),
        other => out == other,
    }
}

/// The first `n` fields of a table come out as `out`.
pub open spec fn fields_normalized(t: LuaTable, n: int, out: Seq<LuaField>) -> bool
    decreases t, n,
{
    if n <= 0 || n > t.fields@.len() {
        n == 0 && out.len() == 0
    } else {
        let field = t.fields@[n - 1];
        proof {
            assert(decreases_to!(t => t.fields));
            assert(decreases_to!(t.fields => t.fields@));
            assert(decreases_to!(t.fields@ => t.fields@[n - 1]));
            assert(decreases_to!(field => field.value));
        }
        match field.value {
            LuaValue::Localized(text) => {
                &&& out.len() >= 2
                &&& out[out.len() - 2].key@ == field.key@
                &&& is_text(out[out.len() - 2].value, text@.text())
                &&& out[out.len() - 1].key@ == "localized_"@ + field.key@
                &&& is_encoded(out[out.len() - 1].value, text@)
                &&& fields_normalized(t, n - 1, out.take(out.len() - 2))
            },
            value => {
                &&& out.len() >= 1
                &&& out[out.len() - 1].key@ == field.key@
                &&& is_normalized(field.value, out[out.len() - 1].value)
                &&& fields_normalized(t, n - 1, out.take(out.len() - 1))
            },
        }
    }
}

pub open spec fn items_normalized(t: LuaTable, n: int, out: Seq<LuaValue>) -> bool
    decreases t, n,
{
    if n <= 0 || n > t.sequence@.len() {
        n == 0 && out.len() == 0
    } else {
        proof {
            assert(decreases_to!(t => t.sequence));
            assert(decreases_to!(t.sequence => t.sequence@));
            assert(decreases_to!(t.sequence@ => t.sequence@[n - 1]));
        }
        &&& out.len() >= 1
        &&& is_normalized(t.sequence@[n - 1], out[out.len() - 1])
        &&& items_normalized(t, n - 1, out.take(out.len() - 1))
    }
}

pub open spec fn pairs_normalized(t: LuaTable, n: int, out: Seq<LuaPair>) -> bool
    decreases t, n,
{
    if n <= 0 || n > t.others@.len() {
        n == 0 && out.len() == 0
    } else {
        let pair = t.others@[n - 1];
        proof {
            assert(decreases_to!(t => t.others));
            assert(decreases_to!(t.others => t.others@));
            assert(decreases_to!(t.others@ => t.others@[n - 1]));
            assert(decreases_to!(pair => pair.key));
            assert(decreases_to!(pair => pair.value));
        }
        &&& out.len() >= 1
        &&& is_normalized(pair.key, out[out.len() - 1].key)
        &&& is_normalized(pair.value, out[out.len() - 1].value)
        &&& pairs_normalized(t, n - 1, out.take(out.len() - 1))
    }
}

/// A pair whose field name for the encoded text cannot be made.
pub open spec fn is_stuck(pair: LuaPair) -> bool {
    pair.key matches LuaValue::Text(string) && string.text is None && pair.value is Localized
}

/// No text for the user stands under a key that is not UTF-8.
pub open spec fn is_readable(value: LuaValue) -> bool
    decreases value, 0int,
{
    match value {
        LuaValue::Table(t) => {
            proof {
                assert(decreases_to!(value => t));
            }
            &&& fields_readable(t, t.fields@.len() as int)
            &&& items_readable(t, t.sequence@.len() as int)
            &&& pairs_readable(t, t.others@.len() as int)
        },
        _ => true,
    }
}

pub open spec fn fields_readable(t: LuaTable, n: int) -> bool
    decreases t, n,
{
    if n <= 0 || n > t.fields@.len() {
        true
    } else {
        let field = t.fields@[n - 1];
        proof {
            assert(decreases_to!(t => t.fields));
            assert(decreases_to!(t.fields => t.fields@));
            assert(decreases_to!(t.fields@ => t.fields@[n - 1]));
            assert(decreases_to!(field => field.value));
        }
        fields_readable(t, n - 1) && is_readable(field.value)
    }
}

pub open spec fn items_readable(t: LuaTable, n: int) -> bool
    decreases t, n,
{
    if n <= 0 || n > t.sequence@.len() {
        true
    } else {
        proof {
            assert(decreases_to!(t => t.sequence));
            assert(decreases_to!(t.sequence => t.sequence@));
            assert(decreases_to!(t.sequence@ => t.sequence@[n - 1]));
        }
        items_readable(t, n - 1) && is_readable(t.sequence@[n - 1])
    }
}

pub open spec fn pairs_readable(t: LuaTable, n: int) -> bool
    decreases t, n,
{
    if n <= 0 || n > t.others@.len() {
        true
    } else {
        let pair = t.others@[n - 1];
        proof {
            assert(decreases_to!(t => t.others));
            assert(decreases_to!(t.others => t.others@));
            assert(decreases_to!(t.others@ => t.others@[n - 1]));
            assert(decreases_to!(pair => pair.key));
            assert(decreases_to!(pair => pair.value));
        }
        pairs_readable(t, n - 1) && !is_stuck(pair) && is_readable(pair.key) && is_readable(
            pair.value,
        )
    }
}

/// Where the first fields cannot be read, all of them cannot.
proof fn lemma_fields_unreadable(t: LuaTable, i: int, n: int)
    requires
        0 <= i <= n <= t.fields@.len(),
        !fields_readable(t, i),
    ensures
        !fields_readable(t, n),
    decreases n,
{
    if i < n {
        lemma_fields_unreadable(t, i, n - 1);
    }
}

proof fn lemma_items_unreadable(t: LuaTable, i: int, n: int)
    requires
        0 <= i <= n <= t.sequence@.len(),
        !items_readable(t, i),
    ensures
        !items_readable(t, n),
    decreases n,
{
    if i < n {
        lemma_items_unreadable(t, i, n - 1);
    }
}

proof fn lemma_pairs_unreadable(t: LuaTable, i: int, n: int)
    requires
        0 <= i <= n <= t.others@.len(),
        !pairs_readable(t, i),
    ensures
        !pairs_readable(t, n),
    decreases n,
{
    if i < n {
        lemma_pairs_unreadable(t, i, n - 1);
    }
}

fn text_value(text: &str) -> (value: LuaValue)
    ensures
        is_text(value, text@),
{
    LuaValue::Text(LuaString { text: Some(text.to_owned()), defect: String::new(), whole: None })
}

fn encode(text: &LocalizedText) -> (value: LuaValue)
    ensures
        is_encoded(value, text@),
{
    match text {
        LocalizedText::Raw(text) => text_value(text.as_str()),
        LocalizedText::Message(message) => {
            let mut list: Vec<LuaValue> = Vec::new();
            let mut i: usize = 0;
            while i < message.arguments.len()
                invariant
                    i <= message.arguments@.len(),
                    list@.len() == i,
                    forall|j: int|
                        0 <= j < i ==> is_text(#[trigger] list@[j], views(message.arguments@)[j]),
                decreases message.arguments@.len() - i,
            {
                assert(views(message.arguments@)[i as int] == message.arguments@[i as int]@);
                list.push(text_value(message.arguments[i].as_str()));
                i = i + 1;
            }
            let arguments = LuaValue::Table(
                LuaTable { fields: Vec::new(), sequence: list, others: Vec::new() },
            );
            let mut fields: Vec<LuaField> = Vec::new();
            fields.push(
                LuaField {
                    key: "pluginId".to_owned(),
                    value: text_value(message.plugin_id.as_str()),
                },
            );
            fields.push(
                LuaField { key: "msgid".to_owned(), value: text_value(message.msgid.as_str()) },
            );
            fields.push(LuaField { key: "arguments".to_owned(), value: arguments });
            LuaValue::Table(LuaTable { fields, sequence: Vec::new(), others: Vec::new() })
        },
    }
}

fn copy_whole(text: &Option<String>) -> (copy: Option<String>)
    ensures
        copy == *text,
{
    match text {
        Some(text) => Some(text.clone()),
        None => None,
    }
}

/// Encodes the texts for the user in a value.
pub fn normalize_localized_value(value: &LuaValue) -> (r: Option<LuaValue>)
    ensures
        match r {
            Some(out) => is_readable(*value) && is_normalized(*value, out),
            None => !is_readable(*value),
        },
    decreases *value, 0int,
{
    match value {
        LuaValue::Table(t) => {
            assert(decreases_to!(*value => *t));
            match normalize_table(t) {
                Some(out) => Some(LuaValue::Table(out)),
                None => None,
            }
        },
        LuaValue::Localized(text) => Some(encode(text)),
        LuaValue::Nil => Some(LuaValue::Nil),
        LuaValue::Boolean(b) => Some(LuaValue::Boolean(*b)),
        LuaValue::Integer(n) => Some(LuaValue::Integer(*n)),
        LuaValue::Number(n) => Some(
            LuaValue::Number(
                LuaNumber {
                    coerced: n.coerced.clone(),
                    shown: n.shown.clone(),
                    exact: n.exact,
                    whole: n.whole,
                },
            ),
        ),
        LuaValue::Text(string) => Some(
            LuaValue::Text(
                LuaString {
                    text: copy_whole(&string.text),
                    defect: string.defect.clone(),
                    whole: string.whole,
                },
            ),
        ),
        LuaValue::Function => Some(LuaValue::Function),
        LuaValue::Other(name) => Some(LuaValue::Other(name.clone())),
    }
}

fn normalize_table(t: &LuaTable) -> (r: Option<LuaTable>)
    ensures
        match r {
            Some(u) => {
                &&& is_readable(LuaValue::Table(*t))
                &&& fields_normalized(*t, t.fields@.len() as int, u.fields@)
                &&& items_normalized(*t, t.sequence@.len() as int, u.sequence@)
                &&& pairs_normalized(*t, t.others@.len() as int, u.others@)
            },
            None => !is_readable(LuaValue::Table(*t)),
        },
    decreases *t, 0int,
{
    let mut fields: Vec<LuaField> = Vec::new();
    let mut i: usize = 0;
    while i < t.fields.len()
        invariant
            i <= t.fields@.len(),
            fields_readable(*t, i as int),
            fields_normalized(*t, i as int, fields@),
        decreases t.fields@.len() - i,
    {
        let ghost before = fields@;
        let field = &t.fields[i];
        assert(decreases_to!(*t => t.fields));
        assert(decreases_to!(t.fields => t.fields@));
        assert(decreases_to!(t.fields@ => t.fields@[i as int]));
        assert(decreases_to!(t.fields@[i as int] => t.fields@[i as int].value));
        match &field.value {
            LuaValue::Localized(text) => {
                fields.push(LuaField { key: field.key.clone(), value: text_value(text.text()) });
                let mut key = "localized_".to_owned();
                key.append(field.key.as_str());
                fields.push(LuaField { key, value: encode(text) });
                assert(fields@.take(fields@.len() - 2) =~= before);
                assert(is_readable(field.value));
            },
            _ => match normalize_localized_value(&field.value) {
                Some(value) => {
                    fields.push(LuaField { key: field.key.clone(), value });
                    assert(fields@.take(fields@.len() - 1) =~= before);
                },
                None => {
                    proof {
                        assert(!fields_readable(*t, i + 1));
                        lemma_fields_unreadable(*t, i + 1, t.fields@.len() as int);
                    }
                    return None;
                },
            },
        }
        i = i + 1;
    }
    let mut sequence: Vec<LuaValue> = Vec::new();
    i = 0;
    while i < t.sequence.len()
        invariant
            i <= t.sequence@.len(),
            items_readable(*t, i as int),
            items_normalized(*t, i as int, sequence@),
        decreases t.sequence@.len() - i,
    {
        let ghost before = sequence@;
        assert(decreases_to!(*t => t.sequence));
        assert(decreases_to!(t.sequence => t.sequence@));
        assert(decreases_to!(t.sequence@ => t.sequence@[i as int]));
        match normalize_localized_value(&t.sequence[i]) {
            Some(value) => {
                sequence.push(value);
                assert(sequence@.take(sequence@.len() - 1) =~= before);
            },
            None => {
                proof {
                    assert(!items_readable(*t, i + 1));
                    lemma_items_unreadable(*t, i + 1, t.sequence@.len() as int);
                }
                return None;
            },
        }
        i = i + 1;
    }
    let mut others: Vec<LuaPair> = Vec::new();
    i = 0;
    while i < t.others.len()
        invariant
            i <= t.others@.len(),
            pairs_readable(*t, i as int),
            pairs_normalized(*t, i as int, others@),
        decreases t.others@.len() - i,
    {
        let ghost before = others@;
        let pair = &t.others[i];
        assert(decreases_to!(*t => t.others));
        assert(decreases_to!(t.others => t.others@));
        assert(decreases_to!(t.others@ => t.others@[i as int]));
        assert(decreases_to!(t.others@[i as int] => t.others@[i as int].key));
        assert(decreases_to!(t.others@[i as int] => t.others@[i as int].value));
        let stuck = match (&pair.key, &pair.value) {
            (LuaValue::Text(string), LuaValue::Localized(_)) => string.text.is_none(),
            _ => false,
        };
        let read = if stuck {
            None
        } else {
            match (normalize_localized_value(&pair.key), normalize_localized_value(&pair.value)) {
                (Some(key), Some(value)) => Some(LuaPair { key, value }),
                _ => None,
            }
        };
        match read {
            Some(out) => {
                others.push(out);
                assert(others@.take(others@.len() - 1) =~= before);
            },
            None => {
                proof {
                    assert(!pairs_readable(*t, i + 1));
                    lemma_pairs_unreadable(*t, i + 1, t.others@.len() as int);
                }
                return None;
            },
        }
        i = i + 1;
    }
    Some(LuaTable { fields, sequence, others })
}

/// A localized text that is handed out: a raw one as a text, a message as a
/// table with the plugin's id, the message id and the arguments.
pub proof fn law_encoded_texts(value: LuaValue, text: Seq<char>, message: MessageView)
    ensures
        is_encoded(value, LocalizedView::Raw(text)) <==> (value matches LuaValue::Text(string)
            && string.text matches Some(held) && held@ == text && string.whole is None),
        is_encoded(value, LocalizedView::Message(message)) ==> (value matches LuaValue::Table(t)
            && {
            &&& t.fields@.len() == 3
            &&& t.fields@[0].key@ == "pluginId"@
            &&& is_text(t.fields@[0].value, message.plugin_id)
            &&& t.fields@[1].key@ == "msgid"@
            &&& is_text(t.fields@[1].value, message.msgid)
            &&& t.fields@[2].key@ == "arguments"@
            &&& t.fields@[2].value matches LuaValue::Table(list)
            &&& list.sequence@.len() == message.arguments.len()
            &&& forall|i: int|
                0 <= i < list.sequence@.len() ==> is_text(
                    #[trigger] list.sequence@[i],
                    message.arguments[i],
                )
            &&& t.sequence@.len() == 0 && t.others@.len() == 0
            &&& list.fields@.len() == 0 && list.others@.len() == 0
        }),
{
}

/// A value that holds no other is not changed; a localized one is encoded.
pub proof fn law_normalized_values(value: LuaValue, out: LuaValue)
    requires
        is_normalized(value, out),
    ensures
        value is Table <==> out is Table && !(value is Localized),
        value matches LuaValue::Localized(text) ==> is_encoded(out, text@),
        !(value is Table) && !(value is Localized) ==> out == value,
{
}

/// The last field of a table that holds a localized text becomes two: one under
/// its own key with the text itself, one under the key behind `localized_` with
/// the text encoded. Any other stays one, under its own key.
pub proof fn law_normalized_fields(t: LuaTable, n: int, out: Seq<LuaField>)
    requires
        0 < n <= t.fields@.len(),
        fields_normalized(t, n, out),
    ensures
        t.fields@[n - 1].value matches LuaValue::Localized(text) ==> {
            &&& out.len() >= 2
            &&& out[out.len() - 2].key@ == t.fields@[n - 1].key@
            &&& is_text(out[out.len() - 2].value, text@.text())
            &&& out[out.len() - 1].key@ == "localized_"@ + t.fields@[n - 1].key@
            &&& is_encoded(out[out.len() - 1].value, text@)
            &&& fields_normalized(t, n - 1, out.take(out.len() - 2))
        },
        !(t.fields@[n - 1].value is Localized) ==> {
            &&& out.len() >= 1
            &&& out[out.len() - 1].key@ == t.fields@[n - 1].key@
            &&& is_normalized(t.fields@[n - 1].value, out[out.len() - 1].value)
            &&& fields_normalized(t, n - 1, out.take(out.len() - 1))
        },
{
}

/// The items of a list keep their number and their order.
pub proof fn law_normalized_items(t: LuaTable, n: int, out: Seq<LuaValue>)
    requires
        0 <= n <= t.sequence@.len(),
        items_normalized(t, n, out),
    ensures
        out.len() == n,
        forall|i: int| 0 <= i < n ==> is_normalized(t.sequence@[i], #[trigger] out[i]),
    decreases n,
{
    if n > 0 {
        law_normalized_items(t, n - 1, out.take(out.len() - 1));
        assert forall|i: int| 0 <= i < n implies is_normalized(
            t.sequence@[i],
            #[trigger] out[i],
        ) by {
            if i < n - 1 {
                assert(out.take(out.len() - 1)[i] == out[i]);
            }
        }
    }
}

/// The other pairs of a table keep their number and their order, keys and
/// values each normalized for itself.
pub proof fn law_normalized_pairs(t: LuaTable, n: int, out: Seq<LuaPair>)
    requires
        0 <= n <= t.others@.len(),
        pairs_normalized(t, n, out),
    ensures
        out.len() == n,
        forall|i: int|
            0 <= i < n ==> is_normalized(t.others@[i].key, (#[trigger] out[i]).key)
                && is_normalized(t.others@[i].value, out[i].value),
    decreases n,
{
    if n > 0 {
        law_normalized_pairs(t, n - 1, out.take(out.len() - 1));
        assert forall|i: int| 0 <= i < n implies is_normalized(
            t.others@[i].key,
            (#[trigger] out[i]).key,
        ) && is_normalized(t.others@[i].value, out[i].value) by {
            if i < n - 1 {
                assert(out.take(out.len() - 1)[i] == out[i]);
            }
        }
    }
}

/// A pair whose key is no text of characters cannot hold a localized text.
pub proof fn law_unreadable_pairs(t: LuaTable, i: int)
    requires
        0 <= i < t.others@.len(),
        t.others@[i].value is Localized,
        t.others@[i].key matches LuaValue::Text(string) && string.text is None,
    ensures
        !is_readable(LuaValue::Table(t)),
{
    assert(is_stuck(t.others@[i]));
    assert(!pairs_readable(t, i + 1));
    lemma_pairs_unreadable(t, i + 1, t.others@.len() as int);
}

} // verus!
