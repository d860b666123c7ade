//! Changes to the settings of a source plugin.
use vstd::prelude::*;
use crate::error;
use crate::error::{Error, Fault};
use crate::map::{lemma_texts_of_insert, texts_of, TextMap};
use crate::plugin::source::types::{
    LoadedPluginInfo, LoadedPluginInfoView, SourceSetting, SourceSettingView,
};
use crate::text;
use crate::text::{
    decimal_i64, decimal_u64, holds_text, join_texts, parse_i32, parse_u32, same, view_of, views,
};

verus! {

/// The value of a setting as it is kept. `single` is how the text is written
/// when it is read as a single-precision number, where it can be.
pub open spec fn setting_text(ty: Seq<char>, raw: Seq<char>, single: Option<Seq<char>>) -> Option<
    Seq<char>,
> {
    if ty == "u32"@ {
        match text::integer_within(raw, false, 0, u32::MAX as int) {
            Some(n) => Some(text::decimal(n)),
            None => None,
        }
    } else if ty == "i32"@ {
        match text::integer_within(raw, true, i32::MIN as int, i32::MAX as int) {
            Some(n) => Some(text::decimal(n)),
            None => None,
        }
    } else if ty == "f32"@ {
        single
    } else if ty == "bool"@ {
        if raw == "true"@ || raw == "false"@ {
            Some(raw)
        } else {
            None
        }
    } else {
        Some(raw)
    }
}

pub open spec fn known_type(ty: Seq<char>) -> bool {
    ty == "u32"@ || ty == "i32"@ || ty == "f32"@ || ty == "bool"@ || ty == "string"@
}

/// Why a text is no value of a setting.
pub open spec fn setting_fault(
    setting: SourceSettingView,
    raw: Seq<char>,
    single: Option<Seq<char>>,
) -> Option<Seq<char>> {
    if !known_type(setting.ty) {
        Some(setting.key + ".type '"@ + setting.ty + "' is unsupported"@)
    } else {
        match setting_text(setting.ty, raw, single) {
            None => Some(setting.key + " expects "@ + setting.ty + ", got '"@ + raw + "'"@),
            Some(value) => if setting.choices.len() > 0 && !setting.choices.contains(value) {
                Some(
                    setting.key + " value '"@ + value + "' is not one of ["@ + text::join(
                        setting.choices,
                        ", "@,
                    ) + "]"@,
                )
            } else {
                None
            },
        }
    }
}

/// The value of a setting, or why the text is none.
pub fn validate_source_setting(setting: &SourceSetting, raw: &str, single: &Option<String>) -> (r:
    Result<String, String>)
    ensures
        match r {
            Ok(value) => setting_fault(setting@, raw@, view_of(*single)) is None && setting_text(
                setting@.ty,
                raw@,
                view_of(*single),
            ) == Some(value@),
            Err(message) => setting_fault(setting@, raw@, view_of(*single)) == Some(message@),
        },
{
    let ty = setting.ty.as_str();
    let read = if same(ty, "u32") {
        match parse_u32(raw) {
            Some(n) => Some(decimal_u64(n as u64)),
            None => None,
        }
    } else if same(ty, "i32") {
        match parse_i32(raw) {
            Some(n) => Some(decimal_i64(n as i64)),
            None => None,
        }
    } else if same(ty, "f32") {
        match single {
            Some(text) => Some(text.clone()),
            None => None,
        }
    } else if same(ty, "bool") {
        if same(raw, "true") || same(raw, "false") {
            Some(raw.to_owned())
        } else {
            None
        }
    } else if same(ty, "string") {
        Some(raw.to_owned())
    } else {
        let mut message = setting.key.clone();
        message.append(".type '");
        message.append(ty);
        message.append("' is unsupported");
        return Err(message);
    };
    match read {
        None => {
            let mut message = setting.key.clone();
            message.append(" expects ");
            message.append(ty);
            message.append(", got '");
            message.append(raw);
            message.append("'");
            Err(message)
        },
        Some(value) => {
            if setting.choices.len() > 0 && !holds_text(&setting.choices, value.as_str()) {
                let mut message = setting.key.clone();
                message.append(" value '");
                message.append(value.as_str());
                message.append("' is not one of [");
                let all = join_texts(&setting.choices, ", ");
                message.append(all.as_str());
                message.append("]");
                return Err(message);
            }
            Ok(value)
        },
    }
}

/// A kept value of a setting that is no float is a value of it again, and stays
/// what it is.
pub proof fn law_kept_value_stays(
    setting: SourceSettingView,
    raw: Seq<char>,
    single: Option<Seq<char>>,
    again: Option<Seq<char>>,
)
    requires
        setting_fault(setting, raw, single) is None,
        setting.ty != "f32"@,
    ensures
        ({
            let value = setting_text(setting.ty, raw, single)->0;
            &&& setting_fault(setting, value, again) is None
            &&& setting_text(setting.ty, value, again) == Some(value)
        }),
{
    if setting.ty == "u32"@ {
        let n = text::integer_within(raw, false, 0, u32::MAX as int)->0;
        text::law_decimal_reads_back(n, false);
    } else if setting.ty == "i32"@ {
        let n = text::integer_within(raw, true, i32::MIN as int, i32::MAX as int)->0;
        text::law_decimal_reads_back(n, true);
    }
}

/// The place of the last setting with the key among the first `n`.
pub open spec fn setting_at(settings: Seq<SourceSettingView>, key: Seq<char>, n: int) -> Option<int>
    decreases n,
{
    if n <= 0 {
        None
    } else if settings[n - 1].key == key {
        Some(n - 1)
    } else {
        setting_at(settings, key, n - 1)
    }
}

pub open spec fn declared_setting(settings: Seq<SourceSettingView>, key: Seq<char>) -> Option<int> {
    setting_at(settings, key, settings.len() as int)
}

/// How the text under a key is written as a single-precision number.
pub open spec fn single_of(
    singles: Map<Seq<char>, Seq<char>>,
    key: Seq<char>,
) -> Option<Seq<char>> {
    if singles.contains_key(key) {
        Some(singles[key])
    } else {
        None
    }
}

/// The fault of one change.
pub open spec fn change_fault(
    source_id: Seq<char>,
    settings: Seq<SourceSettingView>,
    key: Seq<char>,
    raw: Seq<char>,
    single: Option<Seq<char>>,
) -> Option<Fault> {
    match declared_setting(settings, key) {
        None => Some(
            Fault::SettingsValidationFailed(
                source_id + "."@ + key + " is not declared by the remote source"@,
            ),
        ),
        Some(i) => match setting_fault(settings[i], raw, single) {
            Some(message) => Some(Fault::SettingsValidationFailed(source_id + "."@ + message)),
            None => None,
        },
    }
}

/// The fault of a change to several settings of a plugin.
pub open spec fn patch_fault(
    source_id: Seq<char>,
    info: LoadedPluginInfoView,
    keys: Seq<Seq<char>>,
    values: Map<Seq<char>, Seq<char>>,
    singles: Map<Seq<char>, Seq<char>>,
) -> Option<Fault> {
    error::first(
        error::unless(
            info.capabilities.discover is Some,
            Fault::DiscoverUnsupported(source_id),
        ),
        error::first_of(
            keys.len() as int,
            |i: int|
                change_fault(
                    source_id,
                    info.settings,
                    keys[i],
                    values[keys[i]],
                    single_of(singles, keys[i]),
                ),
        ),
    )
}

/// The values that are kept for the first `n` keys.
pub open spec fn patch_value(
    settings: Seq<SourceSettingView>,
    keys: Seq<Seq<char>>,
    values: Map<Seq<char>, Seq<char>>,
    singles: Map<Seq<char>, Seq<char>>,
    n: int,
) -> Map<Seq<char>, Seq<char>>
    decreases n,
{
    if n <= 0 {
        Map::empty()
    } else {
        let key = keys[n - 1];
        let setting = settings[declared_setting(settings, key)->0];
        patch_value(settings, keys, values, singles, n - 1).insert(
            key,
            setting_text(setting.ty, values[key], single_of(singles, key))->0,
        )
    }
}

fn find_setting<'a>(settings: &'a Vec<SourceSetting>, key: &str) -> (r: Option<&'a SourceSetting>)
    ensures
        match r {
            Some(setting) => declared_setting(views(settings@), key@) is Some && setting@ == views(
                settings@,
            )[declared_setting(views(settings@), key@)->0],
            None => declared_setting(views(settings@), key@) is None,
        },
{
    let ghost all = views(settings@);
    let mut n: usize = settings.len();
    while n > 0
        invariant
            n <= settings@.len(),
            all == views(settings@),
            declared_setting(all, key@) == setting_at(all, key@, n as int),
        decreases n,
    {
        assert(all[n - 1] == settings@[n - 1]@);
        if same(settings[n - 1].key.as_str(), key) {
            return Some(&settings[n - 1]);
        }
        n = n - 1;
    }
    None
}

fn check_change(
    source_id: &str,
    settings: &Vec<SourceSetting>,
    key: &str,
    raw: &str,
    single: &Option<String>,
) -> (r: Result<String, Error>)
    ensures
        match r {
            Ok(value) => {
                let all = views(settings@);
                &&& change_fault(source_id@, all, key@, raw@, view_of(*single)) is None
                &&& setting_text(
                    all[declared_setting(all, key@)->0].ty,
                    raw@,
                    view_of(*single),
                ) == Some(value@)
            },
            Err(e) => change_fault(source_id@, views(settings@), key@, raw@, view_of(*single))
                == Some(e@),
        },
{
    let mut message = source_id.to_owned();
    message.append(".");
    match find_setting(settings, key) {
        None => {
            message.append(key);
            message.append(" is not declared by the remote source");
            Err(Error::SettingsValidationFailed(message))
        },
        Some(setting) => match validate_source_setting(setting, raw, single) {
            Ok(value) => Ok(value),
            Err(text) => {
                message.append(text.as_str());
                Err(Error::SettingsValidationFailed(message))
            },
        },
    }
}

/// Checks a change to the settings of a plugin and brings its values to the
/// form in which they are kept. Only declared settings can be changed.
/// `singles` holds, for each key whose text can be read as a single-precision
/// number, how that number is written.
pub fn validate_settings_patch(
    source_id: &str,
    info: &LoadedPluginInfo,
    values: &TextMap<String>,
    singles: &TextMap<String>,
) -> (r: Result<TextMap<String>, Error>)
    requires
        values.wf(),
        singles.wf(),
    ensures
        match r {
            Ok(kept) => {
                &&& patch_fault(
                    source_id@,
                    info@,
                    values.order(),
                    texts_of(values@),
                    texts_of(singles@),
                ) is None
                &&& kept.wf()
                &&& texts_of(kept@) == patch_value(
                    info@.settings,
                    values.order(),
                    texts_of(values@),
                    texts_of(singles@),
                    values.order().len() as int,
                )
            },
            Err(e) => patch_fault(
                source_id@,
                info@,
                values.order(),
                texts_of(values@),
                texts_of(singles@),
            ) == Some(e@),
        },
{
    if info.capabilities.discover.is_none() {
        return Err(Error::DiscoverUnsupported(source_id.to_owned()));
    }
    let ghost keys = values.order();
    let ghost given = texts_of(values@);
    let ghost numbers = texts_of(singles@);
    let ghost settings = info@.settings;
    let ghost fault = |i: int|
        change_fault(
            source_id@,
            info@.settings,
            keys[i],
            given[keys[i]],
            single_of(numbers, keys[i]),
        );
    let mut kept: TextMap<String> = TextMap::new();
    let n: usize = values.len();
    let mut i: usize = 0;
    proof {
        values.lemma_order();
        assert(texts_of(kept@) =~= Map::<Seq<char>, Seq<char>>::empty());
    }
    while i < n
        invariant
            values.wf(),
            singles.wf(),
            kept.wf(),
            i <= n,
            n == keys.len(),
            keys == values.order(),
            given == texts_of(values@),
            numbers == texts_of(singles@),
            settings == info@.settings,
            forall|j: int| 0 <= j < keys.len() ==> values@.contains_key(#[trigger] keys[j]),
            fault == (|i: int|
                change_fault(
                    source_id@,
                    info@.settings,
                    keys[i],
                    given[keys[i]],
                    single_of(numbers, keys[i]),
                )),
            patch_fault(source_id@, info@, keys, given, numbers) == error::first_of(
                keys.len() as int,
                fault,
            ),
            error::first_of(i as int, fault) is None,
            texts_of(kept@) == patch_value(settings, keys, given, numbers, i as int),
        decreases n - i,
    {
        let key = values.key_at(i);
        let raw = values.value_at(i);
        let single = match singles.get(key.as_str()) {
            Some(text) => Some(text.clone()),
            None => None,
        };
        proof {
            assert(given[keys[i as int]] == raw@);
            assert(view_of(single) == single_of(numbers, keys[i as int]));
            if fault(i as int) is Some {
                error::lemma_first_of_found(i as int, keys.len() as int, fault);
            }
        }
        let value = check_change(source_id, &info.settings, key.as_str(), raw.as_str(), &single)?;
        proof {
            lemma_texts_of_insert(kept@, key@, value);
        }
        kept.insert(key.clone(), value);
        i = i + 1;
    }
    Ok(kept)
}

/// A change that is accepted touches only declared settings, and each takes a
/// value that its declaration accepts.
pub proof fn law_patch_keeps_to_declarations(
    source_id: Seq<char>,
    info: LoadedPluginInfoView,
    keys: Seq<Seq<char>>,
    values: Map<Seq<char>, Seq<char>>,
    singles: Map<Seq<char>, Seq<char>>,
    i: int,
)
    requires
        patch_fault(source_id, info, keys, values, singles) is None,
        0 <= i < keys.len(),
    ensures
        info.capabilities.discover is Some,
        declared_setting(info.settings, keys[i]) is Some,
        setting_fault(
            info.settings[declared_setting(info.settings, keys[i])->0],
            values[keys[i]],
            single_of(singles, keys[i]),
        ) is None,
{
    let fault = |i: int|
        change_fault(
            source_id,
            info.settings,
            keys[i],
            values[keys[i]],
            single_of(singles, keys[i]),
        );
    error::lemma_first_of_none(keys.len() as int, fault);
    assert(fault(i) is None);
}

/// What is kept of a change, by the type of the setting: of an integer its
/// plain form where it lies in the type's range, of a flag `true` or `false`,
/// of a single-precision number its own form, of a text all of it.
pub proof fn law_kept_setting(ty: Seq<char>, raw: Seq<char>, single: Option<Seq<char>>)
    ensures
        ty == "u32"@ ==> match text::integer_value(raw, false) {
            Some(n) => if 0 <= n <= 4_294_967_295 {
                setting_text(ty, raw, single) == Some(text::decimal(n))
            } else {
                setting_text(ty, raw, single) is None
            },
            None => setting_text(ty, raw, single) is None,
        },
        ty == "i32"@ ==> match text::integer_value(raw, true) {
            Some(n) => if -2_147_483_648 <= n <= 2_147_483_647 {
                setting_text(ty, raw, single) == Some(text::decimal(n))
            } else {
                setting_text(ty, raw, single) is None
            },
            None => setting_text(ty, raw, single) is None,
        },
        ty == "f32"@ ==> setting_text(ty, raw, single) == single,
        ty == "bool"@ && (raw == "true"@ || raw == "false"@) ==> setting_text(ty, raw, single)
            == Some(raw),
        ty == "bool"@ && raw != "true"@ && raw != "false"@
            ==> setting_text(ty, raw, single) is None,
        ty == "string"@ ==> setting_text(ty, raw, single) == Some(raw),
{
    reveal_strlit("u32");
    reveal_strlit("i32");
    reveal_strlit("f32");
    reveal_strlit("bool");
    reveal_strlit("string");
    assert("u32"@[0] == 'u' && "i32"@[0] == 'i' && "f32"@[0] == 'f' && "bool"@[0] == 'b'
        && "string"@[0] == 's');
}

/// A change is refused where the type is not known, where the text does not
/// read as the type, and where choices are given and the value is none of them;
/// each time with the setting's key and the reason.
pub proof fn law_refused_setting(
    setting: SourceSettingView,
    raw: Seq<char>,
    single: Option<Seq<char>>,
)
    ensures
        setting.ty != "u32"@ && setting.ty != "i32"@ && setting.ty != "f32"@ && setting.ty
            != "bool"@ && setting.ty != "string"@ ==> setting_fault(setting, raw, single) == Some(
            setting.key + ".type '"@ + setting.ty + "' is unsupported"@,
        ),
        setting.ty == "u32"@ || setting.ty == "i32"@ || setting.ty == "f32"@ || setting.ty
            == "bool"@ || setting.ty == "string"@ ==> match setting_text(setting.ty, raw, single) {
            None => setting_fault(setting, raw, single) == Some(
                setting.key + " expects "@ + setting.ty + ", got '"@ + raw + "'"@,
            ),
            Some(value) => if setting.choices.len() == 0 || setting.choices.contains(value) {
                setting_fault(setting, raw, single) is None
            } else {
                setting_fault(setting, raw, single) == Some(
                    setting.key + " value '"@ + value + "' is not one of ["@ + text::join(
                        setting.choices,
                        ", "@,
                    ) + "]"@,
                )
            },
        },
{
}

/// A key names the last setting declared under it, or none.
pub proof fn law_declared_under_a_key(settings: Seq<SourceSettingView>, key: Seq<char>)
    ensures
        match declared_setting(settings, key) {
            Some(i) => 0 <= i < settings.len() && settings[i].key == key && forall|j: int|
                i < j < settings.len() ==> (#[trigger] settings[j]).key != key,
            None => forall|j: int| 0 <= j < settings.len() ==> (#[trigger] settings[j]).key != key,
        },
{
    lemma_setting_at(settings, key, settings.len() as int);
}

proof fn lemma_setting_at(settings: Seq<SourceSettingView>, key: Seq<char>, n: int)
    requires
        0 <= n <= settings.len(),
    ensures
        match setting_at(settings, key, n) {
            Some(i) => 0 <= i < n && settings[i].key == key && forall|j: int|
                i < j < n ==> (#[trigger] settings[j]).key != key,
            None => forall|j: int| 0 <= j < n ==> (#[trigger] settings[j]).key != key,
        },
    decreases n,
{
    if n > 0 {
        lemma_setting_at(settings, key, n - 1);
    }
}

/// A change of what the source does not declare is refused by name; one that
/// its setting refuses, with the setting's reason.
pub proof fn law_refused_change(
    source_id: Seq<char>,
    settings: Seq<SourceSettingView>,
    key: Seq<char>,
    raw: Seq<char>,
    single: Option<Seq<char>>,
    i: int,
)
    ensures
        (forall|j: int| 0 <= j < settings.len() ==> (#[trigger] settings[j]).key != key)
            ==> change_fault(source_id, settings, key, raw, single) == Some(
            Fault::SettingsValidationFailed(
                source_id + "."@ + key + " is not declared by the remote source"@,
            ),
        ),
        0 <= i < settings.len() && settings[i].key == key && (forall|j: int|
            i < j < settings.len() ==> (#[trigger] settings[j]).key != key) ==> match setting_fault(
            settings[i],
            raw,
            single,
        ) {
            Some(message) => change_fault(source_id, settings, key, raw, single) == Some(
                Fault::SettingsValidationFailed(source_id + "."@ + message),
            ),
            None => change_fault(source_id, settings, key, raw, single) is None,
        },
{
    law_declared_under_a_key(settings, key);
    if let Some(at) = declared_setting(settings, key) {
        assert(settings[at].key == key);
    }
}

/// A patch is accepted where the source can be searched and each of its changes
/// is accepted; it is refused for the first change that is not.
pub proof fn law_accepted_patch(
    source_id: Seq<char>,
    info: LoadedPluginInfoView,
    keys: Seq<Seq<char>>,
    values: Map<Seq<char>, Seq<char>>,
    singles: Map<Seq<char>, Seq<char>>,
)
    ensures
        info.capabilities.discover is None ==> patch_fault(source_id, info, keys, values, singles)
            == Some(Fault::DiscoverUnsupported(source_id)),
        info.capabilities.discover is Some ==> (patch_fault(
            source_id,
            info,
            keys,
            values,
            singles,
        ) is None <==> forall|i: int|
            0 <= i < keys.len() ==> change_fault(
                source_id,
                info.settings,
                #[trigger] keys[i],
                values[keys[i]],
                single_of(singles, keys[i]),
            ) is None),
{
    let fault = |i: int|
        change_fault(
            source_id,
            info.settings,
            keys[i],
            values[keys[i]],
            single_of(singles, keys[i]),
        );
    error::lemma_first_of_none(keys.len() as int, fault);
    if info.capabilities.discover is Some {
        if patch_fault(source_id, info, keys, values, singles) is None {
            assert forall|i: int| 0 <= i < keys.len() implies change_fault(
                source_id,
                info.settings,
                #[trigger] keys[i],
                values[keys[i]],
                single_of(singles, keys[i]),
            ) is None by {
                assert(fault(i) is None);
            }
        } else {
            let i = choose|i: int| 0 <= i < keys.len() && !((#[trigger] fault(i)) is None);
            assert(keys[i] == keys[i]);
        }
    }
}

/// Of an accepted patch a value is kept under each of its keys and no other:
/// the text that the key's setting gives it.
pub proof fn law_kept_patch(
    settings: Seq<SourceSettingView>,
    keys: Seq<Seq<char>>,
    values: Map<Seq<char>, Seq<char>>,
    singles: Map<Seq<char>, Seq<char>>,
    n: int,
    key: Seq<char>,
)
    requires
        0 <= n <= keys.len(),
    ensures
        patch_value(settings, keys, values, singles, n).contains_key(key) <==> exists|i: int|
            0 <= i < n && #[trigger] keys[i] == key,
        patch_value(settings, keys, values, singles, n).contains_key(key) ==> patch_value(
            settings,
            keys,
            values,
            singles,
            n,
        )[key] == setting_text(
            settings[declared_setting(settings, key)->0].ty,
            values[key],
            if singles.contains_key(key) {
                Some(singles[key])
            } else {
                None
            },
        )->0,
    decreases n,
{
    if n > 0 {
        law_kept_patch(settings, keys, values, singles, n - 1, key);
        assert(keys[n - 1] == keys[n - 1]);
    }
}

} // verus!
