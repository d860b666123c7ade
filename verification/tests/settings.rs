use waywallen::plugin::settings::{
    coerce_and_validate, setting_default_value, SettingDef, SettingType, TomlKind, TomlValue,
    ValidationError, F32,
};

/// The place of a number among all numbers of single precision.
fn rank(value: f32) -> Option<i64> {
    if value.is_nan() {
        return None;
    }
    let bits = value.to_bits();
    let size = i64::from(bits & 0x7fff_ffff);
    Some(if bits >> 31 == 1 { -size } else { size })
}

fn single(value: f32) -> F32 {
    F32 { text: value.to_string(), rank: rank(value) }
}

fn read(raw: &str) -> Option<F32> {
    raw.parse::<f32>().ok().map(single)
}

fn integer(i: i64) -> TomlValue {
    TomlValue { kind: TomlKind::Integer(i), shown: i.to_string(), single: Some(single(i as f32)) }
}

fn float(f: f64) -> TomlValue {
    TomlValue {
        kind: TomlKind::Float(f.to_string()),
        shown: toml::Value::Float(f).to_string(),
        single: Some(single(f as f32)),
    }
}

fn string(s: &str) -> TomlValue {
    TomlValue {
        kind: TomlKind::String(s.to_string()),
        shown: toml::Value::String(s.to_string()).to_string(),
        single: read(s),
    }
}

fn test_setting(ty: SettingType, default: TomlValue, identity: bool) -> SettingDef {
    SettingDef::new(ty, default, identity)
}

fn check(key: &str, raw: &str, schema: &SettingDef) -> Result<String, ValidationError> {
    coerce_and_validate(key, raw, schema, &read(raw))
}

#[test]
fn coerce_and_validate_u32_in_range() {
    let s = SettingDef {
        min: Some(integer(0)),
        max: Some(integer(100)),
        ..test_setting(SettingType::U32, integer(50), false)
    };
    assert_eq!(check("volume", "75", &s).unwrap(), "75");
    assert_eq!(check("volume", "0", &s).unwrap(), "0");
    assert_eq!(check("volume", "100", &s).unwrap(), "100");
}

#[test]
fn coerce_and_validate_u32_out_of_range_errors() {
    let s = SettingDef {
        min: Some(integer(0)),
        max: Some(integer(100)),
        ..test_setting(SettingType::U32, integer(50), false)
    };
    let err = check("volume", "500", &s).expect_err("must error");
    assert!(matches!(err, ValidationError::OutOfRange { ref key, .. } if key == "volume"));
    assert_eq!(
        err.message(),
        "plugin setting 'volume' value \"500\" out of range (min=Some(\"0\"), max=Some(\"100\"))"
    );
}

#[test]
fn coerce_and_validate_i32_in_range() {
    let s = SettingDef {
        min: Some(integer(-1)),
        max: Some(integer(4)),
        ..test_setting(SettingType::I32, integer(2), false)
    };
    assert_eq!(check("resolution", "-1", &s).unwrap(), "-1");
    assert_eq!(check("resolution", "4", &s).unwrap(), "4");
    assert!(matches!(check("resolution", "-2", &s), Err(ValidationError::OutOfRange { .. })));
}

#[test]
fn coerce_and_validate_f32_bounds() {
    let s = SettingDef {
        min: Some(float(0.0)),
        max: Some(float(1.5)),
        ..test_setting(SettingType::F32, float(1.0), false)
    };
    assert!(check("ratio", "0.75", &s).is_ok());
    assert!(matches!(check("ratio", "2.0", &s), Err(ValidationError::OutOfRange { .. })));
    assert!(matches!(check("ratio", "-0.1", &s), Err(ValidationError::OutOfRange { .. })));
}

#[test]
fn coerce_and_validate_choices_hit_and_miss() {
    let s = SettingDef {
        choices: Some(vec!["auto".into(), "vaapi".into(), "nvdec".into()]),
        ..test_setting(SettingType::String, string("auto"), false)
    };
    assert_eq!(check("hwdec", "vaapi", &s).unwrap(), "vaapi");
    let err = check("hwdec", "ssh", &s).expect_err("must error");
    assert!(matches!(
        err,
        ValidationError::BadChoice { ref key, .. } if key == "hwdec"
    ));
    assert_eq!(
        err.message(),
        "plugin setting 'hwdec' value \"ssh\" not in allowed choices [\"auto\", \"vaapi\", \"nvdec\"]"
    );
}

#[test]
fn coerce_and_validate_bad_type_errors() {
    let s = test_setting(SettingType::U32, integer(0), false);
    let err = check("fps", "lots", &s).expect_err("must error");
    assert!(matches!(err, ValidationError::BadSettingType { .. }));
    assert_eq!(err.message(), "plugin setting 'fps' expected type U32, got \"lots\"");
}

#[test]
fn coerced_values_are_canonical_and_stay() {
    let s = test_setting(SettingType::U32, integer(0), false);
    let once = check("fps", "+007", &s).unwrap();
    assert_eq!(once, "7");
    assert_eq!(check("fps", &once, &s).unwrap(), once);
    let s = test_setting(SettingType::F32, float(0.0), false);
    assert_eq!(check("ratio", "1e1", &s).unwrap(), "10");
    let s = test_setting(SettingType::Bool, string("true"), false);
    assert_eq!(check("on", "true", &s).unwrap(), "true");
    assert!(check("on", "yes", &s).is_err());
}

#[test]
fn values_without_a_place_pass_every_bound() {
    let s = SettingDef {
        min: Some(float(0.0)),
        max: Some(float(1.0)),
        ..test_setting(SettingType::F32, float(0.0), false)
    };
    assert_eq!(check("ratio", "nan", &s).unwrap(), "NaN");
}

#[test]
fn messages_escape_what_they_quote() {
    let s = test_setting(SettingType::I32, integer(0), false);
    let err = check("n", "a\"b\n", &s).expect_err("must error");
    assert_eq!(err.message(), "plugin setting 'n' expected type I32, got \"a\\\"b\\n\"");
}

#[test]
fn defaults_take_their_canonical_form() {
    let value = |ty, default| setting_default_value(&test_setting(ty, default, true));
    assert_eq!(value(SettingType::U32, integer(5)), "5");
    assert_eq!(value(SettingType::U32, integer(-5)), "-5");
    assert_eq!(value(SettingType::F32, integer(2)), "2");
    assert_eq!(value(SettingType::F32, float(0.5)), "0.5");
    assert_eq!(value(SettingType::String, string("auto")), "auto");
    assert_eq!(value(SettingType::I32, float(1.0)), "1.0");
    let on = TomlValue { kind: TomlKind::Boolean(true), shown: "true".into(), single: None };
    assert_eq!(value(SettingType::Bool, on), "true");
}
