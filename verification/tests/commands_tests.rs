use driftlet::commands::{
    clamp_coord, clamp_dimension, is_fixed_uint, is_valid_time, is_valid_ymd, normalize_datetime,
    require_manager, resize_edge, validate_custom_setting, windows_11_from_version, ResizeEdge,
};
use driftlet::json::{JsonNumber, JsonValue};
use driftlet::skin::types::{SkinSettingDef, SkinSettingKind, SkinSettingOption};

fn to_json(v: &serde_json::Value) -> JsonValue {
    match v {
        serde_json::Value::Null => JsonValue::Null,
        serde_json::Value::Bool(b) => JsonValue::Bool(*b),
        serde_json::Value::Number(n) => {
            if let Some(u) = n.as_u64() {
                JsonValue::Number(JsonNumber::PosInt(u))
            } else if let Some(i) = n.as_i64() {
                JsonValue::Number(JsonNumber::NegInt(i))
            } else {
                JsonValue::Number(JsonNumber::Float(n.to_string()))
            }
        }
        serde_json::Value::String(s) => JsonValue::Str(s.clone()),
        serde_json::Value::Array(a) => JsonValue::Array(a.iter().map(to_json).collect()),
        serde_json::Value::Object(o) => {
            JsonValue::Object(o.iter().map(|(k, v)| (k.clone(), to_json(v))).collect())
        }
    }
}

fn from_json(v: &JsonValue) -> serde_json::Value {
    match v {
        JsonValue::Null => serde_json::Value::Null,
        JsonValue::Bool(b) => serde_json::Value::Bool(*b),
        JsonValue::Number(JsonNumber::PosInt(n)) => serde_json::Value::from(*n),
        JsonValue::Number(JsonNumber::NegInt(n)) => serde_json::Value::from(*n),
        JsonValue::Number(JsonNumber::Float(s)) => serde_json::from_str(s).unwrap(),
        JsonValue::Str(s) => serde_json::Value::String(s.clone()),
        JsonValue::Array(a) => serde_json::Value::Array(a.iter().map(from_json).collect()),
        JsonValue::Object(o) => {
            let mut m = serde_json::Map::new();
            for (k, v) in o {
                m.insert(k.clone(), from_json(v));
            }
            serde_json::Value::Object(m)
        }
    }
}

fn j(text: &str) -> serde_json::Value {
    serde_json::from_str(text).unwrap()
}

fn def(kind: SkinSettingKind) -> SkinSettingDef {
    SkinSettingDef {
        key: "k".to_string(),
        kind,
        label_zh: None,
        label_en: None,
        description_zh: None,
        description_en: None,
        group_zh: None,
        group_en: None,
        default: None,
        options: vec![],
        filters: vec![],
    }
}

fn with_options(kind: SkinSettingKind, values: &[&str]) -> SkinSettingDef {
    SkinSettingDef {
        options: values
            .iter()
            .map(|v| SkinSettingOption { value: v.to_string(), label_zh: None, label_en: None })
            .collect(),
        ..def(kind)
    }
}

fn validate_custom_setting_zh(d: &SkinSettingDef, v: &serde_json::Value) -> Result<serde_json::Value, String> {
    validate_custom_setting(d, &to_json(v), "zh-CN").map(|r| from_json(&r))
}

#[test]
fn validates_time() {
    let d = def(SkinSettingKind::Time);
    assert!(validate_custom_setting_zh(&d, &j(r#""07:30""#)).is_ok());
    assert!(validate_custom_setting_zh(&d, &j(r#""23:59""#)).is_ok());
    assert!(validate_custom_setting_zh(&d, &j(r#""07:30:05""#)).is_ok());
    assert!(validate_custom_setting_zh(&d, &j(r#""23:59:59""#)).is_ok());
    assert!(validate_custom_setting_zh(&d, &j(r#""25:00""#)).is_err());
    assert!(validate_custom_setting_zh(&d, &j(r#""7:30""#)).is_err());
    assert!(validate_custom_setting_zh(&d, &j(r#""12:60""#)).is_err());
    assert!(validate_custom_setting_zh(&d, &j(r#""12:00:60""#)).is_err());
}

#[test]
fn validates_weekdays() {
    let d = def(SkinSettingKind::Weekdays);
    let v = validate_custom_setting_zh(&d, &j(r#"["sun", "mon", "sun"]"#)).unwrap();
    assert_eq!(v, j(r#"["mon", "sun"]"#));
    assert!(validate_custom_setting_zh(&d, &j("[]")).is_ok());
    assert!(validate_custom_setting_zh(&d, &j(r#"["funday"]"#)).is_err());
    assert!(validate_custom_setting_zh(&d, &j(r#""mon""#)).is_err());
}

#[test]
fn validates_datetasklist() {
    let d = def(SkinSettingKind::DateTaskList);
    let ok = j(r#"[
        {"time": "2026-07-20 12:00:01", "text": "写周报"},
        {"time": "", "text": "未定时任务"}
    ]"#);
    assert!(validate_custom_setting_zh(&d, &ok).is_ok());
    let short = j(r#"[{"time": "2026-07-22 09:00", "text": "晨会"}]"#);
    let v = validate_custom_setting_zh(&d, &short).unwrap();
    assert_eq!(v[0]["time"], "2026-07-22 09:00:00");
    let bad_time = j(r#"[{"time": "2026-07-20", "text": "x"}]"#);
    assert!(validate_custom_setting_zh(&d, &bad_time).is_err());
    let missing_text = j(r#"[{"time": "2026-07-20 12:00:01"}]"#);
    assert!(validate_custom_setting_zh(&d, &missing_text).is_err());
    let not_obj = j(r#"["x"]"#);
    assert!(validate_custom_setting_zh(&d, &not_obj).is_err());
    let long = "x".repeat(300);
    let v = validate_custom_setting_zh(&d, &j(&format!(r#"[{{"time": "", "text": "{}"}}]"#, long))).unwrap();
    assert_eq!(v[0]["text"].as_str().unwrap().chars().count(), 200);
}

#[test]
fn validates_todolist() {
    let d = def(SkinSettingKind::TodoList);
    let ok = j(r#"[
        {"text": "写周报", "done": true},
        {"text": "给绿植浇水", "done": false}
    ]"#);
    assert_eq!(validate_custom_setting_zh(&d, &ok).unwrap(), ok);
    let v = validate_custom_setting_zh(&d, &j(r#"[{"text": "x"}]"#)).unwrap();
    assert_eq!(v, j(r#"[{"text": "x", "done": false}]"#));
    assert!(validate_custom_setting_zh(&d, &j(r#""x""#)).is_err());
    assert!(validate_custom_setting_zh(&d, &j(r#"["x"]"#)).is_err());
    assert!(validate_custom_setting_zh(&d, &j(r#"[{"done": true}]"#)).is_err());
    let long = "x".repeat(300);
    let v = validate_custom_setting_zh(&d, &j(&format!(r#"[{{"text": "{}", "done": false}}]"#, long))).unwrap();
    assert_eq!(v[0]["text"].as_str().unwrap().chars().count(), 200);
}

#[test]
fn validates_datetime() {
    let d = def(SkinSettingKind::DateTime);
    assert_eq!(
        validate_custom_setting_zh(&d, &j(r#""2026-07-20 12:00""#)).unwrap(),
        j(r#""2026-07-20 12:00:00""#)
    );
    assert_eq!(validate_custom_setting_zh(&d, &j(r#""""#)).unwrap(), j(r#""""#));
    assert!(validate_custom_setting_zh(&d, &j(r#""2026-07-20""#)).is_err());
    assert!(validate_custom_setting_zh(&d, &j(r#""2026-13-01 00:00""#)).is_err());
    assert!(validate_custom_setting_zh(&d, &j("42")).is_err());
}

#[test]
fn validates_password() {
    let d = def(SkinSettingKind::Password);
    assert_eq!(validate_custom_setting_zh(&d, &j(r#""s3cret""#)).unwrap(), j(r#""s3cret""#));
    assert!(validate_custom_setting_zh(&d, &j("42")).is_err());
    let long = "x".repeat(300);
    let v = validate_custom_setting_zh(&d, &serde_json::Value::String(long)).unwrap();
    assert_eq!(v.as_str().unwrap().chars().count(), 256);
}

#[test]
fn validates_font() {
    let d = def(SkinSettingKind::Font);
    assert!(validate_custom_setting_zh(&d, &j(r#""Microsoft YaHei UI""#)).is_ok());
    assert!(validate_custom_setting_zh(&d, &j("42")).is_err());
}

#[test]
fn validates_date() {
    let d = def(SkinSettingKind::Date);
    assert!(validate_custom_setting_zh(&d, &j(r#""2026-02-29""#)).is_ok());
    assert!(validate_custom_setting_zh(&d, &j(r#""2026-13-01""#)).is_err());
    assert!(validate_custom_setting_zh(&d, &j(r#""2026-01-32""#)).is_err());
    assert!(validate_custom_setting_zh(&d, &j(r#""2026-1-01""#)).is_err());
}

#[test]
fn validates_timerange() {
    let d = def(SkinSettingKind::TimeRange);
    let ok = j(r#"{"start": "2026-07-20 12:00:01", "end": "2026-08-20 00:00:01"}"#);
    assert!(validate_custom_setting_zh(&d, &ok).is_ok());
    let short = j(r#"{"start": "2026-07-20 12:00", "end": "2026-08-20 00:00"}"#);
    let v = validate_custom_setting_zh(&d, &short).unwrap();
    assert_eq!(v["start"], "2026-07-20 12:00:00");
    assert_eq!(v["end"], "2026-08-20 00:00:00");
    let unset = j(r#"{"start": "", "end": ""}"#);
    assert!(validate_custom_setting_zh(&d, &unset).is_ok());
    let bad = j(r#"{"start": "2026-07-20", "end": "2026-08-20 00:00:01"}"#);
    assert!(validate_custom_setting_zh(&d, &bad).is_err());
    let bad_sec = j(r#"{"start": "2026-07-20 12:00:60", "end": ""}"#);
    assert!(validate_custom_setting_zh(&d, &bad_sec).is_err());
    let missing = j(r#"{"start": "2026-07-20 12:00:01"}"#);
    assert!(validate_custom_setting_zh(&d, &missing).is_err());
}

#[test]
fn validates_multiselect() {
    let d = with_options(SkinSettingKind::MultiSelect, &["a", "b"]);
    let v = validate_custom_setting_zh(&d, &j(r#"["a", "b", "a"]"#)).unwrap();
    assert_eq!(v, j(r#"["a", "b"]"#));
    assert!(validate_custom_setting_zh(&d, &j("[]")).is_ok());
    assert!(validate_custom_setting_zh(&d, &j(r#"["c"]"#)).is_err());
    assert!(validate_custom_setting_zh(&d, &j(r#""a""#)).is_err());
}

#[test]
fn validates_radio() {
    let d = with_options(SkinSettingKind::Radio, &["day", "night"]);
    assert!(validate_custom_setting_zh(&d, &j(r#""day""#)).is_ok());
    assert!(validate_custom_setting_zh(&d, &j(r#""dusk""#)).is_err());
}

#[test]
fn validates_palette_with_alpha() {
    let d = def(SkinSettingKind::Palette);
    assert!(validate_custom_setting_zh(&d, &j(r##""#ff3333""##)).is_ok());
    assert!(validate_custom_setting_zh(&d, &j(r##""#ff3333cc""##)).is_ok());
    assert!(validate_custom_setting_zh(&d, &j(r##""#FF3333FF""##)).is_ok());
    assert!(validate_custom_setting_zh(&d, &j(r##""#ff333""##)).is_err());
    assert!(validate_custom_setting_zh(&d, &j(r##""#ff3333c""##)).is_err());
    assert!(validate_custom_setting_zh(&d, &j(r##""#gg3333ff""##)).is_err());
}

#[test]
fn tasklist_truncates_silently() {
    let d = def(SkinSettingKind::TaskList);
    let many: Vec<serde_json::Value> =
        (0..501).map(|i| serde_json::Value::String(i.to_string())).collect();
    let v = validate_custom_setting_zh(&d, &serde_json::Value::Array(many)).unwrap();
    assert_eq!(v.as_array().unwrap().len(), 500);
    let long = "x".repeat(300);
    let v = validate_custom_setting_zh(&d, &serde_json::Value::Array(vec![serde_json::Value::String(long)]))
        .unwrap();
    assert_eq!(v[0].as_str().unwrap().chars().count(), 200);
    assert!(validate_custom_setting_zh(&d, &j("[1]")).is_err());
}

#[test]
fn number_settings_keep_the_number_and_reject_others() {
    let d = def(SkinSettingKind::Slider);
    assert_eq!(validate_custom_setting_zh(&d, &j("60")).unwrap(), j("60"));
    assert!(validate_custom_setting_zh(&d, &j(r#""60""#)).is_err());
    let b = def(SkinSettingKind::Boolean);
    assert_eq!(validate_custom_setting_zh(&b, &j("true")).unwrap(), j("true"));
    assert!(validate_custom_setting_zh(&b, &j("1")).is_err());
}

#[test]
fn validation_messages_name_the_setting() {
    let d = def(SkinSettingKind::Boolean);
    let e = validate_custom_setting(&d, &to_json(&j("1")), "en").unwrap_err();
    assert!(e.contains("'k'"), "{}", e);
}

#[test]
fn date_and_time_helpers() {
    assert!(is_valid_time("00:00"));
    assert!(!is_valid_time("24:00"));
    assert!(is_valid_ymd("2024-02-29"));
    assert!(is_fixed_uint("07", 2, 0, 23));
    assert!(!is_fixed_uint("7", 2, 0, 23));
    assert_eq!(normalize_datetime("2026-07-20 12:00").as_deref(), Some("2026-07-20 12:00:00"));
    assert_eq!(normalize_datetime("2026-07-20 12:00:01").as_deref(), Some("2026-07-20 12:00:01"));
    assert_eq!(normalize_datetime("2026-07-20"), None);
}

#[test]
fn manager_only_and_resize_edges() {
    assert!(require_manager("main", "en").is_ok());
    assert!(require_manager("skin-clock", "en").is_err());
    assert!(matches!(resize_edge("n", "en"), Ok(ResizeEdge::Top)));
    assert!(matches!(resize_edge("se", "en"), Ok(ResizeEdge::BottomRight)));
    assert!(resize_edge("up", "en").is_err());
}

#[test]
fn coordinates_and_sizes_are_clamped() {
    assert_eq!(clamp_coord(40000), 32767);
    assert_eq!(clamp_coord(-40000), -32767);
    assert_eq!(clamp_coord(12), 12);
    assert_eq!(clamp_dimension(0), 1);
    assert_eq!(clamp_dimension(20000), 10000);
}

#[test]
fn windows_11_detection_from_build() {
    assert!(windows_11_from_version(Some("10.0.22631")));
    assert!(!windows_11_from_version(Some("10.0.19045")));
    assert!(windows_11_from_version(Some("garbage")));
    assert!(windows_11_from_version(None));
}

#[test]
fn validated_values_validate_to_themselves() {
    let cases: Vec<(SkinSettingDef, &str)> = vec![
        (def(SkinSettingKind::DateTime), r#""2024-03-05 07:08""#),
        (def(SkinSettingKind::Text), "\"abcdefghij\""),
        (with_options(SkinSettingKind::MultiSelect, &["a", "b", "c"]), r#"["b", "a", "b", "c", "a"]"#),
        (def(SkinSettingKind::Weekdays), r#"["sun", "mon", "sun", "wed"]"#),
        (def(SkinSettingKind::TodoList), r#"[{"text": "x", "done": true, "extra": 1}, {"text": "y"}]"#),
        (def(SkinSettingKind::DateTaskList), r#"[{"text": "t", "time": "2024-01-02 03:04"}]"#),
        (def(SkinSettingKind::TimeRange), r#"{"end": "2024-01-02 05:06:07", "start": "2024-01-02 03:04"}"#),
    ];
    for (d, text) in cases {
        let first = validate_custom_setting_zh(&d, &j(text)).unwrap();
        let second = validate_custom_setting_zh(&d, &first).unwrap();
        assert_eq!(first, second, "{}", text);
    }
    let long = format!("\"{}\"", "x".repeat(300));
    let d = def(SkinSettingKind::Text);
    let first = validate_custom_setting_zh(&d, &j(&long)).unwrap();
    assert_eq!(first.as_str().unwrap().chars().count(), 256);
    assert_eq!(validate_custom_setting_zh(&d, &first).unwrap(), first);
    let dt = validate_custom_setting_zh(&def(SkinSettingKind::DateTime), &j(r#""2024-03-05 07:08""#)).unwrap();
    assert_eq!(dt, j(r#""2024-03-05 07:08:00""#));
}
