use driftlet::desktop::{in_place, insertion_point, Pinner};
use driftlet::elevation::{
    config_base_for_flag, early_language, persisted_allow_elevated, set_allow_elevated, should_warn,
};
use driftlet::json::{JsonNumber, JsonValue};
use driftlet::skin::config::{default_app_config, needs_v1_migration};

fn to_json(v: &serde_json::Value) -> JsonValue {
    match v {
        serde_json::Value::Null => JsonValue::Null,
        serde_json::Value::Bool(b) => JsonValue::Bool(*b),
        serde_json::Value::Number(n) => {
            if let Some(u) = n.as_u64() {
                JsonValue::Number(JsonNumber::PosInt(u))
            } else if let Some(i) = n.as_i64() {
                JsonValue::Number(JsonNumber::NegInt(i))
            } else {
                JsonValue::Number(JsonNumber::Float(n.to_string()))
            }
        }
        serde_json::Value::String(s) => JsonValue::Str(s.clone()),
        serde_json::Value::Array(a) => JsonValue::Array(a.iter().map(to_json).collect()),
        serde_json::Value::Object(o) => {
            JsonValue::Object(o.iter().map(|(k, v)| (k.clone(), to_json(v))).collect())
        }
    }
}

fn j(text: &str) -> JsonValue {
    to_json(&serde_json::from_str::<serde_json::Value>(text).unwrap())
}

fn member<'a>(v: &'a JsonValue, k: &str) -> Option<&'a JsonValue> {
    match v {
        JsonValue::Object(e) => e.iter().find(|(key, _)| key == k).map(|(_, v)| v),
        _ => None,
    }
}

fn default_config() -> JsonValue {
    default_app_config("zh-CN")
}

#[test]
fn config_base_is_always_full_shaped() {
    for (name, existing) in [
        ("missing", None),
        ("bare flag", Some(j(r#"{"allow_elevated": true}"#))),
        ("incomplete", Some(j(r#"{"version": 2}"#))),
        (
            "complete",
            Some(j(r#"{"version": 2, "loaded_skins": ["clock"], "skin_settings": {}, "theme": "dark"}"#)),
        ),
    ] {
        let base = config_base_for_flag(existing, default_config());
        for key in ["version", "loaded_skins", "skin_settings"] {
            assert!(member(&base, key).is_some(), "{name}: base lacks {key}");
        }
        if name == "complete" {
            assert!(matches!(member(&base, "theme"), Some(JsonValue::Str(s)) if s == "dark"));
        } else {
            assert!(matches!(member(&base, "theme"), Some(JsonValue::Str(s)) if s == "auto"));
        }
    }
}

#[test]
fn allow_elevated_flag_reads_back() {
    let base = config_base_for_flag(None, default_config());
    assert!(!persisted_allow_elevated(Some(&base)));
    let flagged = set_allow_elevated(base);
    assert!(persisted_allow_elevated(Some(&flagged)));
    let again = set_allow_elevated(j(r#"{"allow_elevated": false, "x": 1}"#));
    assert!(persisted_allow_elevated(Some(&again)));
    assert!(matches!(member(&again, "x"), Some(JsonValue::Number(JsonNumber::PosInt(1)))));
    assert!(persisted_allow_elevated(Some(&set_allow_elevated(JsonValue::Null))));
    assert!(!persisted_allow_elevated(None));
}

#[test]
fn elevation_warning_gates() {
    assert!(should_warn(false, false, false, false, true));
    assert!(!should_warn(true, false, false, false, true));
    assert!(!should_warn(false, true, false, false, true));
    assert!(!should_warn(false, false, true, false, true));
    assert!(should_warn(false, false, true, true, true));
    assert!(!should_warn(false, false, false, false, false));
}

#[test]
fn early_language_reads_config_or_falls_back() {
    assert_eq!(early_language(Some(&j(r#"{"language":"en"}"#)), "zh-CN".to_string()), "en");
    assert_eq!(early_language(Some(&j(r#"{"language":7}"#)), "zh-CN".to_string()), "zh-CN");
    assert_eq!(early_language(None, "en".to_string()), "en");
}

#[test]
fn pinning_keeps_one_pin_per_skin() {
    let mut p = Pinner::new();
    p.pin("clock", 10);
    p.pin("dock", 20);
    p.pin("clock", 11);
    assert_eq!(p.pinned(), vec![("dock".to_string(), 20), ("clock".to_string(), 11)]);
    p.unpin("dock", 20);
    assert_eq!(p.pinned(), vec![("clock".to_string(), 11)]);
    p.pin("dock", 21);
    // a dead window is reaped only when id and handle both match
    p.reap(&vec![("clock".to_string(), 10), ("dock".to_string(), 21)]);
    assert_eq!(p.pinned(), vec![("clock".to_string(), 11)]);
}

#[test]
fn glue_decisions() {
    let pinned = vec![("a".to_string(), 5), ("b".to_string(), 6)];
    assert!(in_place(100, 100, &pinned));
    assert!(in_place(6, 100, &pinned));
    assert!(!in_place(7, 100, &pinned));
    assert!(!in_place(0, 0, &pinned));
    assert_eq!(insertion_point(0, 5, 1), Some(1));
    assert_eq!(insertion_point(9, 5, 1), Some(9));
    assert_eq!(insertion_point(5, 5, 1), None);
}

#[test]
fn default_config_members() {
    let c = default_app_config("en");
    assert!(matches!(member(&c, "version"), Some(JsonValue::Number(JsonNumber::PosInt(2)))));
    assert!(matches!(member(&c, "language"), Some(JsonValue::Str(s)) if s == "en"));
    assert!(matches!(member(&c, "theme"), Some(JsonValue::Str(s)) if s == "auto"));
    assert!(matches!(member(&c, "hotkey_toggle_skins"), Some(JsonValue::Str(s)) if s == "Ctrl+Shift+Alt+D"));
    assert!(matches!(member(&c, "hot_reload"), Some(JsonValue::Bool(false))));
    assert!(matches!(member(&c, "update_check"), Some(JsonValue::Bool(true))));
    assert!(matches!(member(&c, "titlebar_warnings"), Some(JsonValue::Bool(true))));
    assert!(matches!(member(&c, "focus_mode_action"), Some(JsonValue::Str(s)) if s == "hide"));
    let focus = member(&c, "focus_mode").unwrap();
    assert!(matches!(member(focus, "action"), Some(JsonValue::Str(s)) if s.is_empty()));
    assert!(!needs_v1_migration(&c));
    assert!(!persisted_allow_elevated(Some(&c)));
    match &c {
        JsonValue::Object(e) => assert_eq!(e.len(), 19),
        _ => panic!("not an object"),
    }
}
