use driftlet::backup::partial_unload_error;
use driftlet::focus::{
    begin_enter, begin_exit, current_action, finish_enter, finish_exit, focus_snapshot, is_shell_process,
    record_trigger, window_covers_monitor, Runtime, Trigger,
};
use driftlet::json::JsonValue;
use driftlet::json::JsonNumber;
use driftlet::skin::config::{apply_v1_migration, needs_v1_migration, normalize_config_placements};
use driftlet::skin::loader::{display_order, first_of_each_id, is_skin_folder_name, skin_info};
use driftlet::skin::protocol::{
    decode_uri_path, fs_query_candidates, parse_locked, parse_query_flag, parse_resizable,
    strip_password_values,
};
use driftlet::skin::types::{
    default_hot_reload, default_hotkey_toggle_skins, default_layout_visible, default_theme,
    default_titlebar_warnings, default_update_check, SkinManifest, SkinSettingDef, SkinSettingKind,
    WindowDefaults,
};

fn strings(v: &[&str]) -> Vec<String> {
    v.iter().map(|s| s.to_string()).collect()
}

fn manifest(settings: Vec<SkinSettingDef>) -> SkinManifest {
    SkinManifest {
        id: Some("clock".to_string()),
        name_zh: None,
        name_en: Some("Clock".to_string()),
        author: Some("me".to_string()),
        version: Some("2.1".to_string()),
        min_host_version: None,
        description_zh: None,
        description_en: None,
        entry: "index.html".to_string(),
        window: WindowDefaults {
            width: 300,
            height: 200,
            transparent: true,
            always_on_top: false,
            on_desktop: true,
            resizable: true,
            refresh_seconds: None,
            edge_snap: false,
            snap_gap: 0,
        },
        permissions: vec![],
        settings,
    }
}

fn def(key: &str, kind: SkinSettingKind) -> SkinSettingDef {
    SkinSettingDef {
        key: key.to_string(),
        kind,
        label_zh: None,
        label_en: None,
        description_zh: None,
        description_en: None,
        group_zh: None,
        group_en: None,
        default: None,
        options: vec![],
        filters: vec![],
    }
}

#[test]
fn focus_enter_and_exit_bookkeeping() {
    let mut rt = Runtime::new();
    assert!(begin_enter(&mut rt, false));
    assert!(!begin_enter(&mut rt, false), "busy blocks a second enter");
    record_trigger(&mut rt, Trigger::Manual);
    finish_enter(&mut rt);
    assert_eq!(rt.trigger, Some(Trigger::Manual));
    assert!(!rt.busy);
    assert!(!begin_exit(&mut rt, false, true), "nothing to exit when inactive");
    rt.fs_since = Some(10);
    assert!(begin_exit(&mut rt, true, true));
    assert!(rt.suppressed, "a manual exit in a fullscreen period suppresses re-entry");
    finish_exit(&mut rt);
    assert_eq!(rt.trigger, None);
    assert!(!rt.busy);
}

#[test]
fn focus_action_and_snapshot() {
    assert_eq!(current_action("unload"), "unload");
    assert_eq!(current_action("hide"), "hide");
    assert_eq!(current_action("anything"), "hide");
    let loaded = strings(&["a", "b", "c"]);
    let exempt = strings(&["b"]);
    assert_eq!(focus_snapshot(&loaded, &exempt, &vec![true, true, false], false), strings(&["a"]));
    assert_eq!(focus_snapshot(&loaded, &exempt, &vec![true, true, false], true), strings(&["a", "c"]));
}

#[test]
fn fullscreen_detection_parts() {
    assert!(window_covers_monitor((0, 0, 1920, 1080), (0, 0, 1920, 1080)));
    assert!(window_covers_monitor((-4, -4, 1924, 1084), (0, 0, 1920, 1080)));
    assert!(!window_covers_monitor((-5, 0, 1920, 1080), (0, 0, 1920, 1080)));
    assert!(!window_covers_monitor((i32::MIN, 0, 1920, 1080), (i32::MAX, 0, 1920, 1080)));
    assert!(is_shell_process(r"C:\Windows\Explorer.EXE"));
    assert!(is_shell_process("sihost.exe"));
    assert!(!is_shell_process(r"C:\Games\game.exe"));
    assert!(!is_shell_process(r"C:\Windows\explorer.exe\"));
}

#[test]
fn protocol_query_and_path_helpers() {
    assert_eq!(decode_uri_path("/clock/%E6%97%B6%E9%92%9F.png"), "clock/时钟.png");
    assert_eq!(decode_uri_path("clock/a%20b.css"), "clock/a b.css");
    assert!(parse_locked(Some("opacity=0.5&locked=1")));
    assert!(parse_locked(Some("locked=true")));
    assert!(!parse_locked(Some("locked=yes")));
    assert!(!parse_locked(None));
    assert!(parse_resizable(Some("resizable=1")));
    assert!(!parse_query_flag(Some("resizable=1"), "locked"));
    assert_eq!(fs_query_candidates(Some("x=1&path=C%3A%5Ca.png&path=b")), strings(&[r"C:\a.png", "b"]));
    assert!(fs_query_candidates(None).is_empty());
}

#[test]
fn password_values_are_blanked() {
    let m = manifest(vec![def("token", SkinSettingKind::Password), def("city", SkinSettingKind::Text)]);
    let mut values = vec![
        ("token".to_string(), JsonValue::Str("s3cret".to_string())),
        ("city".to_string(), JsonValue::Str("sh".to_string())),
    ];
    strip_password_values(&m, &mut values);
    assert!(values.iter().any(|(k, v)| k == "token" && matches!(v, JsonValue::Str(s) if s.is_empty())));
    assert!(values.iter().any(|(k, v)| k == "city" && matches!(v, JsonValue::Str(s) if s == "sh")));
}

#[test]
fn config_defaults() {
    assert!(!default_hot_reload());
    assert!(default_update_check());
    assert!(default_titlebar_warnings());
    assert!(default_layout_visible());
    assert_eq!(default_theme(), "auto");
    assert_eq!(default_hotkey_toggle_skins(), "Ctrl+Shift+Alt+D");
}

#[test]
fn skin_list_entries() {
    let m = manifest(vec![]);
    let info = skin_info("clock", &m, &strings(&["clock"]), &strings(&[]), None);
    assert_eq!(info.id, "clock");
    assert_eq!(info.name_zh, "");
    assert_eq!(info.name_en.as_deref(), Some("Clock"));
    assert!(info.loaded);
    assert!(!info.hidden);
    assert!(is_skin_folder_name("clock"));
    assert!(!is_skin_folder_name(".staging-clock"));
    assert_eq!(first_of_each_id(&strings(&["a", "b", "a", "c", "b"])), vec![true, true, false, true, false]);
}

#[test]
fn partial_unload_messages_list_the_skins() {
    let e = partial_unload_error("boom", &strings(&["a", "b"]), "zh-CN");
    assert_eq!(e, "boom 导入已中止；以下皮肤已被卸载，重新加载即可恢复：a, b");
    let e = partial_unload_error("boom", &strings(&["a"]), "zh-CN");
    assert!(e.ends_with("：a"));
}

#[test]
fn os_version_check_answers() {
    let _ = driftlet::commands::is_windows_11_or_newer();
}

#[test]
fn manifest_display_texts_fall_back_between_languages() {
    let mut m = manifest(vec![]);
    assert_eq!(m.display_name("en"), "Clock");
    assert_eq!(m.display_name("zh-CN"), "Clock");
    m.name_zh = Some("时钟".to_string());
    assert_eq!(m.display_name("zh-CN"), "时钟");
    assert_eq!(m.display_name("en"), "Clock");
    m.name_en = Some(String::new());
    assert_eq!(m.display_name("en"), "时钟");
    assert_eq!(m.display_description("en"), None);
    m.description_zh = Some("".to_string());
    assert_eq!(m.display_description("zh-CN"), None);
    m.description_en = Some("Shows the time".to_string());
    assert_eq!(m.display_description("zh-CN"), Some("Shows the time".to_string()));
    m.description_zh = Some("显示时间".to_string());
    assert_eq!(m.display_description("zh-CN"), Some("显示时间".to_string()));
    assert_eq!(m.display_description("en"), Some("Shows the time".to_string()));
}

#[test]
fn skins_are_listed_by_display_name_stably() {
    assert_eq!(display_order(&strings(&["b", "a", "b", "c"])), vec![1, 0, 2, 3]);
    assert_eq!(display_order(&strings(&["时钟", "Clock", "天气", "Clock"])), vec![1, 3, 2, 0]);
    assert_eq!(display_order(&strings(&[])), Vec::<usize>::new());
    assert_eq!(display_order(&strings(&["z", "Z", "a"])), vec![1, 2, 0]);
}

fn placement_of(config: &JsonValue, id: &str) -> (Option<bool>, Option<bool>) {
    let JsonValue::Object(top) = config else { panic!("not an object") };
    let ss = top.iter().find(|(k, _)| k == "skin_settings").map(|(_, v)| v).unwrap();
    let JsonValue::Object(ss) = ss else { panic!("skin_settings not an object") };
    let cfg = ss.iter().find(|(k, _)| k == id).map(|(_, v)| v).unwrap();
    let JsonValue::Object(cfg) = cfg else { return (None, None) };
    let get = |name: &str| {
        cfg.iter().find(|(k, _)| k == name).and_then(|(_, v)| match v {
            JsonValue::Bool(b) => Some(*b),
            _ => None,
        })
    };
    (get("always_on_top"), get("on_desktop"))
}

#[test]
fn loaded_config_gives_every_skin_one_placement() {
    let entry = |top: Option<bool>, desk: Option<bool>| {
        let mut v = vec![("opacity".to_string(), JsonValue::Null)];
        if let Some(b) = top {
            v.push(("always_on_top".to_string(), JsonValue::Bool(b)));
        }
        if let Some(b) = desk {
            v.push(("on_desktop".to_string(), JsonValue::Bool(b)));
        }
        JsonValue::Object(v)
    };
    let config = JsonValue::Object(vec![
        ("theme".to_string(), JsonValue::Str("dark".to_string())),
        (
            "skin_settings".to_string(),
            JsonValue::Object(vec![
                ("both".to_string(), entry(Some(true), Some(true))),
                ("neither".to_string(), entry(Some(false), Some(false))),
                ("top".to_string(), entry(Some(true), Some(false))),
                ("desk".to_string(), entry(Some(false), Some(true))),
                ("only_top".to_string(), entry(Some(true), None)),
                ("missing".to_string(), entry(None, None)),
                ("odd".to_string(), JsonValue::Null),
            ]),
        ),
    ]);
    let out = normalize_config_placements(config);
    assert_eq!(placement_of(&out, "both"), (Some(false), Some(true)));
    assert_eq!(placement_of(&out, "neither"), (Some(false), Some(true)));
    assert_eq!(placement_of(&out, "top"), (Some(true), Some(false)));
    assert_eq!(placement_of(&out, "desk"), (Some(false), Some(true)));
    assert_eq!(placement_of(&out, "only_top"), (Some(false), Some(true)));
    assert_eq!(placement_of(&out, "missing"), (Some(false), Some(true)));
    assert_eq!(placement_of(&out, "odd"), (None, None));
    let JsonValue::Object(top) = &out else { panic!() };
    assert!(matches!(&top[0], (k, JsonValue::Str(t)) if k == "theme" && t == "dark"));
    // A config without skin settings is left as it is.
    let plain = normalize_config_placements(JsonValue::Object(vec![("theme".to_string(), JsonValue::Null)]));
    let JsonValue::Object(p) = plain else { panic!() };
    assert_eq!(p.len(), 1);
}

#[test]
fn v1_migration_raises_the_version_only_when_every_move_succeeded() {
    let custom = JsonValue::Object(vec![("color".to_string(), JsonValue::Str("red".to_string()))]);
    let entry = |c: JsonValue| {
        JsonValue::Object(vec![("opacity".to_string(), JsonValue::Null), ("custom".to_string(), c)])
    };
    let config = || {
        JsonValue::Object(vec![
            ("version".to_string(), JsonValue::Number(JsonNumber::PosInt(1))),
            (
                "skin_settings".to_string(),
                JsonValue::Object(vec![
                    ("moved".to_string(), entry(custom.copy())),
                    ("failed".to_string(), entry(custom.copy())),
                ]),
            ),
        ])
    };
    let has_custom = |v: &JsonValue, id: &str| {
        let JsonValue::Object(top) = v else { panic!() };
        let JsonValue::Object(ss) = &top[1].1 else { panic!() };
        let JsonValue::Object(e) = &ss.iter().find(|(k, _)| k == id).unwrap().1 else { panic!() };
        e.iter().any(|(k, _)| k == "custom")
    };
    let version = |v: &JsonValue| {
        let JsonValue::Object(top) = v else { panic!() };
        match &top[0].1 {
            JsonValue::Number(JsonNumber::PosInt(n)) => *n,
            _ => 0,
        }
    };
    let partial = apply_v1_migration(config(), &strings(&["moved"]), false);
    assert!(!has_custom(&partial, "moved"));
    assert!(has_custom(&partial, "failed"));
    assert_eq!(version(&partial), 1);
    assert!(needs_v1_migration(&partial));
    let done = apply_v1_migration(config(), &strings(&["moved", "failed"]), true);
    assert!(!has_custom(&done, "moved") && !has_custom(&done, "failed"));
    assert_eq!(version(&done), 2);
    assert!(!needs_v1_migration(&done));
}
