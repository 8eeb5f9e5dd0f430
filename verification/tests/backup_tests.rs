use driftlet::backup::{
    backup_app_version, backup_limits, backup_manifest, backup_refusal_message, backup_skin_info, check_export_destination,
    check_fallback_free, export_entry_name, import_old_sibling, loaded_selection, merge_backup_layouts,
    merge_loaded_skins, note_export_file, select_backup_skins, skipped_in_export, swap_target,
    validate_backup, ManifestRead,
};
use driftlet::json::{JsonNumber, JsonValue};
use driftlet::skin::package::{check_archive, ExtractRefusal};
use driftlet::skin::types::{LayoutPreset, SkinManifest, WindowDefaults};

fn to_json(v: &serde_json::Value) -> JsonValue {
    match v {
        serde_json::Value::Null => JsonValue::Null,
        serde_json::Value::Bool(b) => JsonValue::Bool(*b),
        serde_json::Value::Number(n) => {
            if let Some(u) = n.as_u64() {
                JsonValue::Number(JsonNumber::PosInt(u))
            } else if let Some(i) = n.as_i64() {
                JsonValue::Number(JsonNumber::NegInt(i))
            } else {
                JsonValue::Number(JsonNumber::Float(n.to_string()))
            }
        }
        serde_json::Value::String(s) => JsonValue::Str(s.clone()),
        serde_json::Value::Array(a) => JsonValue::Array(a.iter().map(to_json).collect()),
        serde_json::Value::Object(o) => {
            JsonValue::Object(o.iter().map(|(k, v)| (k.clone(), to_json(v))).collect())
        }
    }
}

fn j(text: &str) -> JsonValue {
    to_json(&serde_json::from_str::<serde_json::Value>(text).unwrap())
}

fn strings(v: &[&str]) -> Vec<String> {
    v.iter().map(|s| s.to_string()).collect()
}

fn preset(id: &str, name: &str) -> LayoutPreset {
    LayoutPreset { id: id.to_string(), name: name.to_string(), skins: vec![] }
}

#[test]
fn merge_backup_layouts_unions_by_id_and_backup_wins() {
    let mut layouts = vec![preset("l-1", "本地方案"), preset("l-2", "将被覆盖")];
    let backup = vec![preset("l-2", "备份版"), preset("l-3", "备份独有")];

    merge_backup_layouts(&mut layouts, backup);

    assert_eq!(layouts.len(), 3);
    let name = |id: &str| layouts.iter().find(|l| l.id == id).map(|l| l.name.as_str());
    assert_eq!(name("l-1"), Some("本地方案"));
    assert_eq!(name("l-2"), Some("备份版"));
    assert_eq!(name("l-3"), Some("备份独有"));
}

#[test]
fn merge_keeps_local_order_and_replaces_in_place() {
    let mut layouts = vec![preset("a", "A"), preset("b", "B")];
    merge_backup_layouts(&mut layouts, vec![preset("a", "A2"), preset("c", "C"), preset("c", "C2")]);
    let got: Vec<(&str, &str)> = layouts.iter().map(|l| (l.id.as_str(), l.name.as_str())).collect();
    assert_eq!(got, vec![("a", "A2"), ("b", "B"), ("c", "C2")]);
}

#[test]
fn rejects_missing_config_json() {
    assert!(validate_backup(false, &ManifestRead::Parsed(j(r#"{"format":1}"#)), "zh-CN").is_err());
}

#[test]
fn rejects_unsupported_format() {
    let e = validate_backup(true, &ManifestRead::Parsed(j(r#"{"format":99}"#)), "en").unwrap_err();
    assert!(e.contains("99"), "{}", e);
    assert!(validate_backup(true, &ManifestRead::Parsed(j(r#"{"format":1}"#)), "en").is_ok());
    assert!(validate_backup(true, &ManifestRead::Absent, "en").is_ok());
    assert!(validate_backup(true, &ManifestRead::NotJson, "en").is_err());
    assert!(validate_backup(true, &ManifestRead::Parsed(j(r#"{}"#)), "en").unwrap_err().contains('0'));
    assert!(validate_backup(true, &ManifestRead::Unreadable("denied".to_string()), "en")
        .unwrap_err()
        .contains("denied"));
}

#[test]
fn backup_app_version_is_read_back() {
    assert_eq!(backup_app_version(Some(&j(r#"{"app_version":"1.4.2"}"#))).as_deref(), Some("1.4.2"));
    assert_eq!(backup_app_version(Some(&j(r#"{"app_version":3}"#))), None);
    assert_eq!(backup_app_version(None), None);
}

fn manifest(id: Option<&str>) -> SkinManifest {
    SkinManifest {
        id: id.map(|s| s.to_string()),
        name_zh: Some("时钟".to_string()),
        name_en: Some("Clock".to_string()),
        author: None,
        version: Some("1.0".to_string()),
        min_host_version: None,
        description_zh: None,
        description_en: None,
        entry: "index.html".to_string(),
        window: WindowDefaults {
            width: 300,
            height: 200,
            transparent: true,
            always_on_top: false,
            on_desktop: true,
            resizable: true,
            refresh_seconds: None,
            edge_snap: true,
            snap_gap: 8,
        },
        permissions: vec!["network".to_string()],
        settings: vec![],
    }
}

#[test]
fn backup_skins_are_listed_with_permissions() {
    let info = backup_skin_info(manifest(None), "Clock Folder");
    assert_eq!(info.id, "clock-folder");
    assert_eq!(info.permissions, vec!["network".to_string()]);
    let info = backup_skin_info(manifest(Some("clock")), "whatever");
    assert_eq!(info.id, "clock");
    assert_eq!(info.name_en.as_deref(), Some("Clock"));
}

#[test]
fn selective_import_splits_found_and_missing() {
    let available = vec![
        ("clock".to_string(), "clock-pkg".to_string()),
        ("dock".to_string(), "dock".to_string()),
        ("clock".to_string(), "clock-2".to_string()),
    ];
    let (found, missing) =
        select_backup_skins(&strings(&["dock", "nope", "clock"]), &available, "en").unwrap();
    assert_eq!(
        found,
        vec![("dock".to_string(), "dock".to_string()), ("clock".to_string(), "clock-pkg".to_string())]
    );
    assert_eq!(missing, strings(&["nope"]));
    assert!(select_backup_skins(&strings(&["nope"]), &available, "en").is_err());
}

#[test]
fn loaded_skins_merge_once() {
    let mut loaded = strings(&["a"]);
    merge_loaded_skins(&mut loaded, &strings(&["b", "c"]), &strings(&["b", "d", "b"]));
    assert_eq!(loaded, strings(&["a", "b"]));
    merge_loaded_skins(&mut loaded, &strings(&["b", "c"]), &strings(&["b", "d", "b"]));
    assert_eq!(loaded, strings(&["a", "b"]));
    assert_eq!(loaded_selection(&strings(&["a", "b", "c"]), &strings(&["c", "a"])), strings(&["a", "c"]));
}

#[test]
fn swap_targets_keep_local_folder_names() {
    let local = vec![("clock".to_string(), r"C:\skins\clock-old".to_string())];
    assert_eq!(swap_target(&local, "clock", r"C:\skins\clock-pkg"), (r"C:\skins\clock-old".to_string(), true));
    assert_eq!(swap_target(&local, "dock", r"C:\skins\dock"), (r"C:\skins\dock".to_string(), false));
    assert!(check_fallback_free(false, true, "clock", "en").is_err());
    assert!(check_fallback_free(true, true, "clock", "en").is_ok());
    assert!(check_fallback_free(false, false, "clock", "en").is_ok());
}

#[test]
fn import_old_sibling_appends_suffix() {
    assert_eq!(import_old_sibling(r"C:\data\config"), r"C:\data\config.import-old");
    assert_eq!(import_old_sibling("/data/skins/"), "/data/skins.import-old");
}

#[test]
fn export_skips_staging_leftovers_and_counts() {
    assert!(skipped_in_export(".staging-junk"));
    assert!(skipped_in_export(".clock.old"));
    assert!(skipped_in_export("skins.import-old"));
    assert!(!skipped_in_export("clock"));
    assert_eq!(note_export_file(0, 0, 10, "en"), Ok((1, 10)));
    assert!(note_export_file(5000, 0, 10, "en").unwrap_err().contains("too many files (> 5000)"));
    assert!(note_export_file(1, u64::MAX, 10, "en").unwrap_err().contains("backup too large"));
    assert_eq!(export_entry_name("skins", &strings(&["clock", "settings.json"])), "skins/clock/settings.json");
}

#[test]
fn export_destination_must_be_outside_the_data_dirs() {
    assert!(check_export_destination(r"C:\data\skins\clock", r"C:\data\config", r"C:\data\skins", "en").is_err());
    assert!(check_export_destination(r"C:\data\config", r"C:\data\config", r"C:\data\skins", "en").is_err());
    assert!(check_export_destination(r"C:\data\skins2", r"C:\data\config", r"C:\data\skins", "en").is_ok());
    assert!(check_export_destination(r"D:\backups", r"C:\data\config", r"C:\data\skins", "en").is_ok());
}

#[test]
fn backup_archive_limits() {
    let l = backup_limits();
    assert_eq!(check_archive(l, 67108865, 1), Err(ExtractRefusal::ArchiveTooLarge));
    assert_eq!(check_archive(l, 1, 5001), Err(ExtractRefusal::TooManyFiles));
    assert_eq!(backup_refusal_message(ExtractRefusal::TooManyFiles, "zh-CN"), "备份文件条目过多");
}

#[test]
fn exported_manifest_passes_the_import_check() {
    let m = backup_manifest("1.4.2", 1_700_000_000);
    assert!(validate_backup(true, &ManifestRead::Parsed(backup_manifest("1.4.2", 5)), "en").is_ok());
    assert_eq!(backup_app_version(Some(&m)), Some("1.4.2".to_string()));
    assert!(validate_backup(false, &ManifestRead::Parsed(m), "en").is_err());
}
