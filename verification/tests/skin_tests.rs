use driftlet::json::{JsonNumber, JsonValue};
use driftlet::skin::config::{
    custom_action, needs_v1_migration, normalize_mode_flags, strip_bom, CustomAction,
};
use driftlet::skin::loader::{
    effective_settings, find_preview_image, is_reserved_device_name, resolve_skin_id, slugify_skin_id,
    validate_skin_id,
};
use driftlet::skin::package::{
    add_extracted, aside_folder_name, check_archive, check_install_folder, classify_leftover,
    compare_versions, entry_read_cap, image_dimensions, jpeg_dimensions, package_limits, png_dimensions,
    skip_dir_in_package, skip_file_in_package, staging_folder_name, ExtractRefusal, FolderLeftover,
    VersionRelation,
};
use driftlet::skin::protocol::{
    escape_script_close, guess_mime, is_html_entry, is_settings_file_name, relative_path_allowed,
    splice_bridge,
};
use driftlet::skin::types::{SkinManifest, SkinSettingDef, SkinSettingKind, WindowDefaults};

fn to_json(v: &serde_json::Value) -> JsonValue {
    match v {
        serde_json::Value::Null => JsonValue::Null,
        serde_json::Value::Bool(b) => JsonValue::Bool(*b),
        serde_json::Value::Number(n) => {
            if let Some(u) = n.as_u64() {
                JsonValue::Number(JsonNumber::PosInt(u))
            } else if let Some(i) = n.as_i64() {
                JsonValue::Number(JsonNumber::NegInt(i))
            } else {
                JsonValue::Number(JsonNumber::Float(n.to_string()))
            }
        }
        serde_json::Value::String(s) => JsonValue::Str(s.clone()),
        serde_json::Value::Array(a) => JsonValue::Array(a.iter().map(to_json).collect()),
        serde_json::Value::Object(o) => {
            JsonValue::Object(o.iter().map(|(k, v)| (k.clone(), to_json(v))).collect())
        }
    }
}

fn j(text: &str) -> JsonValue {
    to_json(&serde_json::from_str::<serde_json::Value>(text).unwrap())
}

fn def(key: &str, kind: SkinSettingKind, default: Option<JsonValue>) -> SkinSettingDef {
    SkinSettingDef {
        key: key.to_string(),
        kind,
        label_zh: None,
        label_en: None,
        description_zh: None,
        description_en: None,
        group_zh: None,
        group_en: None,
        default,
        options: vec![],
        filters: vec![],
    }
}

fn manifest(settings: Vec<SkinSettingDef>) -> SkinManifest {
    SkinManifest {
        id: None,
        name_zh: Some("T".to_string()),
        name_en: None,
        author: None,
        version: None,
        min_host_version: None,
        description_zh: None,
        description_en: None,
        entry: "index.html".to_string(),
        window: WindowDefaults {
            width: 300,
            height: 200,
            transparent: true,
            always_on_top: false,
            on_desktop: true,
            resizable: true,
            refresh_seconds: None,
            edge_snap: true,
            snap_gap: 8,
        },
        permissions: vec![],
        settings,
    }
}

fn lookup<'a>(v: &'a [(String, JsonValue)], k: &str) -> &'a JsonValue {
    &v.iter().find(|(key, _)| key == k).unwrap().1
}

#[test]
fn slugify_avoids_reserved_device_names() {
    for name in ["con", "CON", "nul", "com1", "LPT9"] {
        let id = slugify_skin_id(name);
        assert!(!is_reserved_device_name(&id), "{name} slugged to reserved {id}");
        assert!(validate_skin_id(&id, "zh-CN").is_ok(), "{id} must be a valid id");
    }
    assert_eq!(slugify_skin_id("My Clock"), "my-clock");
}

#[test]
fn skin_id_rejects_reserved_device_names() {
    for id in ["con", "prn", "aux", "nul", "com1", "com9", "lpt1", "lpt9", "con.txt", "CON"] {
        assert!(validate_skin_id(id, "zh-CN").is_err(), "reserved id {:?} must be rejected", id);
    }
    for id in ["console", "com10", "con-host", "my-skin"] {
        assert!(validate_skin_id(id, "zh-CN").is_ok(), "id {:?} must be accepted", id);
    }
}

#[test]
fn slugify_hashes_names_without_ascii() {
    let id = slugify_skin_id("时钟");
    assert!(id.starts_with("skin-"));
    assert_eq!(id.len(), 13);
    assert_eq!(slugify_skin_id("时钟"), id, "the hash is stable");
    assert_eq!(slugify_skin_id("--Hello  World!!--"), "hello-world");
    assert_eq!(resolve_skin_id(Some("my-skin"), "Folder"), "my-skin");
    assert_eq!(resolve_skin_id(Some("Bad Id"), "My Folder"), "my-folder");
    assert_eq!(resolve_skin_id(None, "clock"), "clock");
}

#[test]
fn effective_settings_merges_defaults_and_overrides() {
    let m = manifest(vec![
        def("accent", SkinSettingKind::Palette, Some(j("\"#ff3333\""))),
        def("count", SkinSettingKind::Number, Some(j("3"))),
        def("flag", SkinSettingKind::Boolean, None),
    ]);
    let values = effective_settings(&m, None);
    assert!(matches!(lookup(&values, "accent"), JsonValue::Str(s) if s == "#ff3333"));
    assert!(matches!(lookup(&values, "count"), JsonValue::Number(JsonNumber::PosInt(3))));
    assert!(matches!(lookup(&values, "flag"), JsonValue::Bool(false)));

    let overrides = vec![
        ("accent".to_string(), j("\"#00ff00\"")),
        ("count".to_string(), j("\"not a number\"")),
    ];
    let values = effective_settings(&m, Some(&overrides));
    assert!(matches!(lookup(&values, "accent"), JsonValue::Str(s) if s == "#00ff00"));
    assert!(matches!(lookup(&values, "count"), JsonValue::Number(JsonNumber::PosInt(3))));
}

#[test]
fn version_comparison() {
    assert_eq!(compare_versions(Some("1.2.0"), Some("1.10.0")), VersionRelation::Older);
    assert_eq!(compare_versions(Some("2.0"), Some("1.9.9")), VersionRelation::Newer);
    assert_eq!(compare_versions(Some("1.0.0"), Some("1.0")), VersionRelation::Same);
    assert_eq!(compare_versions(Some("abc"), Some("abc")), VersionRelation::Same);
    assert_eq!(compare_versions(Some("abc"), Some("def")), VersionRelation::Newer);
    assert_eq!(compare_versions(None, None), VersionRelation::Same);
}

#[test]
fn version_comparison_edges() {
    assert_eq!(compare_versions(Some("v1.2"), Some("1.2.0")), VersionRelation::Same);
    assert_eq!(compare_versions(Some("1.0.1"), None), VersionRelation::Newer);
    assert_eq!(compare_versions(None, Some("1.0")), VersionRelation::Older);
}

fn png_header(w: u32, h: u32) -> Vec<u8> {
    let mut v = vec![0x89, b'P', b'N', b'G', 0x0d, 0x0a, 0x1a, 0x0a];
    v.extend_from_slice(&13u32.to_be_bytes());
    v.extend_from_slice(b"IHDR");
    v.extend_from_slice(&w.to_be_bytes());
    v.extend_from_slice(&h.to_be_bytes());
    v
}

fn jpeg_header(w: u16, h: u16) -> Vec<u8> {
    vec![
        0xff,
        0xd8,
        0xff,
        0xc0,
        0x00,
        0x11,
        0x08,
        (h >> 8) as u8,
        (h & 0xff) as u8,
        (w >> 8) as u8,
        (w & 0xff) as u8,
        0x03,
    ]
}

#[test]
fn preview_header_dimensions() {
    assert_eq!(png_dimensions(&png_header(4000, 3000)), Some((4000, 3000)));
    assert_eq!(png_dimensions(&png_header(100, 60)), Some((100, 60)));
    assert_eq!(jpeg_dimensions(&jpeg_header(1920, 1080)), Some((1920, 1080)));
    assert_eq!(jpeg_dimensions(&jpeg_header(320, 200)), Some((320, 200)));
    assert_eq!(png_dimensions(b"not an image at all"), None);
    assert_eq!(jpeg_dimensions(b"\xff\xd8\xff"), None);
    assert_eq!(image_dimensions(&png_header(640, 480)), Some((640, 480)));
    assert_eq!(image_dimensions(&jpeg_header(800, 600)), Some((800, 600)));
    assert_eq!(image_dimensions(b"GIF89a"), None);
}

#[test]
fn preview_file_lookup_order() {
    assert_eq!(find_preview_image(&[false, true, true]), Some("preview.jpg"));
    assert_eq!(find_preview_image(&[true, true, true]), Some("preview.png"));
    assert_eq!(find_preview_image(&[false, false, false]), None);
}

#[test]
fn html_entry_detection_is_case_insensitive() {
    assert!(is_html_entry("skins/a/index.html", "a/index.html"));
    assert!(is_html_entry("skins/a/PAGE.HTML", "a/PAGE.HTML"));
    assert!(is_html_entry("skins/a/Page.Htm", "a/Page.Htm"));
    assert!(!is_html_entry("skins/a/style.css", "a/style.css"));
}

#[test]
fn settings_file_name_matching() {
    for name in ["settings.json", "SETTINGS.JSON", "settings.json.bak", "settings.json.tmp"] {
        assert!(is_settings_file_name(name), "{} must be intercepted", name);
    }
    for name in ["skin.json", "settings.jsonx", "my-settings.json", ""] {
        assert!(!is_settings_file_name(name), "{} must pass through", name);
    }
}

#[test]
fn guess_mime_covers_common_media_and_case() {
    assert_eq!(guess_mime("a/ICON.ICO"), "image/x-icon");
    assert_eq!(guess_mime("a/pic.avif"), "image/avif");
    assert_eq!(guess_mime("a/song.MP3"), "audio/mpeg");
    assert_eq!(guess_mime("a/sound.wav"), "audio/wav");
    assert_eq!(guess_mime("a/sound.ogg"), "audio/ogg");
    assert_eq!(guess_mime("a/song.flac"), "audio/flac");
    assert_eq!(guess_mime("a/clip.mp4"), "video/mp4");
    assert_eq!(guess_mime("a/clip.WEBM"), "video/webm");
    assert_eq!(guess_mime("a/data.bin"), "application/octet-stream");
}

#[test]
fn relative_paths_cannot_escape() {
    assert!(relative_path_allowed("clock/index.html"));
    assert!(!relative_path_allowed("clock/../../etc/passwd"));
    assert!(!relative_path_allowed("clock/settings.json"));
}

#[test]
fn bridge_goes_into_head_and_script_close_is_escaped() {
    let out = splice_bridge("<html><HEAD><title>x</title></HEAD></html>", "<script>b</script>");
    assert!(out.contains("<script>b</script>"));
    assert_eq!(out, "<html><HEAD><title>x</title><script>b</script></HEAD></html>");
    assert_eq!(
        splice_bridge("<body>x</body>", "B"),
        "<body><head>B</head>x</body>"
    );
    assert_eq!(escape_script_close("{\"a\":\"</script>\"}"), "{\"a\":\"<\\/script>\"}");
}

#[test]
fn archive_limits_refuse_oversize_and_count_actual_bytes() {
    let l = package_limits();
    assert_eq!(check_archive(l, 67108865, 1), Err(ExtractRefusal::ArchiveTooLarge));
    assert_eq!(check_archive(l, 67108864, 1), Ok(()));
    assert_eq!(check_archive(l, 10, 5001), Err(ExtractRefusal::TooManyFiles));
    assert_eq!(check_archive(l, 10, 5000), Ok(()));
    assert_eq!(entry_read_cap(l, 0), 268435457);
    assert_eq!(add_extracted(l, 268435400, 56), Ok(268435456));
    assert_eq!(add_extracted(l, 268435400, 57), Err(ExtractRefusal::ExtractedTooLarge));
}

#[test]
fn staged_replace_names_round_trip() {
    assert_eq!(staging_folder_name("clock"), ".staging-clock");
    assert_eq!(aside_folder_name("clock"), ".clock.old");
    assert!(matches!(classify_leftover(".staging-clock"), FolderLeftover::Staging));
    assert!(matches!(classify_leftover(".clock.old"), FolderLeftover::AsideOf(f) if f == "clock"));
    assert!(matches!(classify_leftover(".old"), FolderLeftover::Other));
    assert!(matches!(classify_leftover("clock"), FolderLeftover::Other));
}

#[test]
fn install_refuses_a_shadowed_copy() {
    assert!(check_install_folder("clock", None).is_ok());
    assert!(check_install_folder("clock", Some("clock")).is_ok());
    let e = check_install_folder("clock", Some("CoolClock")).unwrap_err();
    assert_eq!(
        e,
        "another copy of skin 'clock' already exists at folder 'CoolClock' — remove it first, then install again"
    );
}

#[test]
fn packaging_skips_user_data_and_vcs() {
    assert!(skip_dir_in_package(".git"));
    assert!(skip_dir_in_package("node_modules"));
    assert!(!skip_dir_in_package("img"));
    assert!(skip_file_in_package("Settings.JSON"));
    assert!(skip_file_in_package("Thumbs.db"));
    assert!(skip_file_in_package("old.DSKIN"));
    assert!(!skip_file_in_package("index.html"));
}

#[test]
fn config_text_and_flags() {
    assert_eq!(strip_bom("\u{feff}\u{feff}{}"), "{}");
    assert_eq!(strip_bom("{}"), "{}");
    let (mut top, mut desk) = (true, true);
    normalize_mode_flags(&mut top, &mut desk);
    assert_eq!((top, desk), (false, true));
    let (mut top, mut desk) = (true, false);
    normalize_mode_flags(&mut top, &mut desk);
    assert_eq!((top, desk), (true, false));
}

#[test]
fn v1_migration_decisions() {
    assert!(needs_v1_migration(&j(r#"{"version":1}"#)));
    assert!(needs_v1_migration(&j(r#"{}"#)));
    assert!(!needs_v1_migration(&j(r#"{"version":2}"#)));
    assert!(!needs_v1_migration(&j(r#"[1]"#)));
    assert_eq!(custom_action(&j(r#"{"opacity":0.8}"#), true), CustomAction::Keep);
    assert_eq!(custom_action(&j(r#"{"custom":{}}"#), true), CustomAction::Drop);
    assert_eq!(custom_action(&j(r##"{"custom":{"accent":"#00ff00"}}"##), false), CustomAction::Drop);
    assert_eq!(custom_action(&j(r##"{"custom":{"accent":"#00ff00"}}"##), true), CustomAction::Move);
}

#[test]
fn version_order_chains() {
    let chain = [Some("1.10"), Some("1.9"), Some("v1.2.3"), Some("1"), None];
    for i in 0..chain.len() {
        for j in (i + 1)..chain.len() {
            assert_eq!(compare_versions(chain[i], chain[j]), VersionRelation::Newer, "{:?} vs {:?}", chain[i], chain[j]);
            assert_eq!(compare_versions(chain[j], chain[i]), VersionRelation::Older, "{:?} vs {:?}", chain[j], chain[i]);
        }
    }
}
