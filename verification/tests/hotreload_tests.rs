use driftlet::hotreload::{
    hit_recent_self_write, is_self_write, normalize_watch_path, note_self_write, route_event,
    skin_folder, PendingReloads, RecentSelfWrites,
};

#[test]
fn self_write_names_are_filtered() {
    let base = r"C:\skins\clock";
    let join = |rest: &str| format!(r"{}\{}", base, rest);
    assert!(is_self_write(&join("settings.json")));
    assert!(is_self_write(&join("settings.json.tmp")));
    assert!(is_self_write(&join("settings.json.bak")));
    assert!(is_self_write(&join("preview.png")));
    assert!(is_self_write(&join(r".staging-clock\index.html")));
    assert!(is_self_write(&join(r".clock.old\index.html")));
    assert!(!is_self_write(&join("index.html")));
    assert!(!is_self_write(&join(r"js\main.js")));
}

#[test]
fn recent_self_write_hits_until_ttl() {
    let mut recent = RecentSelfWrites::new();
    let now = 1_000_000u64;
    let p = r"C:\skins\clock\todo.json";
    assert!(!hit_recent_self_write(&recent, p, now));
    note_self_write(&mut recent, p, now);
    assert!(hit_recent_self_write(&recent, p, now));
    assert!(hit_recent_self_write(&recent, p, now + 100));
    note_self_write(&mut recent, r"\\?\C:\skins\clock\data.json", now);
    assert!(hit_recent_self_write(&recent, r"C:\skins\clock\data.json", now));
}

#[test]
fn recent_self_write_expires_after_ttl() {
    let mut recent = RecentSelfWrites::new();
    let p = r"C:\skins\clock\todo.json";
    note_self_write(&mut recent, p, 1000);
    assert!(hit_recent_self_write(&recent, p, 5999));
    assert!(!hit_recent_self_write(&recent, p, 6000));
    // a later registration of another path drops the expired one
    note_self_write(&mut recent, r"C:\skins\clock\b.json", 7000);
    assert!(!hit_recent_self_write(&recent, p, 1500));
}

#[test]
fn skin_folder_takes_first_component() {
    let skins = r"C:\app\skins";
    assert_eq!(
        skin_folder(skins, r"C:\app\skins\clock\js\main.js").as_deref(),
        Some(r"C:\app\skins\clock")
    );
    assert_eq!(skin_folder(skins, r"C:\else\clock\a.js"), None);
    assert_eq!(skin_folder(skins, r"C:\app\skins"), None);
}

#[test]
fn verbatim_prefix_is_stripped() {
    assert_eq!(normalize_watch_path(r"\\?\C:\a\b"), r"C:\a\b");
    assert_eq!(normalize_watch_path(r"C:\a\b"), r"C:\a\b");
}

#[test]
fn events_route_to_pending_folders_and_fire_after_quiet() {
    let recent = RecentSelfWrites::new();
    let skins = r"C:\app\skins";
    assert_eq!(route_event(&recent, skins, r"C:\app\skins\clock\settings.json", 0), None);
    let f = route_event(&recent, skins, r"C:\app\skins\clock\index.html", 0).unwrap();
    assert_eq!(f, r"C:\app\skins\clock");

    let mut pending = PendingReloads::new();
    pending.touch(&f, 1000);
    assert!(pending.take_due(1200).is_empty());
    pending.touch(&f, 1200);
    assert!(pending.take_due(1400).is_empty());
    assert_eq!(pending.take_due(1500), vec![f.clone()]);
    assert!(pending.take_due(5000).is_empty(), "a folder fires once");
    pending.touch(&f, 6000);
    pending.clear();
    assert!(pending.take_due(9000).is_empty());
}
