use driftlet::startup::{
    bundled_skin_ids, default_skins_group, dskin_arg, is_under_protected_root, should_migrate_config,
    should_migrate_skin, ungrouped_bundled,
};

fn args(v: &[&str]) -> Vec<String> {
    v.iter().map(|s| s.to_string()).collect()
}

fn is_file(p: &String) -> bool {
    std::path::Path::new(p).is_file()
}

#[test]
fn protected_root_detection() {
    let roots = vec![
        r"C:\Program Files".to_string(),
        r"C:\Program Files (x86)".to_string(),
        r"C:\Windows".to_string(),
    ];
    assert!(is_under_protected_root(r"C:\Program Files\Driftlet", &roots));
    assert!(is_under_protected_root(r"c:\program files (x86)\app", &roots));
    assert!(is_under_protected_root(r"C:\Windows\Temp\x", &roots));
    assert!(is_under_protected_root(r"C:\Program Files", &roots));
    assert!(!is_under_protected_root(r"C:\Program Files-x\app", &roots));
    assert!(!is_under_protected_root(r"D:\Tools\Driftlet", &roots));
}

#[test]
fn protected_root_with_trailing_backslash_covers_itself() {
    let roots = vec![r"C:\Windows\".to_string()];
    assert!(is_under_protected_root(r"C:\Windows", &roots));
    assert!(is_under_protected_root(r"C:\WINDOWS\System32", &roots));
    assert!(!is_under_protected_root(r"C:\Windows2", &roots));
    assert!(!is_under_protected_root(r"C:\Windows", &Vec::new()));
}

#[test]
fn skips_argv0() {
    assert_eq!(dskin_arg(&args(&["anything.dskin"]), is_file), None);
}

#[test]
fn finds_existing_dskin_case_insensitive() {
    // the file system is stood in for by the set of existing files
    let pkg = r"C:\Users\me\Downloads\My Skin.DSKIN".to_string();
    let existing = vec![pkg.clone()];
    let found = dskin_arg(&args(&["app", &pkg]), |p: &String| existing.contains(p));
    assert_eq!(found.as_deref(), Some(pkg.as_str()));
}

#[test]
fn rejects_missing_or_non_dskin() {
    assert_eq!(dskin_arg(&args(&["app", "no-such-file.dskin"]), is_file), None);
    assert_eq!(dskin_arg(&args(&["app", "README.md"]), is_file), None);
    assert_eq!(dskin_arg(&args(&["app"]), is_file), None);
}

#[test]
fn dskin_arg_asks_only_about_packages_and_takes_the_first() {
    let asked = std::cell::RefCell::new(Vec::new());
    let r = dskin_arg(&args(&["app", "a.txt", "b.DsKiN", "c.dskin", "d.dskin"]), |p: &String| {
        asked.borrow_mut().push(p.clone());
        p != "b.DsKiN"
    });
    assert_eq!(r.as_deref(), Some("c.dskin"));
    assert_eq!(*asked.borrow(), vec!["b.DsKiN".to_string(), "c.dskin".to_string()]);
    // a file named just ".dskin" has no extension
    assert_eq!(dskin_arg(&args(&["app", ".dskin"]), |_p: &String| true), None);
}

#[test]
fn legacy_config_is_migrated_only_when_missing() {
    assert!(should_migrate_config(false, true, "/a/config.json", "/b/config.json"));
    assert!(!should_migrate_config(true, true, "/a/config.json", "/b/config.json"));
    assert!(!should_migrate_config(false, false, "/a/config.json", "/b/config.json"));
    assert!(!should_migrate_config(false, true, "/a/config.json", "/a/config.json"));
    assert!(should_migrate_skin(true, false));
    assert!(!should_migrate_skin(true, true));
    assert!(!should_migrate_skin(false, false));
}

#[test]
fn bundled_skins_grouping() {
    let ids = bundled_skin_ids();
    assert_eq!(ids.len(), 6);
    assert_eq!(ids[0], "isles-countdown");
    let installed = vec![true, true, false, true, true, true];
    let grouped = vec![false, true, false, false, false, true];
    let r = ungrouped_bundled(&installed, &grouped);
    assert_eq!(r, vec!["isles-countdown", "isles-monitor", "isles-weather"]);
    let g = default_skins_group("en");
    assert_eq!(g.id, "g-default-skins");
    assert!(!g.collapsed);
    assert_eq!(default_skins_group("zh-CN").name, "默认皮肤");
}
