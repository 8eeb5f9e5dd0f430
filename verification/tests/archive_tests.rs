use driftlet::archive::{extract_under_limits, ExtractFailure};
use driftlet::backup::{build_backup, merge_skin_settings};
use driftlet::json::JsonValue;
use driftlet::skin::loader::scan_order;
use driftlet::skin::protocol::resolved_file_served;
use driftlet::skin::install::{install_next, install_start, InstallAction, StepOutcome};
use driftlet::skin::install::StepOutcome::{Done, Failed, Present, Read};
use driftlet::skin::package::{build_package, package_limits, ExtractLimits, ExtractRefusal};
use driftlet::swap::{restore_step, swap_next, swap_start, RestoreStep, SwapAction, SwapOutcome};

fn file(name: &str, data: &[u8]) -> (String, Vec<u8>) {
    (name.to_string(), data.to_vec())
}

#[test]
fn built_package_extracts_back() {
    let bytes = build_package(
        vec![file("skin.json", b"{\"id\":\"clock\"}"), file("img\\bg.png", b"png-bytes"), file("index.html", b"<p>")],
        "en",
    )
    .unwrap();
    let files = extract_under_limits(&bytes, package_limits()).unwrap();
    assert_eq!(
        files,
        vec![file("skin.json", b"{\"id\":\"clock\"}"), file("img/bg.png", b"png-bytes"), file("index.html", b"<p>")]
    );
}

#[test]
fn escaping_entry_names_are_skipped() {
    let bytes = build_backup(&vec![file("../evil.txt", b"x"), file("/abs.txt", b"y"), file("ok/a.txt", b"z")], "en").unwrap();
    let files = extract_under_limits(&bytes, package_limits()).unwrap();
    assert_eq!(files, vec![file("ok/a.txt", b"z")]);
}

#[test]
fn extraction_refusals() {
    let bytes = build_backup(&vec![file("a", b"1234"), file("b", b"5678")], "en").unwrap();
    let tight = ExtractLimits { max_archive_bytes: 1 << 20, max_files: 10, max_total_bytes: 7 };
    assert!(matches!(
        extract_under_limits(&bytes, tight),
        Err(ExtractFailure::Refused(ExtractRefusal::ExtractedTooLarge))
    ));
    let few = ExtractLimits { max_archive_bytes: 1 << 20, max_files: 1, max_total_bytes: 100 };
    assert!(matches!(extract_under_limits(&bytes, few), Err(ExtractFailure::Refused(ExtractRefusal::TooManyFiles))));
    let small = ExtractLimits { max_archive_bytes: 10, max_files: 10, max_total_bytes: 100 };
    assert!(matches!(
        extract_under_limits(&bytes, small),
        Err(ExtractFailure::Refused(ExtractRefusal::ArchiveTooLarge))
    ));
    assert!(matches!(extract_under_limits(b"not a zip at all", package_limits()), Err(ExtractFailure::NotZip)));
    let exact = ExtractLimits { max_archive_bytes: 1 << 20, max_files: 2, max_total_bytes: 8 };
    assert_eq!(extract_under_limits(&bytes, exact).unwrap().len(), 2);
}

#[test]
fn oversized_package_is_refused_before_writing() {
    let big = vec![0u8; 268435456 / 2 + 1];
    let r = build_package(vec![("a".to_string(), big.clone()), ("b".to_string(), big)], "en");
    assert!(r.unwrap_err().contains("256 MB"));
}

/// Drives an install with the given outcomes; returns the actions asked
/// for and the final result.
fn drive(outcomes: Vec<StepOutcome>) -> (Vec<String>, Option<Result<(), String>>) {
    let (mut state, mut action) = install_start("en");
    let mut steps = Vec::new();
    for ev in outcomes {
        if let InstallAction::Finish(r) = action {
            return (steps, Some(r));
        }
        steps.push(format!("{:?}", action));
        let next = install_next(state, ev, "en");
        state = next.0;
        action = next.1;
    }
    match action {
        InstallAction::Finish(r) => (steps, Some(r)),
        other => {
            steps.push(format!("{:?}", other));
            (steps, None)
        }
    }
}

#[test]
fn fresh_install_steps() {
    let (steps, r) = drive(vec![Done, Done, Done, Present(false), Done]);
    assert_eq!(steps, vec!["RemoveStaging", "RemoveOld", "CopyToStaging", "ProbeDest", "MoveStagingToDest"]);
    assert_eq!(r, Some(Ok(())));
}

#[test]
fn update_carries_settings_over() {
    let (steps, r) = drive(vec![Done, Done, Done, Present(true), Done, Done, Read(b"{\"a\":1}".to_vec()), Done, Done]);
    assert_eq!(
        steps,
        vec![
            "RemoveStaging",
            "RemoveOld",
            "CopyToStaging",
            "ProbeDest",
            "MoveDestAside",
            "MoveStagingToDest",
            "ReadOldSettings",
            "WriteSettings([123, 34, 97, 34, 58, 49, 125])",
            "RemoveOld"
        ]
    );
    assert_eq!(r, Some(Ok(())));
}

#[test]
fn failed_placing_moves_the_old_version_back() {
    let (steps, r) = drive(vec![Done, Done, Done, Present(true), Done, Failed("busy".to_string()), Done, Done]);
    assert_eq!(&steps[5..], &["MoveStagingToDest", "MoveOldBack", "RemoveStaging"]);
    assert_eq!(r, Some(Err("Failed to install skin: busy".to_string())));
}

#[test]
fn failed_settings_write_keeps_the_old_version() {
    let (steps, r) =
        drive(vec![Done, Done, Done, Present(true), Done, Done, Read(vec![1]), Failed("denied".to_string())]);
    assert_eq!(steps.last().unwrap(), "WriteSettings([1])");
    let err = r.unwrap().unwrap_err();
    assert!(err.contains("denied"));
    let (_, copy_failed) = drive(vec![Done, Done, Failed("disk full".to_string()), Done]);
    assert_eq!(copy_failed, Some(Err("Failed to install skin: disk full".to_string())));
}

fn swap_drive(n: usize, outcomes: Vec<SwapOutcome>) -> (Vec<String>, Option<Result<(), String>>) {
    let (mut state, mut action) = swap_start(n, "en");
    let mut steps = Vec::new();
    for ev in outcomes {
        if let SwapAction::Finish(r) = action {
            return (steps, Some(r));
        }
        steps.push(format!("{:?}", action));
        let next = swap_next(n, state, ev, "en");
        state = next.0;
        action = next.1;
    }
    match action {
        SwapAction::Finish(r) => (steps, Some(r)),
        other => {
            steps.push(format!("{:?}", other));
            (steps, None)
        }
    }
}

#[test]
fn swap_of_two_targets_succeeds_and_cleans_up() {

    let o = |d: bool| if d { SwapOutcome::Done } else { SwapOutcome::Failed("x".into()) };
    let (steps, r) = swap_drive(
        2,
        vec![o(true), SwapOutcome::Present(true), o(true), o(true), o(true), SwapOutcome::Present(false), o(true), o(true), o(true)],
    );
    assert_eq!(
        steps,
        vec![
            "RemoveAside(0)",
            "ProbeTarget(0)",
            "MoveTargetAside(0)",
            "CopyIn(0)",
            "RemoveAside(1)",
            "ProbeTarget(1)",
            "CopyIn(1)",
            "RemoveAside(1)",
            "RemoveAside(0)"
        ]
    );
    assert_eq!(r, Some(Ok(())));
}

#[test]
fn failed_copy_rolls_every_target_back() {
    let (steps, r) = swap_drive(
        2,
        vec![
            SwapOutcome::Done,
            SwapOutcome::Present(true),
            SwapOutcome::Done,
            SwapOutcome::Done,
            SwapOutcome::Done,
            SwapOutcome::Present(true),
            SwapOutcome::Done,
            SwapOutcome::Failed("disk full".into()),
            SwapOutcome::Done,
            SwapOutcome::Present(true),
            SwapOutcome::Done,
            SwapOutcome::Done,
            SwapOutcome::Present(true),
            SwapOutcome::Done,
        ],
    );
    assert_eq!(
        &steps[8..],
        &["RemoveTarget(1)", "ProbeAside(1)", "MoveAsideBack(1)", "RemoveTarget(0)", "ProbeAside(0)", "MoveAsideBack(0)"]
    );
    assert_eq!(r, Some(Err("Failed to import backup: disk full".to_string())));
}

#[test]
fn scan_order_sorts_folder_names() {
    let names: Vec<String> = ["zeta", "Alpha", ".staging-x", "alpha", "b"].iter().map(|s| s.to_string()).collect();
    assert_eq!(scan_order(names), vec![".staging-x", "Alpha", "alpha", "b", "zeta"]);
    assert!(scan_order(Vec::new()).is_empty());
}

#[test]
fn served_files_stay_inside_the_skins_folder() {
    assert!(resolved_file_served("/data/skins", "/data/skins/clock/index.html"));
    assert!(!resolved_file_served("/data/skins", "/data/skins2/clock/index.html"));
    assert!(!resolved_file_served("/data/skins", "/data/other.txt"));
    assert!(!resolved_file_served("/data/skins", "/data/skins/clock/SETTINGS.JSON"));
    assert!(!resolved_file_served("/data/skins", "/data/skins/clock/settings.json.bak"));
    assert!(resolved_file_served("C:\\skins", "C:\\skins\\clock\\a.png"));
}

#[test]
fn selective_import_takes_the_backup_settings_of_imported_skins() {
    let mut current = vec![
        ("clock".to_string(), JsonValue::Bool(false)),
        ("notes".to_string(), JsonValue::Bool(false)),
    ];
    let backup = vec![
        ("clock".to_string(), JsonValue::Bool(true)),
        ("notes".to_string(), JsonValue::Bool(true)),
        ("radio".to_string(), JsonValue::Str("x".to_string())),
    ];
    merge_skin_settings(&mut current, &backup, &vec!["clock".to_string(), "radio".to_string(), "gone".to_string()]);
    assert!(matches!(current[0], (ref k, JsonValue::Bool(true)) if k == "clock"));
    assert!(matches!(current[1], (ref k, JsonValue::Bool(false)) if k == "notes"));
    assert!(matches!(&current[2], (k, JsonValue::Str(v)) if k == "radio" && v == "x"));
    assert_eq!(current.len(), 3);
}

#[test]
fn over_long_entry_names_are_refused_before_writing() {
    let long = "a".repeat(65536);
    let r = build_backup(&vec![file(&long, b"x")], "en");
    assert_eq!(r.unwrap_err(), "Failed to export backup: 文件路径过长（超过 65535 字节）");
    let r = build_package(vec![file("skin.json", b"{}"), file(&long, b"x")], "en");
    assert_eq!(r.unwrap_err(), "Failed to create package: 文件路径过长（超过 65535 字节）");
    // A name of exactly the limit is written.
    let edge = "b".repeat(65535);
    assert!(build_backup(&vec![file(&edge, b"x")], "en").is_ok());
    // Three bytes per character: 21845 characters fit, 21846 do not.
    let wide = "字".repeat(21846);
    assert!(build_backup(&vec![file(&wide, b"x")], "en").is_err());
    let wide_ok = "字".repeat(21845);
    assert!(build_backup(&vec![file(&wide_ok, b"x")], "en").is_ok());
}

#[test]
fn zip_writer_failure_is_reported_with_its_text() {
    let r = build_backup(&vec![file("same.txt", b"1"), file("same.txt", b"2")], "en");
    let m = r.unwrap_err();
    assert!(m.starts_with("Failed to export backup: "));
    assert!(m.len() > "Failed to export backup: ".len());
    let r = build_package(vec![file("dup", b"1"), file("dup", b"2")], "zh-CN");
    assert!(r.unwrap_err().starts_with("打包失败: "));
}

#[test]
fn interrupted_import_puts_the_aside_copy_back() {
    assert_eq!(restore_step(false, true), RestoreStep::Leave);
    assert_eq!(restore_step(false, false), RestoreStep::Leave);
    assert_eq!(restore_step(true, false), RestoreStep::PutBack { clear_first: false });
    assert_eq!(restore_step(true, true), RestoreStep::PutBack { clear_first: true });
}
