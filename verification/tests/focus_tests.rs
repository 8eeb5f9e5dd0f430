use driftlet::focus::{detector_step, DetectorAction, Runtime, Trigger};

fn rt() -> Runtime {
    Runtime { trigger: None, fs_since: None, nonfs_since: None, suppressed: false, busy: false }
}

const T0: u64 = 1_000_000;

#[test]
fn detector_enter_edges() {
    let mut r = rt();
    let t0 = T0;
    assert_eq!(detector_step(true, false, &mut r, t0), DetectorAction::Enter);
    assert_eq!(detector_step(true, true, &mut r, t0), DetectorAction::Idle);
    r.trigger = None;
    r.suppressed = true;
    assert_eq!(detector_step(true, false, &mut r, t0), DetectorAction::Idle);
    assert_eq!(detector_step(false, false, &mut r, t0), DetectorAction::Idle);
    assert!(!r.suppressed);
    assert_eq!(detector_step(true, false, &mut r, t0), DetectorAction::Enter);
}

#[test]
fn detector_exit_debounce() {
    let mut r = rt();
    let t0 = T0;
    r.trigger = Some(Trigger::Fullscreen);
    assert_eq!(detector_step(false, true, &mut r, t0), DetectorAction::Idle);
    assert_eq!(detector_step(false, true, &mut r, t0 + 3000), DetectorAction::Idle);
    assert_eq!(detector_step(false, true, &mut r, t0 + 6000), DetectorAction::Exit);
    r.trigger = None;
    assert_eq!(detector_step(false, true, &mut r, t0 + 8000), DetectorAction::Idle);
}

#[test]
fn detector_alt_tab_flicker_resets_debounce() {
    let mut r = rt();
    let t0 = T0;
    r.trigger = Some(Trigger::Fullscreen);
    assert_eq!(detector_step(false, true, &mut r, t0), DetectorAction::Idle);
    assert_eq!(detector_step(true, true, &mut r, t0 + 2000), DetectorAction::Idle);
    assert!(r.nonfs_since.is_none(), "going back to fullscreen voids the pending exit");
    assert_eq!(detector_step(false, true, &mut r, t0 + 3000), DetectorAction::Idle);
    assert_eq!(detector_step(false, true, &mut r, t0 + 9000), DetectorAction::Exit);
}

#[test]
fn detector_manual_trigger_never_auto_exits() {
    let mut r = rt();
    let t0 = T0;
    r.trigger = Some(Trigger::Manual);
    assert_eq!(detector_step(false, true, &mut r, t0), DetectorAction::Idle);
    assert_eq!(detector_step(false, true, &mut r, t0 + 60000), DetectorAction::Idle);
}

#[test]
fn detector_exit_exactly_at_debounce_boundary() {
    let mut r = rt();
    r.trigger = Some(Trigger::Fullscreen);
    assert_eq!(detector_step(false, true, &mut r, T0), DetectorAction::Idle);
    assert_eq!(detector_step(false, true, &mut r, T0 + 4999), DetectorAction::Idle);
    assert_eq!(detector_step(false, true, &mut r, T0 + 5000), DetectorAction::Exit);
    assert!(r.nonfs_since.is_none());
}

#[test]
fn detector_busy_blocks_enter_and_exit() {
    let mut r = rt();
    r.busy = true;
    assert_eq!(detector_step(true, false, &mut r, T0), DetectorAction::Idle);
    r.trigger = Some(Trigger::Fullscreen);
    assert_eq!(detector_step(false, true, &mut r, T0), DetectorAction::Idle);
    assert_eq!(detector_step(false, true, &mut r, T0 + 10000), DetectorAction::Idle);
}

#[test]
fn runtime_new_is_idle() {
    let r = Runtime::new();
    assert_eq!(r, rt());
}
