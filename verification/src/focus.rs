//! Focus mode: the decisions behind entering and leaving the distraction
//! free desktop, and the fullscreen detector that enters it automatically.
//!
//! Times are milliseconds on a monotonic clock.

use vstd::prelude::*;
use crate::text::{chars_eq, chars_of, contains_string, strings_view};

verus! {

/// Where an activation came from: fullscreen activations end with the
/// fullscreen period, manual ones only by hand.
#[derive(Clone, Copy, PartialEq, Eq, Debug, Structural)]
pub enum Trigger {
    Manual,
    Fullscreen,
}

/// Session state of focus mode (never persisted).
#[derive(Clone, Copy, PartialEq, Eq, Debug, Structural)]
pub struct Runtime {
    /// What activated the current mode, if it is active.
    pub trigger: Option<Trigger>,
    /// Start of the current fullscreen period.
    pub fs_since: Option<u64>,
    /// Start of the current non-fullscreen period (for the exit debounce).
    pub nonfs_since: Option<u64>,
    /// A manual exit during this fullscreen period: no automatic re-entry
    /// until the period ends.
    pub suppressed: bool,
    /// An enter or exit is running.
    pub busy: bool,
}

/// What the detector asks for on one tick.
#[derive(Debug, Clone, Copy, PartialEq, Eq, Structural)]
pub enum DetectorAction {
    Idle,
    Enter,
    Exit,
}

/// How long the desktop must stay non-fullscreen before a
/// fullscreen-triggered mode exits.
pub const EXIT_DEBOUNCE_MS: u64 = 5000;

impl Runtime {
    /// Idle: nothing active, no periods tracked.
    pub fn new() -> (r: Runtime)
        ensures
            r == (Runtime {
                trigger: None,
                fs_since: None,
                nonfs_since: None,
                suppressed: false,
                busy: false,
            }),
    {
        Runtime { trigger: None, fs_since: None, nonfs_since: None, suppressed: false, busy: false }
    }
}

/// One detector tick: the next runtime state and the action.
pub open spec fn detector_next(fs: bool, active: bool, rt: Runtime, now: u64) -> (Runtime, DetectorAction) {
    if fs {
        let rt1 = if rt.fs_since is None {
            Runtime { fs_since: Some(now), suppressed: false, nonfs_since: None, ..rt }
        } else {
            Runtime { nonfs_since: None, ..rt }
        };
        if !active && !rt1.suppressed && !rt1.busy {
            (rt1, DetectorAction::Enter)
        } else {
            (rt1, DetectorAction::Idle)
        }
    } else {
        let rt1 = Runtime { fs_since: None, suppressed: false, ..rt };
        if rt.trigger == Some(Trigger::Fullscreen) && active && !rt.busy {
            match rt.nonfs_since {
                None => (Runtime { nonfs_since: Some(now), ..rt1 }, DetectorAction::Idle),
                Some(t) => if now >= t && now - t >= EXIT_DEBOUNCE_MS {
                    (Runtime { nonfs_since: None, ..rt1 }, DetectorAction::Exit)
                } else {
                    (rt1, DetectorAction::Idle)
                },
            }
        } else {
            (Runtime { nonfs_since: None, ..rt1 }, DetectorAction::Idle)
        }
    }
}

/// Detector decision for one tick, given whether the desktop is fullscreen
/// now, whether the mode is active, and the time: entry on the fullscreen
/// edge, exit after `EXIT_DEBOUNCE_MS` of continuous non-fullscreen for
/// fullscreen-triggered activations, no re-entry after a manual exit
/// within the same fullscreen period.
pub fn detector_step(fs: bool, active: bool, rt: &mut Runtime, now: u64) -> (a: DetectorAction)
    ensures
        (*final(rt), a) == detector_next(fs, active, *old(rt), now),
        // a manually triggered mode is never left automatically
        old(rt).trigger != Some(Trigger::Fullscreen) ==> a != DetectorAction::Exit,
        // exit only after the debounce period of non-fullscreen
        a == DetectorAction::Exit ==> !fs && old(rt).nonfs_since is Some && now >= old(
            rt,
        ).nonfs_since->Some_0 && now - old(rt).nonfs_since->Some_0 >= EXIT_DEBOUNCE_MS,
        // entry only when fullscreen, inactive, not suppressed, not busy
        a == DetectorAction::Enter ==> fs && !active && !old(rt).busy,
        // back to fullscreen voids a pending exit
        fs ==> final(rt).nonfs_since is None,
        // suppression lasts one fullscreen period
        !fs ==> !final(rt).suppressed,
        fs && old(rt).fs_since is None ==> !final(rt).suppressed,
{
    if fs {
        rt.nonfs_since = None;
        if rt.fs_since.is_none() {
            rt.fs_since = Some(now);
            rt.suppressed = false;
        }
        if !active && !rt.suppressed && !rt.busy {
            return DetectorAction::Enter;
        }
        DetectorAction::Idle
    } else {
        rt.fs_since = None;
        rt.suppressed = false;
        if rt.trigger == Some(Trigger::Fullscreen) && active && !rt.busy {
            match rt.nonfs_since {
                None => {
                    rt.nonfs_since = Some(now);
                    DetectorAction::Idle
                },
                Some(t) => {
                    if now >= t && now - t >= EXIT_DEBOUNCE_MS {
                        rt.nonfs_since = None;
                        DetectorAction::Exit
                    } else {
                        DetectorAction::Idle
                    }
                },
            }
        } else {
            rt.nonfs_since = None;
            DetectorAction::Idle
        }
    }
}

/// The first non-fullscreen tick after fullscreen only starts the debounce
/// clock; a second tick at least `EXIT_DEBOUNCE_MS` later (without
/// fullscreen in between) exits a fullscreen-triggered active mode, and
/// any earlier tick does not.
pub proof fn law_exit_debounce(rt: Runtime, t0: u64, t1: u64)
    requires
        rt.trigger == Some(Trigger::Fullscreen),
        !rt.busy,
        rt.nonfs_since is None,
        t0 <= t1,
    ensures
        detector_next(false, true, rt, t0).1 == DetectorAction::Idle,
        detector_next(false, true, detector_next(false, true, rt, t0).0, t1).1 == (if t1 - t0
            >= EXIT_DEBOUNCE_MS {
            DetectorAction::Exit
        } else {
            DetectorAction::Idle
        }),
{
}

/// A manual exit during fullscreen blocks automatic re-entry for the rest
/// of that fullscreen period, and a non-fullscreen tick lifts the block.
pub proof fn law_suppression_lasts_one_period(rt: Runtime, now: u64, later: u64)
    requires
        rt.suppressed,
        rt.fs_since is Some,
        !rt.busy,
    ensures
        detector_next(true, false, rt, now).1 == DetectorAction::Idle,
        detector_next(true, false, detector_next(false, false, rt, now).0, later).1
            == DetectorAction::Enter,
{
}

/// Normalized focus-mode action preference: "unload" stays, anything else
/// is "hide".
pub open spec fn focus_action(pref: Seq<char>) -> Seq<char> {
    if pref == seq!['u', 'n', 'l', 'o', 'a', 'd'] {
        seq!['u', 'n', 'l', 'o', 'a', 'd']
    } else {
        seq!['h', 'i', 'd', 'e']
    }
}

/// The action a preference string stands for.
pub fn current_action(pref: &str) -> (r: &'static str)
    ensures
        r@ == focus_action(pref@),
{
    let p = chars_of(pref);
    let unload = vec!['u', 'n', 'l', 'o', 'a', 'd'];
    assert(unload@ =~= seq!['u', 'n', 'l', 'o', 'a', 'd']);
    if chars_eq(&p, &unload) {
        let r = "unload";
        proof {
            reveal_strlit("unload");
        }
        r
    } else {
        let r = "hide";
        proof {
            reveal_strlit("hide");
        }
        r
    }
}

/// The skins a mode entry acts on: loaded, not exempt, and — for the hide
/// action — currently visible (`visible[i]` for `loaded[i]`).
pub open spec fn snapshot_of(loaded: Seq<Seq<char>>, exempt: Seq<Seq<char>>, visible: Seq<bool>, unload: bool) -> Seq<
    Seq<char>,
>
    decreases loaded.len(),
{
    if loaded.len() == 0 {
        Seq::empty()
    } else {
        let prev = snapshot_of(loaded.drop_last(), exempt, visible, unload);
        let i = loaded.len() - 1;
        if !exempt.contains(loaded[i]) && (unload || visible[i]) {
            prev.push(loaded[i])
        } else {
            prev
        }
    }
}

/// The entry snapshot: loaded skins that are not exempt and, unless the
/// action unloads, currently visible.
pub fn focus_snapshot(loaded: &Vec<String>, exempt: &Vec<String>, visible: &Vec<bool>, unload: bool) -> (r: Vec<
    String,
>)
    requires
        visible@.len() == loaded@.len(),
    ensures
        strings_view(r@) == snapshot_of(
            strings_view(loaded@),
            strings_view(exempt@),
            visible@,
            unload,
        ),
{
    let ghost l = strings_view(loaded@);
    let ghost e = strings_view(exempt@);
    let mut out: Vec<String> = Vec::new();
    let mut i: usize = 0;
    assert(l.take(0) =~= Seq::<Seq<char>>::empty());
    while i < loaded.len()
        invariant
            i <= loaded.len(),
            visible@.len() == loaded@.len(),
            l == strings_view(loaded@),
            e == strings_view(exempt@),
            strings_view(out@) == snapshot_of(l.take(i as int), e, visible@, unload),
        decreases loaded.len() - i,
    {
        assert(l.take(i + 1).drop_last() =~= l.take(i as int));
        assert(l.take(i + 1)[i as int] == loaded@[i as int]@);
        if !contains_string(exempt, loaded[i].as_str()) && (unload || visible[i]) {
            let ghost before = strings_view(out@);
            out.push(loaded[i].clone());
            assert(strings_view(out@) =~= before.push(loaded@[i as int]@));
        }
        i = i + 1;
    }
    assert(l.take(loaded.len() as int) =~= l);
    out
}

/// Starts an enter unless one is running or the mode is already active.
pub fn begin_enter(rt: &mut Runtime, active: bool) -> (started: bool)
    ensures
        started == (!old(rt).busy && !active),
        *final(rt) == (if started {
            Runtime { busy: true, ..*old(rt) }
        } else {
            *old(rt)
        }),
{
    if rt.busy || active {
        return false;
    }
    rt.busy = true;
    true
}

/// Records what activated the mode once its state is saved.
pub fn record_trigger(rt: &mut Runtime, trigger: Trigger)
    ensures
        *final(rt) == (Runtime { trigger: Some(trigger), ..*old(rt) }),
{
    rt.trigger = Some(trigger);
}

/// Ends an enter.
pub fn finish_enter(rt: &mut Runtime)
    ensures
        *final(rt) == (Runtime { busy: false, ..*old(rt) }),
{
    rt.busy = false;
}

/// Starts an exit unless one is running or the mode is inactive; a manual
/// exit during fullscreen suppresses automatic re-entry for that period.
pub fn begin_exit(rt: &mut Runtime, active: bool, manual: bool) -> (started: bool)
    ensures
        started == (!old(rt).busy && active),
        *final(rt) == (if started {
            Runtime {
                busy: true,
                suppressed: if manual && old(rt).fs_since is Some {
                    true
                } else {
                    old(rt).suppressed
                },
                ..*old(rt)
            }
        } else {
            *old(rt)
        }),
{
    if rt.busy || !active {
        return false;
    }
    rt.busy = true;
    if manual && rt.fs_since.is_some() {
        rt.suppressed = true;
    }
    true
}

/// Ends an exit: nothing runs and nothing is active any more.
pub fn finish_exit(rt: &mut Runtime)
    ensures
        *final(rt) == (Runtime { busy: false, trigger: None, ..*old(rt) }),
{
    rt.busy = false;
    rt.trigger = None;
}

/// After an exit finishes, the detector never asks to exit again until
/// the mode is re-entered.
pub proof fn law_no_exit_after_exit(rt: Runtime, fs: bool, active: bool, now: u64)
    requires
        rt.trigger is None,
    ensures
        detector_next(fs, active, rt, now).1 != DetectorAction::Exit,
{
}


// ─── Fullscreen detection ────────────────────────────────────────────────

/// A window rectangle (left, top, right, bottom) covers a monitor
/// rectangle when every edge is within 4 pixels of the monitor's.
pub open spec fn covers_monitor(w: (i32, i32, i32, i32), m: (i32, i32, i32, i32)) -> bool {
    let tol: int = 4;
    -tol <= w.0 - m.0 <= tol && -tol <= w.1 - m.1 <= tol && -tol <= w.2 - m.2 <= tol && -tol <= w.3
        - m.3 <= tol
}

fn near(a: i32, b: i32) -> (r: bool)
    ensures
        r == (-4 <= a - b <= 4),
{
    let d: i64 = a as i64 - b as i64;
    -4 <= d && d <= 4
}

/// Whether the foreground window fills its monitor.
pub fn window_covers_monitor(w: (i32, i32, i32, i32), m: (i32, i32, i32, i32)) -> (b: bool)
    ensures
        b == covers_monitor(w, m),
{
    near(w.0, m.0) && near(w.1, m.1) && near(w.2, m.2) && near(w.3, m.3)
}

/// Shell processes whose full-screen surfaces (desktop, start menu, lock
/// screen, search, input method) are not a fullscreen application.
pub open spec fn shell_images() -> Seq<Seq<char>> {
    seq![
        "explorer.exe"@,
        "lockapp.exe"@,
        "shellexperiencehost.exe"@,
        "searchhost.exe"@,
        "startmenuexperiencehost.exe"@,
        "textinputhost.exe"@,
        "sihost.exe"@,
    ]
}

/// The last component of an image path ('\\' and '/' separate).
pub open spec fn image_name(path: Seq<char>) -> Seq<char>
    decreases path.len(),
{
    if path.len() == 0 {
        path
    } else if path.last() == '\\' || path.last() == '/' {
        Seq::empty()
    } else {
        image_name(path.drop_last()).push(path.last())
    }
}

/// A foreground process is part of the shell when the lower-cased file
/// name of its image is one of the shell images.
pub open spec fn shell_process(image_path: Seq<char>) -> bool {
    shell_images().contains(crate::text::unicode_lower_str(image_name(image_path)))
}

/// Whether the foreground process (its full image path) is the shell.
pub fn is_shell_process(image_path: &str) -> (b: bool)
    ensures
        b == shell_process(image_path@),
{
    let v = chars_of(image_path);
    let mut start: usize = v.len();
    let ghost p = v@;
    assert(p.skip(p.len() as int) =~= Seq::<char>::empty());
    assert(p.take(p.len() as int) =~= p);
    while start > 0 && v[start - 1] != '\\' && v[start - 1] != '/'
        invariant
            start <= v.len(),
            p == v@,
            image_name(p) == image_name(p.take(start as int)) + p.skip(start as int),
        decreases start,
    {
        let ghost t = p.take(start as int);
        assert(t.drop_last() =~= p.take(start - 1));
        assert(t.last() == p[start - 1]);
        assert(p.skip(start - 1) =~= seq![p[start - 1]] + p.skip(start as int));
        assert(image_name(p.take(start - 1)).push(p[start - 1]) + p.skip(start as int) =~= image_name(
            p.take(start - 1),
        ) + p.skip(start - 1));
        start = start - 1;
    }
    proof {
        assert(image_name(p.take(start as int)).len() == 0) by {
            if start > 0 {
                assert(p.take(start as int).last() == p[start - 1]);
            }
        }
        assert(image_name(p) =~= p.skip(start as int));
    }
    let name_chars = crate::text::sub_chars(&v, start, v.len());
    assert(name_chars@ =~= p.skip(start as int));
    let name = crate::text::string_of(&name_chars);
    let lower = crate::text::str_to_lowercase(name.as_str());
    let lv = chars_of(lower.as_str());
    let names = vec![
        chars_of("explorer.exe"),
        chars_of("lockapp.exe"),
        chars_of("shellexperiencehost.exe"),
        chars_of("searchhost.exe"),
        chars_of("startmenuexperiencehost.exe"),
        chars_of("textinputhost.exe"),
        chars_of("sihost.exe"),
    ];
    assert(crate::text::views(names@) =~= shell_images());
    let mut i: usize = 0;
    while i < names.len()
        invariant
            i <= names.len(),
            crate::text::views(names@) == shell_images(),
            lv@ == crate::text::unicode_lower_str(image_name(image_path@)),
            forall|j: int| 0 <= j < i ==> shell_images()[j] != lv@,
        decreases names.len() - i,
    {
        if chars_eq(&names[i], &lv) {
            assert(shell_images()[i as int] == lv@);
            return true;
        }
        i = i + 1;
    }
    false
}
} // verus!
