//! Swapping folders in from a backup, all or none (the selected skins of a
//! selective import, or the config and skins folders of a full import), as
//! folder steps decided here and performed by the caller.  For
//! each target folder in turn: a leftover aside folder is removed, an
//! existing target is moved aside, the backup's folder is copied in.  When
//! a step fails, the half-copied target is removed and its previous folder
//! moved back, and so are all the targets swapped before it, newest first.
//! When all are in, the aside folders are removed.

use vstd::prelude::*;
use crate::commands::{err1, msg1};
use crate::i18n::Key;

verus! {

/// Where a swap stands, at target `i` (or `k` while rolling back); each
/// state waits for the outcome of its step (see [`swap_step_of`]).
#[derive(Debug)]
pub enum SwapState {
    ClearAside { i: usize },
    Probe { i: usize },
    MoveAside { i: usize },
    Copy { i: usize },
    /// Undoing the failed copy of target `i`: removing what was copied.
    UndoRemove { i: usize, detail: String },
    /// Undoing the failed copy of target `i`: is its previous folder aside?
    UndoProbe { i: usize, detail: String },
    /// Undoing the failed copy of target `i`: moving its previous folder back.
    UndoRestore { i: usize, detail: String },
    /// Rolling back the targets below `k`: removing target `k - 1`.
    RollRemove { k: usize, detail: String },
    /// Rolling back: is the previous folder of target `k - 1` aside?
    RollProbe { k: usize, detail: String },
    /// Rolling back: moving the previous folder of target `k - 1` back.
    RollRestore { k: usize, detail: String },
    /// All targets swapped: removing the aside folders below `k`.
    Cleanup { k: usize },
    Finished { failure: Option<String> },
}

/// What the caller reports of the step it performed.
#[derive(Debug)]
pub enum SwapOutcome {
    Done,
    Failed(String),
    /// Whether the folder asked about exists.
    Present(bool),
}

/// A folder step for the caller, on target `i` of the list.
#[derive(Debug)]
pub enum SwapAction {
    RemoveAside(usize),
    ProbeTarget(usize),
    MoveTargetAside(usize),
    CopyIn(usize),
    RemoveTarget(usize),
    ProbeAside(usize),
    MoveAsideBack(usize),
    Finish(Result<(), String>),
}

/// The failure of target `i`'s step with `detail`: undo that target first.
pub open spec fn undo_from(i: usize, detail: String) -> SwapState {
    SwapState::UndoRemove { i, detail }
}

/// Roll back the `k` targets already swapped (newest first), then fail.
pub open spec fn roll_from(k: usize, detail: String) -> SwapState {
    if k == 0 {
        SwapState::Finished { failure: Some(detail) }
    } else {
        SwapState::RollRemove { k, detail }
    }
}

/// The next state of a swap over `n` targets after outcome `ev`.
pub open spec fn swap_transition(n: usize, s: SwapState, ev: SwapOutcome) -> SwapState {
    match s {
        SwapState::ClearAside { i } => SwapState::Probe { i },
        SwapState::Probe { i } => match ev {
            SwapOutcome::Present(true) => SwapState::MoveAside { i },
            _ => SwapState::Copy { i },
        },
        SwapState::MoveAside { i } => match ev {
            SwapOutcome::Failed(e) => roll_from(i, e),
            _ => SwapState::Copy { i },
        },
        SwapState::Copy { i } => match ev {
            SwapOutcome::Failed(e) => undo_from(i, e),
            _ => if i + 1 < n {
                SwapState::ClearAside { i: (i + 1) as usize }
            } else {
                SwapState::Cleanup { k: n }
            },
        },
        SwapState::UndoRemove { i, detail } => SwapState::UndoProbe { i, detail },
        SwapState::UndoProbe { i, detail } => match ev {
            SwapOutcome::Present(true) => SwapState::UndoRestore { i, detail },
            _ => roll_from(i, detail),
        },
        SwapState::UndoRestore { i, detail } => roll_from(i, detail),
        SwapState::RollRemove { k, detail } => SwapState::RollProbe { k, detail },
        SwapState::RollProbe { k, detail } => match ev {
            SwapOutcome::Present(true) => SwapState::RollRestore { k, detail },
            _ => roll_from((k - 1) as usize, detail),
        },
        SwapState::RollRestore { k, detail } => roll_from((k - 1) as usize, detail),
        SwapState::Cleanup { k } => if k <= 1 {
            SwapState::Finished { failure: None }
        } else {
            SwapState::Cleanup { k: (k - 1) as usize }
        },
        SwapState::Finished { failure } => SwapState::Finished { failure },
    }
}

/// The step a state waits on; a failure is reported as the import-failed
/// message for `lang`.
pub open spec fn swap_step_of(s: SwapState, a: SwapAction, lang: Seq<char>) -> bool {
    match s {
        SwapState::ClearAside { i } => a == SwapAction::RemoveAside(i),
        SwapState::Probe { i } => a == SwapAction::ProbeTarget(i),
        SwapState::MoveAside { i } => a == SwapAction::MoveTargetAside(i),
        SwapState::Copy { i } => a == SwapAction::CopyIn(i),
        SwapState::UndoRemove { i, .. } => a == SwapAction::RemoveTarget(i),
        SwapState::UndoProbe { i, .. } => a == SwapAction::ProbeAside(i),
        SwapState::UndoRestore { i, .. } => a == SwapAction::MoveAsideBack(i),
        SwapState::RollRemove { k, .. } => a == SwapAction::RemoveTarget((k - 1) as usize),
        SwapState::RollProbe { k, .. } => a == SwapAction::ProbeAside((k - 1) as usize),
        SwapState::RollRestore { k, .. } => a == SwapAction::MoveAsideBack((k - 1) as usize),
        SwapState::Cleanup { k } => a == SwapAction::RemoveAside((k - 1) as usize),
        SwapState::Finished { failure } => match failure {
            None => a matches SwapAction::Finish(Ok(())),
            Some(d) => a matches SwapAction::Finish(Err(m)) && m@ == msg1(lang, Key::ImportBackupFailed, d@),
        },
    }
}

/// Whether a state's indices fit a swap over `n` targets.
pub open spec fn swap_state_ok(n: usize, s: SwapState) -> bool {
    match s {
        SwapState::ClearAside { i } | SwapState::Probe { i } | SwapState::MoveAside { i }
        | SwapState::Copy { i } | SwapState::UndoRemove { i, .. } | SwapState::UndoProbe { i, .. }
        | SwapState::UndoRestore { i, .. } => i < n,
        SwapState::RollRemove { k, .. } | SwapState::RollProbe { k, .. }
        | SwapState::RollRestore { k, .. } | SwapState::Cleanup { k } => 1 <= k <= n,
        SwapState::Finished { .. } => true,
    }
}

fn swap_action_for(s: &SwapState, lang: &str) -> (a: SwapAction)
    requires
        match *s {
            SwapState::RollRemove { k, .. } | SwapState::RollProbe { k, .. }
            | SwapState::RollRestore { k, .. } | SwapState::Cleanup { k } => k >= 1,
            _ => true,
        },
    ensures
        swap_step_of(*s, a, lang@),
{
    match s {
        SwapState::ClearAside { i } => SwapAction::RemoveAside(*i),
        SwapState::Probe { i } => SwapAction::ProbeTarget(*i),
        SwapState::MoveAside { i } => SwapAction::MoveTargetAside(*i),
        SwapState::Copy { i } => SwapAction::CopyIn(*i),
        SwapState::UndoRemove { i, .. } => SwapAction::RemoveTarget(*i),
        SwapState::UndoProbe { i, .. } => SwapAction::ProbeAside(*i),
        SwapState::UndoRestore { i, .. } => SwapAction::MoveAsideBack(*i),
        SwapState::RollRemove { k, .. } => SwapAction::RemoveTarget(*k - 1),
        SwapState::RollProbe { k, .. } => SwapAction::ProbeAside(*k - 1),
        SwapState::RollRestore { k, .. } => SwapAction::MoveAsideBack(*k - 1),
        SwapState::Cleanup { k } => SwapAction::RemoveAside(*k - 1),
        SwapState::Finished { failure } => match failure {
            None => SwapAction::Finish(Ok(())),
            Some(d) => SwapAction::Finish(Err(err1(lang, Key::ImportBackupFailed, d.as_str()))),
        },
    }
}

/// Starts swapping `n` targets (at least one).
pub fn swap_start(n: usize, lang: &str) -> (r: (SwapState, SwapAction))
    requires
        n >= 1,
    ensures
        r.0 == (SwapState::ClearAside { i: 0 }),
        swap_step_of(r.0, r.1, lang@),
{
    let s = SwapState::ClearAside { i: 0 };
    let a = swap_action_for(&s, lang);
    (s, a)
}

/// One swap step over `n` targets: from state `s` and the outcome `ev` of
/// its step, the next state and the step to perform next.
pub fn swap_next(n: usize, s: SwapState, ev: SwapOutcome, lang: &str) -> (r: (SwapState, SwapAction))
    requires
        swap_state_ok(n, s),
    ensures
        r.0 == swap_transition(n, s, ev),
        swap_state_ok(n, r.0),
        swap_step_of(r.0, r.1, lang@),
{
    let next = match s {
        SwapState::ClearAside { i } => SwapState::Probe { i },
        SwapState::Probe { i } => match ev {
            SwapOutcome::Present(true) => SwapState::MoveAside { i },
            _ => SwapState::Copy { i },
        },
        SwapState::MoveAside { i } => match ev {
            SwapOutcome::Failed(e) => if i == 0 {
                SwapState::Finished { failure: Some(e) }
            } else {
                SwapState::RollRemove { k: i, detail: e }
            },
            _ => SwapState::Copy { i },
        },
        SwapState::Copy { i } => match ev {
            SwapOutcome::Failed(e) => SwapState::UndoRemove { i, detail: e },
            _ => if i + 1 < n {
                SwapState::ClearAside { i: i + 1 }
            } else {
                SwapState::Cleanup { k: n }
            },
        },
        SwapState::UndoRemove { i, detail } => SwapState::UndoProbe { i, detail },
        SwapState::UndoProbe { i, detail } => match ev {
            SwapOutcome::Present(true) => SwapState::UndoRestore { i, detail },
            _ => if i == 0 {
                SwapState::Finished { failure: Some(detail) }
            } else {
                SwapState::RollRemove { k: i, detail }
            },
        },
        SwapState::UndoRestore { i, detail } => if i == 0 {
            SwapState::Finished { failure: Some(detail) }
        } else {
            SwapState::RollRemove { k: i, detail }
        },
        SwapState::RollRemove { k, detail } => SwapState::RollProbe { k, detail },
        SwapState::RollProbe { k, detail } => match ev {
            SwapOutcome::Present(true) => SwapState::RollRestore { k, detail },
            _ => if k - 1 == 0 {
                SwapState::Finished { failure: Some(detail) }
            } else {
                SwapState::RollRemove { k: k - 1, detail }
            },
        },
        SwapState::RollRestore { k, detail } => if k - 1 == 0 {
            SwapState::Finished { failure: Some(detail) }
        } else {
            SwapState::RollRemove { k: k - 1, detail }
        },
        SwapState::Cleanup { k } => if k <= 1 {
            SwapState::Finished { failure: None }
        } else {
            SwapState::Cleanup { k: k - 1 }
        },
        SwapState::Finished { failure } => SwapState::Finished { failure },
    };
    let a = swap_action_for(&next, lang);
    (next, a)
}

// ─── The folders a swap works on ─────────────────────────────────────────

/// What a folder holds: the local skin it held before, the backup's copy,
/// or something else (a half copy, a stray folder).
pub enum Held {
    Local,
    Backup,
    Other,
}

/// Each target's folder and aside folder.
pub struct SwapFolders {
    pub target: Seq<Option<Held>>,
    pub aside: Seq<Option<Held>>,
}

/// What the step of `s` did to the folders, given its outcome.  A failed
/// step changes nothing, except a failed copy, which may leave a half copy.
pub open spec fn swap_effect(s: SwapState, f: SwapFolders, ev: SwapOutcome) -> SwapFolders {
    let done = ev is Done;
    match s {
        SwapState::ClearAside { i } => if done {
            SwapFolders { aside: f.aside.update(i as int, None), ..f }
        } else {
            f
        },
        SwapState::Cleanup { k } => if done {
            SwapFolders { aside: f.aside.update(k - 1, None), ..f }
        } else {
            f
        },
        SwapState::MoveAside { i } => if done {
            SwapFolders {
                aside: f.aside.update(i as int, f.target[i as int]),
                target: f.target.update(i as int, None),
            }
        } else {
            f
        },
        SwapState::Copy { i } => SwapFolders {
            target: f.target.update(i as int, Some(if done { Held::Backup } else { Held::Other })),
            ..f
        },
        SwapState::UndoRemove { i, .. } => if done {
            SwapFolders { target: f.target.update(i as int, None), ..f }
        } else {
            f
        },
        SwapState::RollRemove { k, .. } => if done {
            SwapFolders { target: f.target.update(k - 1, None), ..f }
        } else {
            f
        },
        SwapState::UndoRestore { i, .. } => if done {
            SwapFolders {
                target: f.target.update(i as int, f.aside[i as int]),
                aside: f.aside.update(i as int, None),
            }
        } else {
            f
        },
        SwapState::RollRestore { k, .. } => if done {
            SwapFolders { target: f.target.update(k - 1, f.aside[k - 1]), aside: f.aside.update(k - 1, None) }
        } else {
            f
        },
        _ => f,
    }
}

/// An outcome that truthfully answers the step of `s` on folders `f`:
/// probes report whether the folder exists; moves, copies and removals
/// report success or failure.  Undoing rests on two operations, taken to
/// succeed: removing a target and moving its previous folder back.
pub open spec fn swap_truthful(s: SwapState, f: SwapFolders, ev: SwapOutcome) -> bool {
    match s {
        SwapState::Probe { i } => ev == SwapOutcome::Present(f.target[i as int] is Some),
        SwapState::UndoProbe { i, .. } => ev == SwapOutcome::Present(f.aside[i as int] is Some),
        SwapState::RollProbe { k, .. } => ev == SwapOutcome::Present(f.aside[k - 1] is Some),
        SwapState::UndoRemove { .. } | SwapState::RollRemove { .. } | SwapState::UndoRestore { .. }
        | SwapState::RollRestore { .. } => ev is Done,
        SwapState::Finished { .. } => true,
        _ => ev is Done || ev is Failed,
    }
}

pub open spec fn swap_run(n: usize, s: SwapState, f: SwapFolders, evs: Seq<SwapOutcome>) -> (SwapState, SwapFolders)
    decreases evs.len(),
{
    if evs.len() == 0 {
        (s, f)
    } else {
        swap_run(n, swap_transition(n, s, evs[0]), swap_effect(s, f, evs[0]), evs.drop_first())
    }
}

pub open spec fn swap_truthful_run(n: usize, s: SwapState, f: SwapFolders, evs: Seq<SwapOutcome>) -> bool
    decreases evs.len(),
{
    evs.len() == 0 || (swap_truthful(s, f, evs[0]) && swap_truthful_run(
        n,
        swap_transition(n, s, evs[0]),
        swap_effect(s, f, evs[0]),
        evs.drop_first(),
    ))
}

/// Targets `lo..n` are as before, their aside folders empty.
pub open spec fn untouched_from(f: SwapFolders, t0: Seq<Option<Held>>, lo: int, n: int) -> bool {
    forall|j: int| #![trigger f.target[j]] lo <= j < n ==> (f.target[j] == t0[j] && f.aside[j] is None)
}

/// Targets `0..k` hold the backup, their previous folders aside.
pub open spec fn swapped_below(f: SwapFolders, t0: Seq<Option<Held>>, k: int) -> bool {
    forall|j: int| #![trigger f.target[j]] 0 <= j < k ==> (f.target[j] == Some(Held::Backup) && f.aside[j] == t0[j])
}

/// What holds in each state, `t0` being the targets before the swap.
pub open spec fn swap_inv(n: usize, s: SwapState, f: SwapFolders, t0: Seq<Option<Held>>) -> bool {
    &&& f.target.len() == n && f.aside.len() == n && t0.len() == n
    &&& swap_state_ok(n, s)
    &&& match s {
        SwapState::ClearAside { i } => swapped_below(f, t0, i as int) && untouched_from(
            f,
            t0,
            i as int,
            n as int,
        ),
        SwapState::Probe { i } => swapped_below(f, t0, i as int) && untouched_from(f, t0, i as int, n as int),
        SwapState::MoveAside { i } => swapped_below(f, t0, i as int) && untouched_from(
            f,
            t0,
            i as int,
            n as int,
        ) && t0[i as int] is Some,
        SwapState::Copy { i } => swapped_below(f, t0, i as int) && untouched_from(
            f,
            t0,
            i + 1,
            n as int,
        ) && f.target[i as int] is None && f.aside[i as int] == t0[i as int],
        SwapState::UndoRemove { i, .. } => swapped_below(f, t0, i as int) && untouched_from(
            f,
            t0,
            i + 1,
            n as int,
        ) && f.aside[i as int] == t0[i as int],
        SwapState::UndoProbe { i, .. } => swapped_below(f, t0, i as int) && untouched_from(
            f,
            t0,
            i + 1,
            n as int,
        ) && f.target[i as int] is None && f.aside[i as int] == t0[i as int],
        SwapState::UndoRestore { i, .. } => swapped_below(f, t0, i as int) && untouched_from(
            f,
            t0,
            i + 1,
            n as int,
        ) && f.target[i as int] is None && f.aside[i as int] == t0[i as int] && t0[i as int] is Some,
        SwapState::RollRemove { k, .. } => swapped_below(f, t0, k - 1) && untouched_from(
            f,
            t0,
            k as int,
            n as int,
        ) && f.aside[k - 1] == t0[k - 1],
        SwapState::RollProbe { k, .. } => swapped_below(f, t0, k - 1) && untouched_from(
            f,
            t0,
            k as int,
            n as int,
        ) && f.target[k - 1] is None && f.aside[k - 1] == t0[k - 1],
        SwapState::RollRestore { k, .. } => swapped_below(f, t0, k - 1) && untouched_from(
            f,
            t0,
            k as int,
            n as int,
        ) && f.target[k - 1] is None && f.aside[k - 1] == t0[k - 1] && t0[k - 1] is Some,
        SwapState::Cleanup { k } => forall|j: int| 0 <= j < n ==> #[trigger] f.target[j] == Some(Held::Backup),
        SwapState::Finished { failure } => match failure {
            Some(_) => forall|j: int| 0 <= j < n ==> #[trigger] f.target[j] == t0[j],
            None => forall|j: int| 0 <= j < n ==> #[trigger] f.target[j] == Some(Held::Backup),
        },
    }
}

/// Folders that differ from `f` at most at index `idx`.
pub open spec fn same_except(f: SwapFolders, f2: SwapFolders, idx: int) -> bool {
    &&& f2.target.len() == f.target.len() && f2.aside.len() == f.aside.len()
    &&& forall|j: int| 0 <= j < f.target.len() && j != idx ==> #[trigger] f2.target[j] == f.target[j]
    &&& forall|j: int| 0 <= j < f.aside.len() && j != idx ==> #[trigger] f2.aside[j] == f.aside[j]
}

proof fn lemma_frame(f: SwapFolders, f2: SwapFolders, t0: Seq<Option<Held>>, idx: int, lo: int, hi: int, k: int)
    requires
        same_except(f, f2, idx),
        0 <= lo,
        hi <= f.target.len(),
        hi <= f.aside.len(),
    ensures
        untouched_from(f, t0, lo, hi) && (idx < lo || idx >= hi) ==> untouched_from(f2, t0, lo, hi),
        swapped_below(f, t0, k) && k <= f.target.len() && k <= f.aside.len() && idx >= k
            ==> swapped_below(f2, t0, k),
{
    if untouched_from(f, t0, lo, hi) && (idx < lo || idx >= hi) {
        assert forall|j: int| lo <= j < hi implies (#[trigger] f2.target[j] == t0[j] && f2.aside[j] is None) by {
            assert(f.target[j] == t0[j]);
        }
    }
    if swapped_below(f, t0, k) && k <= f.target.len() && k <= f.aside.len() && idx >= k {
        assert forall|j: int| 0 <= j < k implies (#[trigger] f2.target[j] == Some(Held::Backup) && f2.aside[j] == t0[j]) by {
            assert(f.target[j] == Some(Held::Backup));
        }
    }
}

proof fn lemma_untouched_all(f: SwapFolders, t0: Seq<Option<Held>>, n: int)
    requires
        untouched_from(f, t0, 0, n),
    ensures
        forall|j: int| 0 <= j < n ==> #[trigger] f.target[j] == t0[j],
{
    assert forall|j: int| 0 <= j < n implies #[trigger] f.target[j] == t0[j] by {
        assert(0 <= j < n);
        let t = f.target[j];
        assert(t == t0[j]);
    }
}

/// The index whose folders the step of `s` may change.
pub open spec fn step_index(s: SwapState) -> int {
    match s {
        SwapState::ClearAside { i } | SwapState::Probe { i } | SwapState::MoveAside { i }
        | SwapState::Copy { i } | SwapState::UndoRemove { i, .. } | SwapState::UndoProbe { i, .. }
        | SwapState::UndoRestore { i, .. } => i as int,
        SwapState::RollRemove { k, .. } | SwapState::RollProbe { k, .. }
        | SwapState::RollRestore { k, .. } | SwapState::Cleanup { k } => k - 1,
        SwapState::Finished { .. } => -1,
    }
}

proof fn lemma_effect_local(n: usize, s: SwapState, f: SwapFolders, ev: SwapOutcome)
    requires
        f.target.len() == n,
        f.aside.len() == n,
        swap_state_ok(n, s),
    ensures
        same_except(f, swap_effect(s, f, ev), step_index(s)),
{
}

proof fn lemma_untouched_weaken(f: SwapFolders, t0: Seq<Option<Held>>, lo: int, n: int)
    requires
        untouched_from(f, t0, lo, n),
    ensures
        untouched_from(f, t0, lo + 1, n),
{
}

proof fn lemma_untouched_split(f: SwapFolders, t0: Seq<Option<Held>>, lo: int, n: int)
    requires
        0 <= lo < n,
    ensures
        untouched_from(f, t0, lo, n) <==> (untouched_from(f, t0, lo + 1, n) && f.target[lo] == t0[lo]
            && f.aside[lo] is None),
{
    if untouched_from(f, t0, lo, n) {
        lemma_untouched_weaken(f, t0, lo, n);
        assert(f.target[lo] == t0[lo]);
    }
    if untouched_from(f, t0, lo + 1, n) && f.target[lo] == t0[lo] && f.aside[lo] is None {
        assert forall|j: int| #![trigger f.target[j]] lo <= j < n implies (f.target[j] == t0[j]
            && f.aside[j] is None) by {
            if j > lo {
                assert(f.target[j] == t0[j]);
            }
        }
    }
}

proof fn lemma_swapped_split(f: SwapFolders, t0: Seq<Option<Held>>, k: int)
    requires
        0 <= k,
    ensures
        swapped_below(f, t0, k + 1) <==> (swapped_below(f, t0, k) && f.target[k] == Some(Held::Backup)
            && f.aside[k] == t0[k]),
{
    if swapped_below(f, t0, k) && f.target[k] == Some(Held::Backup) && f.aside[k] == t0[k] {
        assert forall|j: int| #![trigger f.target[j]] 0 <= j < k + 1 implies (f.target[j] == Some(
            Held::Backup,
        ) && f.aside[j] == t0[j]) by {
            if j < k {
                assert(f.target[j] == Some(Held::Backup));
            }
        }
    }
    if swapped_below(f, t0, k + 1) {
        assert(f.target[k] == Some(Held::Backup));
        assert forall|j: int| #![trigger f.target[j]] 0 <= j < k implies (f.target[j] == Some(
            Held::Backup,
        ) && f.aside[j] == t0[j]) by {
            assert(f.target[j] == Some(Held::Backup));
        }
    }
}

/// Rolling back from `k` swapped targets, with targets `k..n` as before.
proof fn lemma_roll_from(n: usize, k: usize, d: String, f: SwapFolders, t0: Seq<Option<Held>>)
    requires
        f.target.len() == n && f.aside.len() == n && t0.len() == n,
        k <= n,
        swapped_below(f, t0, k as int),
        untouched_from(f, t0, k as int, n as int),
    ensures
        swap_inv(n, roll_from(k, d), f, t0),
{
    if k == 0 {
        lemma_untouched_all(f, t0, n as int);
    } else {
        lemma_swapped_split(f, t0, k - 1);
    }
}

#[verifier::spinoff_prover]
#[verifier::rlimit(30)]
proof fn lemma_swap_step(n: usize, s: SwapState, f: SwapFolders, ev: SwapOutcome, t0: Seq<Option<Held>>)
    requires
        swap_inv(n, s, f, t0),
        swap_truthful(s, f, ev),
    ensures
        swap_inv(n, swap_transition(n, s, ev), swap_effect(s, f, ev), t0),
{
    let f2 = swap_effect(s, f, ev);
    lemma_effect_local(n, s, f, ev);
    let nn = n as int;
    match s {
        SwapState::ClearAside { i } => {
            let ii = i as int;
            lemma_untouched_split(f, t0, ii, nn);
            lemma_frame(f, f2, t0, ii, ii + 1, nn, ii);
            lemma_untouched_split(f2, t0, ii, nn);
        },
        SwapState::Probe { i } => {
            let ii = i as int;
            lemma_untouched_split(f, t0, ii, nn);
        },
        SwapState::MoveAside { i } => {
            let ii = i as int;
            lemma_untouched_split(f, t0, ii, nn);
            lemma_frame(f, f2, t0, ii, ii + 1, nn, ii);
            if ev is Failed {
                lemma_roll_from(n, i, ev->Failed_0, f, t0);
            }
        },
        SwapState::Copy { i } => {
            let ii = i as int;
            lemma_frame(f, f2, t0, ii, ii + 1, nn, ii);
            if ev is Done {
                lemma_swapped_split(f2, t0, ii);
                if i + 1 == n {
                    assert forall|j: int| 0 <= j < nn implies #[trigger] f2.target[j] == Some(Held::Backup) by {
                        assert(swapped_below(f2, t0, ii + 1));
                        assert(f2.target[j] == Some(Held::Backup));
                    }
                }
            }
        },
        SwapState::UndoRemove { i, .. } => {
            let ii = i as int;
            lemma_frame(f, f2, t0, ii, ii + 1, nn, ii);
        },
        SwapState::UndoProbe { i, detail } => {
            let ii = i as int;
            if ev != SwapOutcome::Present(true) {
                lemma_untouched_split(f, t0, ii, nn);
                lemma_roll_from(n, i, detail, f, t0);
            }
        },
        SwapState::UndoRestore { i, detail } => {
            let ii = i as int;
            lemma_frame(f, f2, t0, ii, ii + 1, nn, ii);
            lemma_untouched_split(f2, t0, ii, nn);
            lemma_roll_from(n, i, detail, f2, t0);
        },
        SwapState::RollRemove { k, .. } => {
            let kk = k - 1;
            lemma_frame(f, f2, t0, kk, kk + 1, nn, kk);
            lemma_frame(f, f2, t0, kk, k as int, nn, kk);
        },
        SwapState::RollProbe { k, detail } => {
            let kk = k - 1;
            if ev != SwapOutcome::Present(true) {
                lemma_untouched_split(f, t0, kk, nn);
                lemma_roll_from(n, (k - 1) as usize, detail, f, t0);
            }
        },
        SwapState::RollRestore { k, detail } => {
            let kk = k - 1;
            lemma_frame(f, f2, t0, kk, kk + 1, nn, kk);
            lemma_frame(f, f2, t0, kk, k as int, nn, kk);
            lemma_untouched_split(f2, t0, kk, nn);
            lemma_roll_from(n, (k - 1) as usize, detail, f2, t0);
        },
        SwapState::Cleanup { k } => {
            assert forall|j: int| 0 <= j < nn implies #[trigger] f2.target[j] == Some(Held::Backup) by {
                assert(f.target[j] == Some(Held::Backup));
            }
        },
        SwapState::Finished { .. } => {},
    }
}

proof fn lemma_swap_run(n: usize, s: SwapState, f: SwapFolders, evs: Seq<SwapOutcome>, t0: Seq<Option<Held>>)
    requires
        swap_inv(n, s, f, t0),
        swap_truthful_run(n, s, f, evs),
    ensures
        swap_inv(n, swap_run(n, s, f, evs).0, swap_run(n, s, f, evs).1, t0),
    decreases evs.len(),
{
    if evs.len() > 0 {
        lemma_swap_step(n, s, f, evs[0], t0);
        lemma_swap_run(n, swap_transition(n, s, evs[0]), swap_effect(s, f, evs[0]), evs.drop_first(), t0);
    }
}

/// An import swaps all or none: started on `n` targets with no
/// aside folders left over, when the operations report truthfully and the
/// undo steps succeed, a failed swap leaves every target as it was, and a
/// successful one leaves every target holding the backup's copy.
pub proof fn law_swap_all_or_none(n: usize, f0: SwapFolders, evs: Seq<SwapOutcome>)
    requires
        n >= 1,
        f0.target.len() == n,
        f0.aside.len() == n,
        forall|j: int| 0 <= j < n ==> #[trigger] f0.aside[j] is None,
        swap_truthful_run(n, SwapState::ClearAside { i: 0 }, f0, evs),
    ensures
        ({
            let (s, f) = swap_run(n, SwapState::ClearAside { i: 0 }, f0, evs);
            &&& s matches SwapState::Finished { failure: Some(_) } ==> forall|j: int|
                0 <= j < n ==> #[trigger] f.target[j] == f0.target[j]
            &&& s matches SwapState::Finished { failure: None } ==> forall|j: int|
                0 <= j < n ==> #[trigger] f.target[j] == Some(Held::Backup)
        }),
{
    assert forall|j: int| 0 <= j < n implies (#[trigger] f0.target[j] == f0.target[j] && f0.aside[j] is None) by {}
    assert(untouched_from(f0, f0.target, 0, n as int));
    assert(swapped_below(f0, f0.target, 0));
    lemma_swap_run(n, SwapState::ClearAside { i: 0 }, f0, evs, f0.target);
}

/// What a start does with one data folder after an interrupted import.
#[derive(Debug, Clone, Copy, PartialEq, Eq, Structural)]
pub enum RestoreStep {
    /// No set-aside copy: the import finished or never began.
    Leave,
    /// The set-aside copy goes back in place, after removing what stands
    /// there when something does (`clear_first`).
    PutBack { clear_first: bool },
}

/// Whenever the set-aside copy of a folder survives, the import was cut
/// off while swapping: the copy is put back, whether the folder is missing,
/// half-written or complete, since only the copy is known to be whole.
pub fn restore_step(aside_exists: bool, folder_exists: bool) -> (r: RestoreStep)
    ensures
        r == if aside_exists {
            RestoreStep::PutBack { clear_first: folder_exists }
        } else {
            RestoreStep::Leave
        },
{
    if aside_exists {
        RestoreStep::PutBack { clear_first: folder_exists }
    } else {
        RestoreStep::Leave
    }
}

} // verus!
