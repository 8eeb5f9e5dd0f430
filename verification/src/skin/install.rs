//! The staged install of a skin package, as a sequence of folder steps
//! decided here and performed by the caller: the package is copied to a
//! staging folder, an installed version is moved aside, the staging folder
//! takes its place, the user's settings.json is carried over, and the old
//! version is removed.  A failure before the new version is in place puts
//! the installed version back; one while carrying the settings over keeps
//! the old version aside.

use vstd::prelude::*;
use crate::commands::{err1, msg1};
use crate::i18n::Key;

verus! {

/// Where a staged install stands; each state waits for the outcome of its
/// step (see [`step_of`]).
#[derive(Debug)]
pub enum InstallState {
    /// Removing a staging folder left over by an earlier attempt.
    ClearingStaging,
    /// Removing an aside folder left over by an earlier attempt.
    ClearingOld,
    /// Copying the package's skin folder to the staging folder.
    Copying,
    /// Asking whether the skin is installed already.
    Probing,
    /// Moving the installed version aside.
    MovingAside,
    /// Moving the staging folder into place (`had_dest`: a previous
    /// version was moved aside).
    Placing { had_dest: bool },
    /// Moving the previous version back after placing failed.
    RollingBack { detail: String },
    /// Removing the staging folder before reporting `key` with `detail`.
    Aborting { key: Key, detail: String },
    /// Reading the previous version's settings.json.
    ReadingSettings,
    /// Writing those settings into the new version.
    WritingSettings { bytes: Vec<u8> },
    /// Removing the previous version.
    CleaningOld,
    /// Done: installed, or failed with `key` and `detail`.
    Finished { failure: Option<(Key, String)> },
}

/// What the caller reports of the step it performed.
#[derive(Debug)]
pub enum StepOutcome {
    /// The step succeeded.
    Done,
    /// The step failed, with the error text.
    Failed(String),
    /// Whether the skin's folder exists (the answer to probing).
    Present(bool),
    /// The previous settings.json was read: its bytes.
    Read(Vec<u8>),
    /// The previous version has no settings.json.
    NotFound,
}

/// A folder step for the caller to perform.
#[derive(Debug)]
pub enum InstallAction {
    RemoveStaging,
    RemoveOld,
    CopyToStaging,
    ProbeDest,
    MoveDestAside,
    MoveStagingToDest,
    MoveOldBack,
    ReadOldSettings,
    /// Write these bytes as the new version's settings.json.
    WriteSettings(Vec<u8>),
    /// The install is over, with this result.
    Finish(Result<(), String>),
}

/// The state the install starts in.
pub open spec fn install_begin() -> InstallState {
    InstallState::ClearingStaging
}

/// The next state after the outcome `ev` of the current state's step.
pub open spec fn install_transition(s: InstallState, ev: StepOutcome) -> InstallState {
    match s {
        InstallState::ClearingStaging => InstallState::ClearingOld,
        InstallState::ClearingOld => InstallState::Copying,
        InstallState::Copying => match ev {
            StepOutcome::Failed(e) => InstallState::Aborting { key: Key::InstallSkinFailed, detail: e },
            _ => InstallState::Probing,
        },
        InstallState::Probing => match ev {
            StepOutcome::Present(true) => InstallState::MovingAside,
            _ => InstallState::Placing { had_dest: false },
        },
        InstallState::MovingAside => match ev {
            StepOutcome::Failed(e) => InstallState::Aborting { key: Key::ReplaceOldDirFailed, detail: e },
            _ => InstallState::Placing { had_dest: true },
        },
        InstallState::Placing { had_dest } => match ev {
            StepOutcome::Failed(e) => if had_dest {
                InstallState::RollingBack { detail: e }
            } else {
                InstallState::Aborting { key: Key::InstallSkinFailed, detail: e }
            },
            _ => if had_dest {
                InstallState::ReadingSettings
            } else {
                InstallState::Finished { failure: None }
            },
        },
        InstallState::RollingBack { detail } => InstallState::Aborting {
            key: Key::InstallSkinFailed,
            detail,
        },
        InstallState::Aborting { key, detail } => InstallState::Finished { failure: Some((key, detail)) },
        InstallState::ReadingSettings => match ev {
            StepOutcome::Read(b) => InstallState::WritingSettings { bytes: b },
            StepOutcome::NotFound => InstallState::CleaningOld,
            _ => InstallState::Finished { failure: None },
        },
        InstallState::WritingSettings { .. } => match ev {
            StepOutcome::Failed(e) => InstallState::Finished {
                failure: Some((Key::RestoreSettingsFailed, e)),
            },
            _ => InstallState::CleaningOld,
        },
        InstallState::CleaningOld => InstallState::Finished { failure: None },
        InstallState::Finished { failure } => InstallState::Finished { failure },
    }
}

/// The step a state waits on, for `lang`: the action the caller performs.
pub open spec fn step_of(s: InstallState, a: InstallAction, lang: Seq<char>) -> bool {
    match s {
        InstallState::ClearingStaging => a is RemoveStaging,
        InstallState::ClearingOld => a is RemoveOld,
        InstallState::Copying => a is CopyToStaging,
        InstallState::Probing => a is ProbeDest,
        InstallState::MovingAside => a is MoveDestAside,
        InstallState::Placing { .. } => a is MoveStagingToDest,
        InstallState::RollingBack { .. } => a is MoveOldBack,
        InstallState::Aborting { .. } => a is RemoveStaging,
        InstallState::ReadingSettings => a is ReadOldSettings,
        InstallState::WritingSettings { bytes } => a matches InstallAction::WriteSettings(b) && b@
            == bytes@,
        InstallState::CleaningOld => a is RemoveOld,
        InstallState::Finished { failure } => match failure {
            None => a matches InstallAction::Finish(Ok(())),
            Some((key, detail)) => a matches InstallAction::Finish(Err(m)) && m@ == msg1(
                lang,
                key,
                detail@,
            ),
        },
    }
}

fn action_for(s: &InstallState, lang: &str) -> (a: InstallAction)
    ensures
        step_of(*s, a, lang@),
{
    match s {
        InstallState::ClearingStaging => InstallAction::RemoveStaging,
        InstallState::ClearingOld => InstallAction::RemoveOld,
        InstallState::Copying => InstallAction::CopyToStaging,
        InstallState::Probing => InstallAction::ProbeDest,
        InstallState::MovingAside => InstallAction::MoveDestAside,
        InstallState::Placing { .. } => InstallAction::MoveStagingToDest,
        InstallState::RollingBack { .. } => InstallAction::MoveOldBack,
        InstallState::Aborting { .. } => InstallAction::RemoveStaging,
        InstallState::ReadingSettings => InstallAction::ReadOldSettings,
        InstallState::WritingSettings { bytes } => {
            let mut b: Vec<u8> = Vec::new();
            let mut i: usize = 0;
            while i < bytes.len()
                invariant
                    i <= bytes.len(),
                    b@ == bytes@.take(i as int),
                decreases bytes.len() - i,
            {
                b.push(bytes[i]);
                i = i + 1;
                assert(b@ =~= bytes@.take(i as int));
            }
            assert(bytes@.take(bytes.len() as int) =~= bytes@);
            InstallAction::WriteSettings(b)
        },
        InstallState::CleaningOld => InstallAction::RemoveOld,
        InstallState::Finished { failure } => match failure {
            None => InstallAction::Finish(Ok(())),
            Some((key, detail)) => InstallAction::Finish(Err(err1(lang, *key, detail.as_str()))),
        },
    }
}

/// Starts an install: the first state and the step to perform.
pub fn install_start(lang: &str) -> (r: (InstallState, InstallAction))
    ensures
        r.0 == install_begin(),
        step_of(r.0, r.1, lang@),
{
    let s = InstallState::ClearingStaging;
    let a = action_for(&s, lang);
    (s, a)
}

/// One install step: from state `s` and the outcome `ev` of its step, the
/// next state and the step to perform next.
pub fn install_next(s: InstallState, ev: StepOutcome, lang: &str) -> (r: (InstallState, InstallAction))
    ensures
        r.0 == install_transition(s, ev),
        step_of(r.0, r.1, lang@),
{
    let next = match s {
        InstallState::ClearingStaging => InstallState::ClearingOld,
        InstallState::ClearingOld => InstallState::Copying,
        InstallState::Copying => match ev {
            StepOutcome::Failed(e) => InstallState::Aborting { key: Key::InstallSkinFailed, detail: e },
            _ => InstallState::Probing,
        },
        InstallState::Probing => match ev {
            StepOutcome::Present(true) => InstallState::MovingAside,
            _ => InstallState::Placing { had_dest: false },
        },
        InstallState::MovingAside => match ev {
            StepOutcome::Failed(e) => InstallState::Aborting { key: Key::ReplaceOldDirFailed, detail: e },
            _ => InstallState::Placing { had_dest: true },
        },
        InstallState::Placing { had_dest } => match ev {
            StepOutcome::Failed(e) => if had_dest {
                InstallState::RollingBack { detail: e }
            } else {
                InstallState::Aborting { key: Key::InstallSkinFailed, detail: e }
            },
            _ => if had_dest {
                InstallState::ReadingSettings
            } else {
                InstallState::Finished { failure: None }
            },
        },
        InstallState::RollingBack { detail } => InstallState::Aborting {
            key: Key::InstallSkinFailed,
            detail,
        },
        InstallState::Aborting { key, detail } => InstallState::Finished { failure: Some((key, detail)) },
        InstallState::ReadingSettings => match ev {
            StepOutcome::Read(b) => InstallState::WritingSettings { bytes: b },
            StepOutcome::NotFound => InstallState::CleaningOld,
            _ => InstallState::Finished { failure: None },
        },
        InstallState::WritingSettings { .. } => match ev {
            StepOutcome::Failed(e) => InstallState::Finished {
                failure: Some((Key::RestoreSettingsFailed, e)),
            },
            _ => InstallState::CleaningOld,
        },
        InstallState::CleaningOld => InstallState::Finished { failure: None },
        InstallState::Finished { failure } => InstallState::Finished { failure },
    };
    let a = action_for(&next, lang);
    (next, a)
}

// ─── The folders an install works on ─────────────────────────────────────

/// Which version a folder holds.
pub enum Origin {
    /// The version installed before.
    Previous,
    /// The package being installed.
    Package,
    /// A copy that failed half-way.
    Partial,
}

/// A skin folder: which version it holds and its settings.json, if any.
pub struct FolderModel {
    pub origin: Origin,
    pub settings: Option<Seq<u8>>,
}

/// The three folders of an install: the skin's folder, the staging folder
/// and the aside folder.
pub struct FoldersModel {
    pub dest: Option<FolderModel>,
    pub staging: Option<FolderModel>,
    pub aside: Option<FolderModel>,
}

/// What the current step of `s` did to the folders, given its outcome
/// `ev`; `pkg` is the package's folder as copied.  A failed step changes
/// nothing, except a failed copy, which may leave a partial folder.
pub open spec fn folder_effect(s: InstallState, f: FoldersModel, ev: StepOutcome, pkg: FolderModel) -> FoldersModel {
    let done = ev is Done;
    match s {
        InstallState::ClearingStaging | InstallState::Aborting { .. } => if done {
            FoldersModel { staging: None, ..f }
        } else {
            f
        },
        InstallState::ClearingOld | InstallState::CleaningOld => if done {
            FoldersModel { aside: None, ..f }
        } else {
            f
        },
        InstallState::Copying => if done {
            FoldersModel { staging: Some(pkg), ..f }
        } else {
            FoldersModel { staging: Some(FolderModel { origin: Origin::Partial, settings: None }), ..f }
        },
        InstallState::MovingAside => if done {
            FoldersModel { aside: f.dest, dest: None, ..f }
        } else {
            f
        },
        InstallState::Placing { .. } => if done {
            FoldersModel { dest: f.staging, staging: None, ..f }
        } else {
            f
        },
        InstallState::RollingBack { .. } => if done {
            FoldersModel { dest: f.aside, aside: None, ..f }
        } else {
            f
        },
        InstallState::WritingSettings { bytes } => if done {
            match f.dest {
                Some(d) => FoldersModel {
                    dest: Some(FolderModel { settings: Some(bytes@), ..d }),
                    ..f
                },
                None => f,
            }
        } else {
            f
        },
        _ => f,
    }
}

/// An outcome that truthfully answers the step of `s` on folders `f`:
/// folder moves, copies, removals and writes report success or failure;
/// probing reports whether the skin's folder exists; reading the settings
/// reports what the aside folder holds (or fails).  Moving the previous
/// version back is taken to succeed: that one rename is what the rollback
/// rests on.
pub open spec fn truthful(s: InstallState, f: FoldersModel, ev: StepOutcome) -> bool {
    match s {
        InstallState::Probing => ev == StepOutcome::Present(f.dest is Some),
        InstallState::ReadingSettings => match ev {
            StepOutcome::Read(b) => f.aside matches Some(a) && a.settings == Some(b@),
            StepOutcome::NotFound => f.aside matches Some(a) && a.settings is None,
            StepOutcome::Failed(_) => true,
            _ => false,
        },
        InstallState::RollingBack { .. } => ev is Done,
        InstallState::Finished { .. } => true,
        _ => ev is Done || ev is Failed,
    }
}

/// Runs the install from `s` on folders `f` through the outcomes `evs`:
/// the final state and folders.
pub open spec fn install_run(s: InstallState, f: FoldersModel, evs: Seq<StepOutcome>, pkg: FolderModel) -> (
    InstallState,
    FoldersModel,
)
    decreases evs.len(),
{
    if evs.len() == 0 {
        (s, f)
    } else {
        install_run(
            install_transition(s, evs[0]),
            folder_effect(s, f, evs[0], pkg),
            evs.drop_first(),
            pkg,
        )
    }
}

/// Every outcome of the run is truthful.
pub open spec fn truthful_run(s: InstallState, f: FoldersModel, evs: Seq<StepOutcome>, pkg: FolderModel) -> bool
    decreases evs.len(),
{
    evs.len() == 0 || (truthful(s, f, evs[0]) && truthful_run(
        install_transition(s, evs[0]),
        folder_effect(s, f, evs[0], pkg),
        evs.drop_first(),
        pkg,
    ))
}

/// What holds of the folders in each state, `d0` being the skin's folder
/// before the install.
pub open spec fn install_inv(s: InstallState, f: FoldersModel, d0: Option<FolderModel>) -> bool {
    match s {
        InstallState::ClearingStaging | InstallState::ClearingOld | InstallState::Copying => f.dest == d0,
        InstallState::Probing => f.dest == d0 && f.staging is Some,
        InstallState::MovingAside => f.dest == d0 && d0 is Some && f.staging is Some,
        InstallState::Placing { had_dest } => f.staging is Some && if had_dest {
            f.dest is None && f.aside == d0 && d0 is Some
        } else {
            f.dest == d0 && d0 is None
        },
        InstallState::RollingBack { .. } => f.dest is None && f.aside == d0,
        InstallState::Aborting { key, .. } => f.dest == d0 && key != Key::RestoreSettingsFailed,
        InstallState::ReadingSettings => f.aside == d0 && d0 is Some && f.dest is Some,
        InstallState::WritingSettings { bytes } => f.aside == d0 && f.dest is Some && (d0 matches Some(
            p,
        ) && p.settings == Some(bytes@)),
        InstallState::CleaningOld => f.dest is Some && (d0 is Some && d0->0.settings is Some
            ==> f.dest->0.settings == d0->0.settings),
        InstallState::Finished { failure } => match failure {
            Some((key, _)) => if key == Key::RestoreSettingsFailed {
                f.aside == d0
            } else {
                f.dest == d0
            },
            None => d0 is Some && d0->0.settings is Some ==> (f.aside == d0 || (f.dest is Some
                && f.dest->0.settings == d0->0.settings)),
        },
    }
}

proof fn lemma_install_step(s: InstallState, f: FoldersModel, ev: StepOutcome, pkg: FolderModel, d0: Option<FolderModel>)
    requires
        install_inv(s, f, d0),
        truthful(s, f, ev),
    ensures
        install_inv(install_transition(s, ev), folder_effect(s, f, ev, pkg), d0),
{
}

proof fn lemma_install_run(s: InstallState, f: FoldersModel, evs: Seq<StepOutcome>, pkg: FolderModel, d0: Option<FolderModel>)
    requires
        install_inv(s, f, d0),
        truthful_run(s, f, evs, pkg),
    ensures
        install_inv(install_run(s, f, evs, pkg).0, install_run(s, f, evs, pkg).1, d0),
    decreases evs.len(),
{
    if evs.len() > 0 {
        lemma_install_step(s, f, evs[0], pkg, d0);
        lemma_install_run(
            install_transition(s, evs[0]),
            folder_effect(s, f, evs[0], pkg),
            evs.drop_first(),
            pkg,
            d0,
        );
    }
}

/// A failed install leaves the skin's folder as it was: whatever step
/// fails, the steps that follow put the installed version back in place
/// (or, when no version was installed, leave none), provided the folder
/// operations report truthfully and moving the previous version back
/// succeeds.  The one exception is a failure to carry the settings over,
/// after the new version is in place: then the previous version is kept
/// aside, settings included.
pub proof fn law_failed_install_restores(f0: FoldersModel, evs: Seq<StepOutcome>, pkg: FolderModel)
    requires
        truthful_run(install_begin(), f0, evs, pkg),
    ensures
        ({
            let (s, f) = install_run(install_begin(), f0, evs, pkg);
            s matches InstallState::Finished { failure: Some((key, _)) } ==> if key
                == Key::RestoreSettingsFailed {
                f.aside == f0.dest
            } else {
                f.dest == f0.dest
            }
        }),
{
    lemma_install_run(install_begin(), f0, evs, pkg, f0.dest);
}

/// A successful update carries the user's settings over: when the
/// installed version had a settings.json, after a successful install the
/// new version holds the same settings, or (when they could not be read)
/// the previous version is kept aside with them.
pub proof fn law_update_keeps_settings(f0: FoldersModel, evs: Seq<StepOutcome>, pkg: FolderModel)
    requires
        truthful_run(install_begin(), f0, evs, pkg),
        f0.dest matches Some(p) && p.settings is Some,
    ensures
        ({
            let (s, f) = install_run(install_begin(), f0, evs, pkg);
            s matches InstallState::Finished { failure: None } ==> (f.aside == f0.dest || (f.dest matches Some(
                n,
            ) && n.settings == f0.dest->0.settings))
        }),
{
    lemma_install_run(install_begin(), f0, evs, pkg, f0.dest);
}

} // verus!
