use vstd::prelude::*;
use crate::error::PasswdError;

verus! {

/// A path is absolute when it starts at the root, with a `/`.
pub open spec fn is_absolute_path(p: Seq<char>) -> bool {
    p.len() > 0 && p[0] == '/'
}

/// Where a change of filesystem root stands.
#[derive(Debug, Clone, Copy, PartialEq, Eq)]
pub enum AnchorState {
    /// The target is being examined, without following a final symlink.
    Probing,
    /// The working directory is being moved to the target.
    ChangingDir,
    /// The root is being moved to the target.
    ChangingRoot,
    /// The root is the target; this cannot be undone.
    Anchored,
    /// A step failed; nothing more is done.
    Failed,
}

/// What the caller does next.
#[derive(Debug, Clone, PartialEq, Eq)]
pub enum AnchorAction {
    /// Examine the target's metadata and report the outcome.
    Probe,
    /// Make the target the working directory and report the outcome.
    ChangeDir,
    /// Make the target the root and report the outcome.
    ChangeRoot,
    /// The change is complete.
    Finish,
    /// Abort the command with this error.
    Abort(PasswdError),
}

/// The step that follows `state` once its action reported `outcome`.
pub open spec fn anchor_next(state: AnchorState, outcome: Result<(), String>) -> (
    AnchorState,
    AnchorAction,
) {
    match (state, outcome) {
        (AnchorState::Probing, Ok(())) => (AnchorState::ChangingDir, AnchorAction::ChangeDir),
        (AnchorState::Probing, Err(e)) => (
            AnchorState::Failed,
            AnchorAction::Abort(PasswdError::Inaccessible(e)),
        ),
        (AnchorState::ChangingDir, Ok(())) => (AnchorState::ChangingRoot, AnchorAction::ChangeRoot),
        (_, Ok(())) => (AnchorState::Anchored, AnchorAction::Finish),
        (_, Err(e)) => (AnchorState::Failed, AnchorAction::Abort(PasswdError::Io(e))),
    }
}

/// Whether a state still waits for the outcome of an action.
pub open spec fn is_pending(state: AnchorState) -> bool {
    state == AnchorState::Probing || state == AnchorState::ChangingDir || state
        == AnchorState::ChangingRoot
}

/// Whether an action aborts with `NotAbsolute` for the path `path`.
pub open spec fn aborts_not_absolute(a: AnchorAction, path: Seq<char>) -> bool {
    match a {
        AnchorAction::Abort(PasswdError::NotAbsolute(p)) => p@ == path,
        _ => false,
    }
}

/// The first step for the target `path`: a relative path is refused with
/// `NotAbsolute` before the filesystem is touched; otherwise the target is
/// probed.
pub fn anchor_start(path: &str) -> (r: (AnchorState, AnchorAction))
    ensures
        is_absolute_path(path@) ==> r == (AnchorState::Probing, AnchorAction::Probe),
        !is_absolute_path(path@) ==> r.0 == AnchorState::Failed && aborts_not_absolute(r.1, path@),
{
    if path.unicode_len() > 0 && path.get_char(0) == '/' {
        (AnchorState::Probing, AnchorAction::Probe)
    } else {
        (AnchorState::Failed, AnchorAction::Abort(PasswdError::NotAbsolute(String::from_str(path))))
    }
}

/// The next step once the action of `state` reported `outcome`: a failed
/// probe aborts with `Inaccessible` and the directory is never changed; a
/// failed directory or root change aborts with `Io`; each success moves on,
/// probe, then working directory, then root.
pub fn anchor_step(state: AnchorState, outcome: Result<(), String>) -> (r: (
    AnchorState,
    AnchorAction,
))
    requires
        is_pending(state),
    ensures
        r == anchor_next(state, outcome),
        r.1 == AnchorAction::ChangeDir ==> state == AnchorState::Probing && outcome is Ok,
        r.1 == AnchorAction::ChangeRoot ==> state == AnchorState::ChangingDir && outcome is Ok,
{
    match outcome {
        Ok(()) => match state {
            AnchorState::Probing => (AnchorState::ChangingDir, AnchorAction::ChangeDir),
            AnchorState::ChangingDir => (AnchorState::ChangingRoot, AnchorAction::ChangeRoot),
            _ => (AnchorState::Anchored, AnchorAction::Finish),
        },
        Err(e) => match state {
            AnchorState::Probing => (
                AnchorState::Failed,
                AnchorAction::Abort(PasswdError::Inaccessible(e)),
            ),
            _ => (AnchorState::Failed, AnchorAction::Abort(PasswdError::Io(e))),
        },
    }
}

} // verus!
