//! Mirror, then flash: the two commands that do the actual work, one after
//! the other, each awaited, neither retried.

use vstd::prelude::*;
use crate::process::ProcessOutcome;

verus! {

/// The two commands of the sequence.
#[derive(Clone, Copy, Debug, PartialEq, Eq)]
pub enum SyncStage {
    /// Mirroring the local workspace onto the host.
    Mirror,
    /// The remote session that flashes the project.
    Session,
}

/// Why the sequence failed: which command, and how.
#[derive(Clone, Copy, Debug, PartialEq, Eq)]
pub enum SyncError {
    /// The command could not be started.
    NotStarted(SyncStage),
    /// The command was started but could not be awaited.
    NotAwaited(SyncStage),
    /// The command ran and reported failure.
    Failed(SyncStage),
}

/// Where the sequence stands.
#[derive(Clone, Copy, Debug, PartialEq, Eq)]
pub enum SyncState {
    /// The mirror has been requested.
    Mirroring,
    /// The mirror is complete and the remote session has been requested.
    Flashing,
    /// The sequence is over.
    Finished(Result<(), SyncError>),
}

/// What the caller is asked to do next.
#[derive(Clone, Copy, Debug, PartialEq, Eq)]
pub enum SyncAction {
    /// Mirror the workspace and wait for the mirror to complete.
    Mirror,
    /// Open the remote session and wait for it to end.
    Flash,
    /// Stop; this is the result of the whole sequence.
    Finish(Result<(), SyncError>),
}

/// One transition of the sequence.
#[derive(Clone, Copy, Debug, PartialEq, Eq)]
pub struct SyncStep {
    pub state: SyncState,
    pub action: SyncAction,
}

/// What the end of the command of `stage` means for the sequence.
pub open spec fn verdict(stage: SyncStage, outcome: ProcessOutcome) -> Result<(), SyncError> {
    match outcome {
        ProcessOutcome::NotStarted => Err(SyncError::NotStarted(stage)),
        ProcessOutcome::NotAwaited => Err(SyncError::NotAwaited(stage)),
        ProcessOutcome::Exited { success } => if success {
            Ok(())
        } else {
            Err(SyncError::Failed(stage))
        },
    }
}

/// The transition taken when the sequence stops with `result`.
pub open spec fn finish(result: Result<(), SyncError>) -> SyncStep {
    SyncStep { state: SyncState::Finished(result), action: SyncAction::Finish(result) }
}

/// The first state and action of the sequence.
pub open spec fn initial_step() -> SyncStep {
    SyncStep { state: SyncState::Mirroring, action: SyncAction::Mirror }
}

/// The transition relation: `outcome` is how the command last requested
/// ended. The session follows a successful mirror; any failure is final.
pub open spec fn sync_step(state: SyncState, outcome: ProcessOutcome) -> SyncStep {
    match state {
        SyncState::Mirroring => match verdict(SyncStage::Mirror, outcome) {
            Ok(_) => SyncStep { state: SyncState::Flashing, action: SyncAction::Flash },
            Err(error) => finish(Err(error)),
        },
        SyncState::Flashing => finish(verdict(SyncStage::Session, outcome)),
        SyncState::Finished(result) => finish(result),
    }
}

/// The action that the sequence is waiting for in `state`.
pub open spec fn pending(state: SyncState) -> SyncAction {
    match state {
        SyncState::Mirroring => SyncAction::Mirror,
        SyncState::Flashing => SyncAction::Flash,
        SyncState::Finished(result) => SyncAction::Finish(result),
    }
}

/// Judges how the command of `stage` ended.
pub fn judge(stage: SyncStage, outcome: ProcessOutcome) -> (result: Result<(), SyncError>)
    ensures
        result == verdict(stage, outcome),
{
    match outcome {
        ProcessOutcome::NotStarted => Err(SyncError::NotStarted(stage)),
        ProcessOutcome::NotAwaited => Err(SyncError::NotAwaited(stage)),
        ProcessOutcome::Exited { success } => if success {
            Ok(())
        } else {
            Err(SyncError::Failed(stage))
        },
    }
}

/// Begins the sequence: the workspace is to be mirrored.
pub fn start() -> (first: SyncStep)
    ensures
        first == initial_step(),
{
    SyncStep { state: SyncState::Mirroring, action: SyncAction::Mirror }
}

/// Advances the sequence: `outcome` is how the command last requested ended.
pub fn step(state: SyncState, outcome: ProcessOutcome) -> (next: SyncStep)
    ensures
        next == sync_step(state, outcome),
        next.action == pending(next.state),
{
    let result = match state {
        SyncState::Mirroring => match judge(SyncStage::Mirror, outcome) {
            Ok(_) => {
                return SyncStep { state: SyncState::Flashing, action: SyncAction::Flash };
            },
            Err(error) => Err(error),
        },
        SyncState::Flashing => judge(SyncStage::Session, outcome),
        SyncState::Finished(result) => result,
    };
    SyncStep { state: SyncState::Finished(result), action: SyncAction::Finish(result) }
}

/// Everything the sequence asks of its caller, in order, in a world where
/// the mirror ends as `mirror` and the session, if it comes to that, as
/// `session`.
pub open spec fn sync_trace(mirror: ProcessOutcome, session: ProcessOutcome) -> Seq<SyncAction> {
    let mirrored = sync_step(initial_step().state, mirror);
    if mirrored.state is Finished {
        seq![initial_step().action, mirrored.action]
    } else {
        seq![
            initial_step().action,
            mirrored.action,
            sync_step(mirrored.state, session).action,
        ]
    }
}

/// The session is opened only behind a complete mirror: where the mirror
/// does not succeed, the sequence ends with the mirror's own error and the
/// session is never requested.
pub proof fn law_failed_mirror_is_final(mirror: ProcessOutcome, session: ProcessOutcome)
    requires
        !mirror.succeeded(),
    ensures
        verdict(SyncStage::Mirror, mirror) is Err,
        sync_trace(mirror, session) == seq![
            SyncAction::Mirror,
            SyncAction::Finish(verdict(SyncStage::Mirror, mirror)),
        ],
{
}

/// Behind a successful mirror the session is opened exactly once, and how it
/// ends is how the sequence ends: success if and only if both commands ran
/// and reported success.
pub proof fn law_session_follows_mirror(mirror: ProcessOutcome, session: ProcessOutcome)
    requires
        mirror.succeeded(),
    ensures
        sync_trace(mirror, session) == seq![
            SyncAction::Mirror,
            SyncAction::Flash,
            SyncAction::Finish(verdict(SyncStage::Session, session)),
        ],
        verdict(SyncStage::Session, session) is Ok <==> session.succeeded(),
{
}

} // verus!
