//! The wake sequence: start the virtual machine that hosts the build machine,
//! then poll until it answers.
//!
//! The sequence is a state machine. The caller performs each [`WakeAction`]
//! and reports how it went as a [`WakeEvent`]; [`step`] decides what happens
//! next. Nothing here sleeps, prints or starts a process.

use vstd::prelude::*;
use crate::process::ProcessOutcome;

verus! {

/// The fixed parameters of one wake sequence.
#[derive(Clone, Copy, Debug, PartialEq, Eq)]
pub struct WakePolicy {
    /// How many probes may be issued before giving up.
    pub max_attempts: u32,
    /// Seconds to wait before each probe.
    pub poll_seconds: u64,
    /// Seconds to wait after the first successful probe, so that the host
    /// can finish starting its services.
    pub settle_seconds: u64,
}

/// Why a wake sequence failed.
#[derive(Clone, Copy, Debug, PartialEq, Eq)]
pub enum WakeError {
    /// The command that starts the virtual machine did not succeed.
    LaunchFailed,
    /// No probe within the attempt budget was answered.
    Unresponsive,
    /// An event arrived that does not answer the action last requested.
    OutOfTurn,
}

/// Where a wake sequence stands.
#[derive(Clone, Copy, Debug, PartialEq, Eq)]
pub enum WakeState {
    /// The start command has been requested.
    Launching,
    /// Waiting out the interval before probe number `attempt`.
    Pausing { attempt: u32 },
    /// Probe number `attempt` has been requested.
    Probing { attempt: u32 },
    /// A probe was answered; waiting out the settle delay.
    Settling,
    /// The sequence is over.
    Finished(Result<(), WakeError>),
}

/// What the caller reports back.
#[derive(Clone, Copy, Debug, PartialEq, Eq)]
pub enum WakeEvent {
    /// The command requested by `StartVm` or `Probe` ended.
    Exit(ProcessOutcome),
    /// The time requested by `Sleep` has passed.
    Elapsed,
}

/// What the caller is asked to do next.
#[derive(Clone, Copy, Debug, PartialEq, Eq)]
pub enum WakeAction {
    /// Run the command that starts the virtual machine.
    StartVm,
    /// Wait for the given number of seconds.
    Sleep { seconds: u64 },
    /// Issue one reachability probe.
    Probe,
    /// Stop; this is the result of the whole sequence.
    Finish(Result<(), WakeError>),
}

/// Progress worth showing to the operator.
#[derive(Clone, Copy, Debug, PartialEq, Eq)]
pub enum WakeNotice {
    /// Probe number `attempt` was not answered.
    ProbeFailed { attempt: u32 },
    /// Probe number `attempt` was answered; a settle delay follows.
    ProbeSucceeded { attempt: u32, settle_seconds: u64 },
}

/// One transition of the machine.
#[derive(Clone, Copy, Debug, PartialEq, Eq)]
pub struct WakeStep {
    /// The state after the transition.
    pub state: WakeState,
    /// What to tell the operator, if anything.
    pub notice: Option<WakeNotice>,
    /// What to do next.
    pub action: WakeAction,
}

/// The transition taken when the machine stops with `result`.
pub open spec fn finish(result: Result<(), WakeError>) -> WakeStep {
    WakeStep { state: WakeState::Finished(result), notice: None, action: WakeAction::Finish(result) }
}

/// The first state and action of every wake sequence.
pub open spec fn initial_step() -> WakeStep {
    WakeStep { state: WakeState::Launching, notice: None, action: WakeAction::StartVm }
}

/// The transition relation of the wake sequence.
///
/// * A failed launch ends the sequence at once.
/// * After a successful launch each probe is preceded by one poll interval.
/// * The first answered probe is followed by the settle delay and success.
/// * An unanswered probe is followed by the next one while the budget lasts,
///   and by failure when it is spent.
/// * A finished machine stays finished.
/// * An event that does not answer the pending action ends the sequence.
pub open spec fn wake_step(policy: WakePolicy, state: WakeState, event: WakeEvent) -> WakeStep {
    match (state, event) {
        (WakeState::Finished(result), _) => finish(result),
        (WakeState::Launching, WakeEvent::Exit(outcome)) => {
            if !outcome.succeeded() {
                finish(Err(WakeError::LaunchFailed))
            } else if policy.max_attempts == 0 {
                finish(Err(WakeError::Unresponsive))
            } else {
                WakeStep {
                    state: WakeState::Pausing { attempt: 0 },
                    notice: None,
                    action: WakeAction::Sleep { seconds: policy.poll_seconds },
                }
            }
        },
        (WakeState::Pausing { attempt }, WakeEvent::Elapsed) => WakeStep {
            state: WakeState::Probing { attempt },
            notice: None,
            action: WakeAction::Probe,
        },
        (WakeState::Probing { attempt }, WakeEvent::Exit(outcome)) => {
            if outcome.succeeded() {
                WakeStep {
                    state: WakeState::Settling,
                    notice: Some(
                        WakeNotice::ProbeSucceeded {
                            attempt,
                            settle_seconds: policy.settle_seconds,
                        },
                    ),
                    action: WakeAction::Sleep { seconds: policy.settle_seconds },
                }
            } else if attempt + 1 < policy.max_attempts {
                WakeStep {
                    state: WakeState::Pausing { attempt: (attempt + 1) as u32 },
                    notice: Some(WakeNotice::ProbeFailed { attempt }),
                    action: WakeAction::Sleep { seconds: policy.poll_seconds },
                }
            } else {
                WakeStep {
                    notice: Some(WakeNotice::ProbeFailed { attempt }),
                    ..finish(Err(WakeError::Unresponsive))
                }
            }
        },
        (WakeState::Settling, WakeEvent::Elapsed) => finish(Ok(())),
        _ => finish(Err(WakeError::OutOfTurn)),
    }
}

/// The action that the machine is waiting for in `state`.
pub open spec fn pending(policy: WakePolicy, state: WakeState) -> WakeAction {
    match state {
        WakeState::Launching => WakeAction::StartVm,
        WakeState::Pausing { .. } => WakeAction::Sleep { seconds: policy.poll_seconds },
        WakeState::Probing { .. } => WakeAction::Probe,
        WakeState::Settling => WakeAction::Sleep { seconds: policy.settle_seconds },
        WakeState::Finished(result) => WakeAction::Finish(result),
    }
}

/// Begins a wake sequence: the virtual machine is to be started.
pub fn start() -> (first: WakeStep)
    ensures
        first == initial_step(),
{
    WakeStep { state: WakeState::Launching, notice: None, action: WakeAction::StartVm }
}

/// Ends the sequence with `result`.
fn finish_with(result: Result<(), WakeError>) -> (last: WakeStep)
    ensures
        last == finish(result),
{
    WakeStep { state: WakeState::Finished(result), notice: None, action: WakeAction::Finish(result) }
}

/// Advances the wake sequence by one event.
pub fn step(policy: &WakePolicy, state: WakeState, event: WakeEvent) -> (next: WakeStep)
    ensures
        next == wake_step(*policy, state, event),
        next.action == pending(*policy, next.state),
{
    match state {
        WakeState::Finished(result) => finish_with(result),
        WakeState::Launching => match event {
            WakeEvent::Exit(outcome) => {
                if !outcome.is_success() {
                    finish_with(Err(WakeError::LaunchFailed))
                } else if policy.max_attempts == 0 {
                    finish_with(Err(WakeError::Unresponsive))
                } else {
                    WakeStep {
                        state: WakeState::Pausing { attempt: 0 },
                        notice: None,
                        action: WakeAction::Sleep { seconds: policy.poll_seconds },
                    }
                }
            },
            WakeEvent::Elapsed => finish_with(Err(WakeError::OutOfTurn)),
        },
        WakeState::Pausing { attempt } => match event {
            WakeEvent::Elapsed => WakeStep {
                state: WakeState::Probing { attempt },
                notice: None,
                action: WakeAction::Probe,
            },
            WakeEvent::Exit(_) => finish_with(Err(WakeError::OutOfTurn)),
        },
        WakeState::Probing { attempt } => match event {
            WakeEvent::Exit(outcome) => {
                if outcome.is_success() {
                    WakeStep {
                        state: WakeState::Settling,
                        notice: Some(
                            WakeNotice::ProbeSucceeded {
                                attempt,
                                settle_seconds: policy.settle_seconds,
                            },
                        ),
                        action: WakeAction::Sleep { seconds: policy.settle_seconds },
                    }
                } else if attempt < policy.max_attempts && attempt + 1 < policy.max_attempts {
                    WakeStep {
                        state: WakeState::Pausing { attempt: attempt + 1 },
                        notice: Some(WakeNotice::ProbeFailed { attempt }),
                        action: WakeAction::Sleep { seconds: policy.poll_seconds },
                    }
                } else {
                    WakeStep {
                        state: WakeState::Finished(Err(WakeError::Unresponsive)),
                        notice: Some(WakeNotice::ProbeFailed { attempt }),
                        action: WakeAction::Finish(Err(WakeError::Unresponsive)),
                    }
                }
            },
            WakeEvent::Elapsed => finish_with(Err(WakeError::OutOfTurn)),
        },
        WakeState::Settling => match event {
            WakeEvent::Elapsed => finish_with(Ok(())),
            WakeEvent::Exit(_) => finish_with(Err(WakeError::OutOfTurn)),
        },
    }
}

/// The event with which a faithful caller answers the action pending in
/// `state`: the launch ends as `launch` says, probe number `k` ends as
/// `probes(k)` says, and every sleep simply elapses.
pub open spec fn answer(
    launch: ProcessOutcome,
    probes: spec_fn(nat) -> ProcessOutcome,
    state: WakeState,
) -> WakeEvent {
    match state {
        WakeState::Launching => WakeEvent::Exit(launch),
        WakeState::Probing { attempt } => WakeEvent::Exit(probes(attempt as nat)),
        _ => WakeEvent::Elapsed,
    }
}

/// An upper bound on the number of transitions still ahead of `state`.
pub open spec fn steps_ahead(policy: WakePolicy, state: WakeState) -> nat {
    let probes_left = |attempt: u32| -> nat
        {
            if attempt + 1 < policy.max_attempts {
                (policy.max_attempts - 1 - attempt) as nat
            } else {
                0
            }
        };
    match state {
        WakeState::Finished(_) => 0,
        WakeState::Settling => 1,
        WakeState::Probing { attempt } => 2 * probes_left(attempt) + 2,
        WakeState::Pausing { attempt } => 2 * probes_left(attempt) + 3,
        WakeState::Launching => 2 * probes_left(0) + 4,
    }
}

/// The actions requested from `state` onwards when every action is answered
/// faithfully, up to and including the final `Finish`.
pub open spec fn actions_from(
    policy: WakePolicy,
    launch: ProcessOutcome,
    probes: spec_fn(nat) -> ProcessOutcome,
    state: WakeState,
) -> Seq<WakeAction>
    decreases steps_ahead(policy, state),
{
    if state is Finished {
        Seq::empty()
    } else {
        let next = wake_step(policy, state, answer(launch, probes, state));
        seq![next.action] + actions_from(policy, launch, probes, next.state)
    }
}

/// Everything a whole wake sequence asks of its caller, in order, in a world
/// where the launch ends as `launch` and probe number `k` ends as `probes(k)`.
pub open spec fn wake_trace(
    policy: WakePolicy,
    launch: ProcessOutcome,
    probes: spec_fn(nat) -> ProcessOutcome,
) -> Seq<WakeAction> {
    seq![initial_step().action] + actions_from(policy, launch, probes, initial_step().state)
}

/// How many probes a trace issues.
pub open spec fn probes_issued(trace: Seq<WakeAction>) -> nat
    decreases trace.len(),
{
    if trace.len() == 0 {
        0
    } else {
        let rest = probes_issued(trace.drop_first());
        if trace[0] is Probe {
            1 + rest
        } else {
            rest
        }
    }
}

/// How many seconds a trace spends sleeping.
pub open spec fn seconds_slept(trace: Seq<WakeAction>) -> nat
    decreases trace.len(),
{
    if trace.len() == 0 {
        0
    } else {
        let rest = seconds_slept(trace.drop_first());
        match trace[0] {
            WakeAction::Sleep { seconds } => seconds as nat + rest,
            _ => rest,
        }
    }
}

/// Unfolds both tallies over a trace that is one action followed by `rest`.
proof fn lemma_tally_cons(first: WakeAction, rest: Seq<WakeAction>)
    ensures
        probes_issued(seq![first] + rest) == probes_issued(rest) + (if first is Probe {
            1nat
        } else {
            0nat
        }),
        seconds_slept(seq![first] + rest) == seconds_slept(rest) + (match first {
            WakeAction::Sleep { seconds } => seconds as nat,
            _ => 0nat,
        }),
{
    let whole = seq![first] + rest;
    assert(whole.drop_first() =~= rest);
}

/// From the pause before probe `attempt`, in a world where no remaining probe
/// is answered, the machine issues exactly the remaining probes, sleeps one
/// poll interval for each, and fails as unresponsive.
proof fn lemma_silent_host(
    policy: WakePolicy,
    launch: ProcessOutcome,
    probes: spec_fn(nat) -> ProcessOutcome,
    attempt: u32,
)
    requires
        attempt < policy.max_attempts,
        forall|k: nat| attempt <= k < policy.max_attempts ==> !(#[trigger] probes(k)).succeeded(),
    ensures
        ({
            let trace = actions_from(policy, launch, probes, WakeState::Pausing { attempt });
            &&& trace.len() > 0
            &&& trace.last() == WakeAction::Finish(Err(WakeError::Unresponsive))
            &&& probes_issued(trace) == policy.max_attempts - attempt
            &&& seconds_slept(trace) == (policy.max_attempts - attempt - 1) * policy.poll_seconds
        }),
    decreases policy.max_attempts - attempt,
{
    let pausing = WakeState::Pausing { attempt };
    let probing = WakeState::Probing { attempt };
    let after_pause = actions_from(policy, launch, probes, probing);
    assert(actions_from(policy, launch, probes, pausing) == seq![WakeAction::Probe] + after_pause);
    lemma_tally_cons(WakeAction::Probe, after_pause);
    assert(!probes(attempt as nat).succeeded());
    let failed = wake_step(policy, probing, answer(launch, probes, probing));
    let after_probe = actions_from(policy, launch, probes, failed.state);
    assert(after_pause == seq![failed.action] + after_probe);
    lemma_tally_cons(failed.action, after_probe);
    if attempt + 1 < policy.max_attempts {
        let next: u32 = (attempt + 1) as u32;
        lemma_silent_host(policy, launch, probes, next);
        assert((policy.max_attempts - attempt - 1) * policy.poll_seconds == (policy.max_attempts
            - next - 1) * policy.poll_seconds + policy.poll_seconds) by (nonlinear_arith)
            requires
                next == attempt + 1,
        ;
    } else {
        assert(after_probe =~= Seq::empty());
        assert((policy.max_attempts - attempt - 1) * policy.poll_seconds == 0) by (nonlinear_arith)
            requires
                policy.max_attempts - attempt - 1 == 0,
        ;
    }
}

/// From the pause before probe `attempt`, in a world where probe `first` is
/// the earliest one answered, the machine stops probing right after `first`,
/// waits out the settle delay and succeeds.
proof fn lemma_first_answer(
    policy: WakePolicy,
    launch: ProcessOutcome,
    probes: spec_fn(nat) -> ProcessOutcome,
    attempt: u32,
    first: u32,
)
    requires
        attempt <= first < policy.max_attempts,
        probes(first as nat).succeeded(),
        forall|k: nat| attempt <= k < first ==> !(#[trigger] probes(k)).succeeded(),
    ensures
        ({
            let trace = actions_from(policy, launch, probes, WakeState::Pausing { attempt });
            &&& trace.len() >= 3
            &&& trace.last() == WakeAction::Finish(Ok(()))
            &&& trace[trace.len() - 2] == (WakeAction::Sleep { seconds: policy.settle_seconds })
            &&& trace[trace.len() - 3] == WakeAction::Probe
            &&& probes_issued(trace) == first - attempt + 1
            &&& seconds_slept(trace) == (first - attempt) * policy.poll_seconds
                + policy.settle_seconds
        }),
    decreases first - attempt,
{
    let pausing = WakeState::Pausing { attempt };
    let probing = WakeState::Probing { attempt };
    let after_pause = actions_from(policy, launch, probes, probing);
    assert(actions_from(policy, launch, probes, pausing) == seq![WakeAction::Probe] + after_pause);
    lemma_tally_cons(WakeAction::Probe, after_pause);
    let probed = wake_step(policy, probing, answer(launch, probes, probing));
    let after_probe = actions_from(policy, launch, probes, probed.state);
    assert(after_pause == seq![probed.action] + after_probe);
    lemma_tally_cons(probed.action, after_probe);
    if attempt == first {
        let settled = wake_step(
            policy,
            WakeState::Settling,
            answer(launch, probes, WakeState::Settling),
        );
        let tail = actions_from(policy, launch, probes, settled.state);
        assert(tail =~= Seq::empty());
        assert(after_probe == seq![settled.action] + tail);
        lemma_tally_cons(settled.action, tail);
        assert((first - attempt) * policy.poll_seconds == 0) by (nonlinear_arith)
            requires
                first - attempt == 0,
        ;
    } else {
        assert(!probes(attempt as nat).succeeded());
        let next: u32 = (attempt + 1) as u32;
        lemma_first_answer(policy, launch, probes, next, first);
        assert((first - attempt) * policy.poll_seconds == (first - next) * policy.poll_seconds
            + policy.poll_seconds) by (nonlinear_arith)
            requires
                next == attempt + 1,
        ;
    }
}

/// A host that never answers costs the whole budget and nothing more: after a
/// successful launch the sequence issues exactly `max_attempts` probes, sleeps
/// exactly one poll interval before each of them and never the settle delay,
/// and ends with the unresponsive error.
pub proof fn law_silent_host_exhausts_budget(
    policy: WakePolicy,
    launch: ProcessOutcome,
    probes: spec_fn(nat) -> ProcessOutcome,
)
    requires
        launch.succeeded(),
        forall|k: nat| k < policy.max_attempts ==> !(#[trigger] probes(k)).succeeded(),
    ensures
        wake_trace(policy, launch, probes).last() == WakeAction::Finish(
            Err(WakeError::Unresponsive),
        ),
        probes_issued(wake_trace(policy, launch, probes)) == policy.max_attempts,
        seconds_slept(wake_trace(policy, launch, probes)) == policy.max_attempts
            * policy.poll_seconds,
{
    let launching = WakeState::Launching;
    let launched = wake_step(policy, launching, answer(launch, probes, launching));
    let rest = actions_from(policy, launch, probes, launched.state);
    let body = actions_from(policy, launch, probes, launching);
    assert(body == seq![launched.action] + rest);
    lemma_tally_cons(launched.action, rest);
    lemma_tally_cons(WakeAction::StartVm, body);
    if policy.max_attempts == 0 {
        assert(rest =~= Seq::empty());
        assert(policy.max_attempts * policy.poll_seconds == 0) by (nonlinear_arith)
            requires
                policy.max_attempts == 0,
        ;
    } else {
        lemma_silent_host(policy, launch, probes, 0);
        assert(policy.max_attempts * policy.poll_seconds == (policy.max_attempts - 0 - 1)
            * policy.poll_seconds + policy.poll_seconds) by (nonlinear_arith);
    }
}

/// The first answered probe ends the polling: when probe number `first` is the
/// earliest one answered within the budget, the sequence issues exactly
/// `first + 1` probes, the last of them immediately before the settle delay,
/// and ends with success.
pub proof fn law_first_answer_ends_polling(
    policy: WakePolicy,
    launch: ProcessOutcome,
    probes: spec_fn(nat) -> ProcessOutcome,
    first: u32,
)
    requires
        launch.succeeded(),
        first < policy.max_attempts,
        probes(first as nat).succeeded(),
        forall|k: nat| k < first ==> !(#[trigger] probes(k)).succeeded(),
    ensures
        ({
            let trace = wake_trace(policy, launch, probes);
            &&& trace.len() >= 3
            &&& trace.last() == WakeAction::Finish(Ok(()))
            &&& trace[trace.len() - 2] == (WakeAction::Sleep { seconds: policy.settle_seconds })
            &&& trace[trace.len() - 3] == WakeAction::Probe
            &&& probes_issued(trace) == first + 1
            &&& seconds_slept(trace) == (first + 1) * policy.poll_seconds + policy.settle_seconds
        }),
{
    let launching = WakeState::Launching;
    let launched = wake_step(policy, launching, answer(launch, probes, launching));
    let rest = actions_from(policy, launch, probes, launched.state);
    let body = actions_from(policy, launch, probes, launching);
    assert(body == seq![launched.action] + rest);
    lemma_tally_cons(launched.action, rest);
    lemma_tally_cons(WakeAction::StartVm, body);
    lemma_first_answer(policy, launch, probes, 0, first);
    assert((first + 1) * policy.poll_seconds == (first - 0) * policy.poll_seconds
        + policy.poll_seconds) by (nonlinear_arith);
}

/// A failed launch is final: the sequence consists of the start command and
/// the launch-failure result, with no probe and no sleep in between.
pub proof fn law_failed_launch_never_probes(
    policy: WakePolicy,
    launch: ProcessOutcome,
    probes: spec_fn(nat) -> ProcessOutcome,
)
    requires
        !launch.succeeded(),
    ensures
        wake_trace(policy, launch, probes) == seq![
            WakeAction::StartVm,
            WakeAction::Finish(Err(WakeError::LaunchFailed)),
        ],
        probes_issued(wake_trace(policy, launch, probes)) == 0,
        seconds_slept(wake_trace(policy, launch, probes)) == 0,
{
    let launching = WakeState::Launching;
    let failed = wake_step(policy, launching, answer(launch, probes, launching));
    let rest = actions_from(policy, launch, probes, failed.state);
    let body = actions_from(policy, launch, probes, launching);
    assert(rest =~= Seq::empty());
    assert(body == seq![failed.action] + rest);
    lemma_tally_cons(failed.action, rest);
    lemma_tally_cons(WakeAction::StartVm, body);
    assert(wake_trace(policy, launch, probes) =~= seq![
        WakeAction::StartVm,
        WakeAction::Finish(Err(WakeError::LaunchFailed)),
    ]);
}

/// How a wake sequence ends, said without reference to the machine: the
/// launch must succeed, and then some probe within the budget must be
/// answered.
pub open spec fn wake_outcome(
    policy: WakePolicy,
    launch: ProcessOutcome,
    probes: spec_fn(nat) -> ProcessOutcome,
) -> Result<(), WakeError> {
    if !launch.succeeded() {
        Err(WakeError::LaunchFailed)
    } else if exists|k: nat| k < policy.max_attempts && (#[trigger] probes(k)).succeeded() {
        Ok(())
    } else {
        Err(WakeError::Unresponsive)
    }
}

/// The earliest answered probe at or before probe `k`, which is answered.
proof fn lemma_earliest_answer(probes: spec_fn(nat) -> ProcessOutcome, k: nat) -> (first: nat)
    requires
        probes(k).succeeded(),
    ensures
        first <= k,
        probes(first).succeeded(),
        forall|j: nat| j < first ==> !(#[trigger] probes(j)).succeeded(),
    decreases k,
{
    if exists|j: nat| j < k && (#[trigger] probes(j)).succeeded() {
        let j = choose|j: nat| j < k && (#[trigger] probes(j)).succeeded();
        lemma_earliest_answer(probes, j)
    } else {
        k
    }
}

/// From a state that is not final the machine asks for at least one more
/// action, and the last one it asks for is a `Finish`.
pub proof fn lemma_actions_end_in_finish(
    policy: WakePolicy,
    launch: ProcessOutcome,
    probes: spec_fn(nat) -> ProcessOutcome,
    state: WakeState,
)
    requires
        !(state is Finished),
    ensures
        actions_from(policy, launch, probes, state).len() > 0,
        actions_from(policy, launch, probes, state).last() is Finish,
    decreases steps_ahead(policy, state),
{
    let next = wake_step(policy, state, answer(launch, probes, state));
    let rest = actions_from(policy, launch, probes, next.state);
    assert(actions_from(policy, launch, probes, state) == seq![next.action] + rest);
    if next.state is Finished {
        assert(rest =~= Seq::empty());
    } else {
        lemma_actions_end_in_finish(policy, launch, probes, next.state);
        assert((seq![next.action] + rest).last() == rest.last());
    }
}

/// The machine ends as the world says: whatever the launch and the probes
/// do, the last action of the sequence is a `Finish` with the outcome that
/// the world determines.
pub proof fn law_wake_ends_as_the_world_says(
    policy: WakePolicy,
    launch: ProcessOutcome,
    probes: spec_fn(nat) -> ProcessOutcome,
)
    ensures
        wake_trace(policy, launch, probes).last() == WakeAction::Finish(
            wake_outcome(policy, launch, probes),
        ),
{
    if !launch.succeeded() {
        law_failed_launch_never_probes(policy, launch, probes);
    } else if exists|k: nat| k < policy.max_attempts && (#[trigger] probes(k)).succeeded() {
        let k = choose|k: nat| k < policy.max_attempts && (#[trigger] probes(k)).succeeded();
        let first = lemma_earliest_answer(probes, k);
        law_first_answer_ends_polling(policy, launch, probes, first as u32);
    } else {
        law_silent_host_exhausts_budget(policy, launch, probes);
    }
}

} // verus!
