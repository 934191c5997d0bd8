use remote_flash::process::ProcessOutcome;
use remote_flash::wake::{
    start, step, WakeAction, WakeError, WakeEvent, WakeNotice, WakePolicy, WakeState, WakeStep,
};

const UP: ProcessOutcome = ProcessOutcome::Exited { success: true };
const DOWN: ProcessOutcome = ProcessOutcome::Exited { success: false };

/// What a scripted world saw of one wake sequence.
struct Record {
    actions: Vec<WakeAction>,
    notices: Vec<WakeNotice>,
    probes: u32,
    slept: u64,
    result: Result<(), WakeError>,
}

/// Plays a wake sequence in a world where the launch ends as `launch` and
/// probe number `k` ends as `probes(k)`.
fn play(policy: &WakePolicy, launch: ProcessOutcome, probes: &dyn Fn(u32) -> ProcessOutcome) -> Record {
    let mut record =
        Record { actions: Vec::new(), notices: Vec::new(), probes: 0, slept: 0, result: Ok(()) };
    let mut current: WakeStep = start();
    for _ in 0..10_000 {
        record.actions.push(current.action);
        if let Some(notice) = current.notice {
            record.notices.push(notice);
        }
        let event = match current.action {
            WakeAction::StartVm => WakeEvent::Exit(launch),
            WakeAction::Sleep { seconds } => {
                record.slept += seconds;
                WakeEvent::Elapsed
            }
            WakeAction::Probe => {
                record.probes += 1;
                WakeEvent::Exit(probes(record.probes - 1))
            }
            WakeAction::Finish(result) => {
                record.result = result;
                return record;
            }
        };
        current = step(policy, current.state, event);
    }
    panic!("the wake sequence did not end");
}

fn policy(max_attempts: u32) -> WakePolicy {
    WakePolicy { max_attempts, poll_seconds: 1, settle_seconds: 2 }
}

#[test]
fn silent_host_costs_exactly_the_budget() {
    let record = play(&policy(10), UP, &|_| DOWN);
    assert_eq!(record.result, Err(WakeError::Unresponsive));
    assert_eq!(record.probes, 10);
    assert_eq!(record.slept, 10);
    assert_eq!(record.actions.len(), 1 + 2 * 10 + 1);
    assert_eq!(record.actions[0], WakeAction::StartVm);
    assert_eq!(record.actions[1], WakeAction::Sleep { seconds: 1 });
    assert_eq!(record.actions[2], WakeAction::Probe);
    assert_eq!(record.actions[21], WakeAction::Finish(Err(WakeError::Unresponsive)));
    let expected: Vec<WakeNotice> =
        (0..10).map(|attempt| WakeNotice::ProbeFailed { attempt }).collect();
    assert_eq!(record.notices, expected);
}

#[test]
fn silent_host_never_gets_the_settle_delay() {
    let policy = WakePolicy { max_attempts: 3, poll_seconds: 5, settle_seconds: 60 };
    let record = play(&policy, UP, &|_| DOWN);
    assert_eq!(record.result, Err(WakeError::Unresponsive));
    assert_eq!(record.probes, 3);
    assert_eq!(record.slept, 15);
    assert!(!record.actions.contains(&WakeAction::Sleep { seconds: 60 }));
}

#[test]
fn probe_that_cannot_run_counts_as_unanswered() {
    let record = play(&policy(4), UP, &|k| {
        if k % 2 == 0 {
            ProcessOutcome::NotStarted
        } else {
            ProcessOutcome::NotAwaited
        }
    });
    assert_eq!(record.result, Err(WakeError::Unresponsive));
    assert_eq!(record.probes, 4);
}

#[test]
fn first_answer_ends_the_polling() {
    let record = play(&policy(10), UP, &|k| if k >= 3 { UP } else { DOWN });
    assert_eq!(record.result, Ok(()));
    assert_eq!(record.probes, 4);
    assert_eq!(record.slept, 4 + 2);
    let n = record.actions.len();
    assert_eq!(record.actions[n - 3], WakeAction::Probe);
    assert_eq!(record.actions[n - 2], WakeAction::Sleep { seconds: 2 });
    assert_eq!(record.actions[n - 1], WakeAction::Finish(Ok(())));
    assert_eq!(
        record.notices,
        vec![
            WakeNotice::ProbeFailed { attempt: 0 },
            WakeNotice::ProbeFailed { attempt: 1 },
            WakeNotice::ProbeFailed { attempt: 2 },
            WakeNotice::ProbeSucceeded { attempt: 3, settle_seconds: 2 },
        ]
    );
}

#[test]
fn answer_to_the_first_probe() {
    let record = play(&policy(10), UP, &|_| UP);
    assert_eq!(record.result, Ok(()));
    assert_eq!(
        record.actions,
        vec![
            WakeAction::StartVm,
            WakeAction::Sleep { seconds: 1 },
            WakeAction::Probe,
            WakeAction::Sleep { seconds: 2 },
            WakeAction::Finish(Ok(())),
        ]
    );
}

#[test]
fn answer_to_the_last_probe_of_the_budget() {
    let record = play(&policy(5), UP, &|k| if k == 4 { UP } else { DOWN });
    assert_eq!(record.result, Ok(()));
    assert_eq!(record.probes, 5);
    assert_eq!(record.slept, 5 + 2);
}

#[test]
fn answer_behind_the_budget_comes_too_late() {
    let record = play(&policy(5), UP, &|k| if k == 5 { UP } else { DOWN });
    assert_eq!(record.result, Err(WakeError::Unresponsive));
    assert_eq!(record.probes, 5);
}

#[test]
fn failed_launch_never_probes() {
    for launch in [DOWN, ProcessOutcome::NotStarted, ProcessOutcome::NotAwaited] {
        let record = play(&policy(10), launch, &|_| UP);
        assert_eq!(record.result, Err(WakeError::LaunchFailed));
        assert_eq!(record.probes, 0);
        assert_eq!(record.slept, 0);
        assert_eq!(
            record.actions,
            vec![WakeAction::StartVm, WakeAction::Finish(Err(WakeError::LaunchFailed))]
        );
    }
}

#[test]
fn empty_budget_gives_up_without_a_probe() {
    let record = play(&policy(0), UP, &|_| UP);
    assert_eq!(record.result, Err(WakeError::Unresponsive));
    assert_eq!(record.probes, 0);
    assert_eq!(record.slept, 0);
}

#[test]
fn wake_event_out_of_turn_ends_the_sequence() {
    let policy = policy(10);
    let out = WakeStep {
        state: WakeState::Finished(Err(WakeError::OutOfTurn)),
        notice: None,
        action: WakeAction::Finish(Err(WakeError::OutOfTurn)),
    };
    assert_eq!(step(&policy, WakeState::Launching, WakeEvent::Elapsed), out);
    assert_eq!(step(&policy, WakeState::Pausing { attempt: 0 }, WakeEvent::Exit(UP)), out);
    assert_eq!(step(&policy, WakeState::Probing { attempt: 0 }, WakeEvent::Elapsed), out);
    assert_eq!(step(&policy, WakeState::Settling, WakeEvent::Exit(UP)), out);
}

#[test]
fn finished_wake_sequence_stays_finished() {
    let policy = policy(10);
    for result in [Ok(()), Err(WakeError::LaunchFailed), Err(WakeError::Unresponsive)] {
        let state = WakeState::Finished(result);
        for event in [WakeEvent::Elapsed, WakeEvent::Exit(UP), WakeEvent::Exit(DOWN)] {
            let next = step(&policy, state, event);
            assert_eq!(next.state, state);
            assert_eq!(next.action, WakeAction::Finish(result));
            assert_eq!(next.notice, None);
        }
    }
}

#[test]
fn attempt_counter_at_its_limit_does_not_wrap() {
    let policy = policy(u32::MAX);
    let next = step(&policy, WakeState::Probing { attempt: u32::MAX - 1 }, WakeEvent::Exit(DOWN));
    assert_eq!(next.state, WakeState::Finished(Err(WakeError::Unresponsive)));
    let next = step(&policy, WakeState::Probing { attempt: u32::MAX }, WakeEvent::Exit(DOWN));
    assert_eq!(next.state, WakeState::Finished(Err(WakeError::Unresponsive)));
    let next = step(&policy, WakeState::Probing { attempt: u32::MAX - 2 }, WakeEvent::Exit(DOWN));
    assert_eq!(next.state, WakeState::Pausing { attempt: u32::MAX - 1 });
}
