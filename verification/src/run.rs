//! Whole runs. A world answers every action of a run; the run that results
//! is a sequence of actions, and how it ends can be said from the world
//! alone.

use vstd::prelude::*;
use crate::arguments::{chosen_project, InputError};
use crate::config::resolve::resolution;
use crate::driver::{
    before_host, config_path, initial_step, pending, project_path, run_step, workspace_path,
    ActionView, EventView, Phase, RunError, RunStateView,
};
use crate::process::ProcessOutcome;
use crate::settings::SettingsView;
use crate::sync::{verdict, SyncStage, SyncState};
use crate::wake::{
    actions_from, lemma_actions_end_in_finish, law_wake_ends_as_the_world_says, wake_outcome,
    wake_step, wake_trace, WakeAction, WakeState,
};

verus! {

/// Everything outside the program that a run depends on.
pub struct World {
    /// The arguments of the command line, behind the program's name.
    pub arguments: Seq<Seq<char>>,
    /// The home directory of the operator, if it is known.
    pub home: Option<Seq<char>>,
    /// Which paths exist.
    pub exists: spec_fn(Seq<char>) -> bool,
    /// What reading each path gives.
    pub files: spec_fn(Seq<char>) -> Option<Seq<u8>>,
    /// How the probe that opens the run ends.
    pub first_probe: ProcessOutcome,
    /// How the command that starts the virtual machine ends.
    pub launch: ProcessOutcome,
    /// How probe number `k` of the wake sequence ends.
    pub probes: spec_fn(nat) -> ProcessOutcome,
    /// How the mirror ends.
    pub mirror: ProcessOutcome,
    /// How the remote session ends.
    pub session: ProcessOutcome,
}

/// The event with which `world` answers the action pending in `state`.
pub open spec fn answer(settings: SettingsView, world: World, state: RunStateView) -> EventView {
    match pending(settings, state) {
        ActionView::ReadArguments => EventView::Arguments(world.arguments),
        ActionView::ReadHome => EventView::Home(world.home),
        ActionView::CheckPath { path } => EventView::Path { exists: (world.exists)(path) },
        ActionView::ReadFile { path } => EventView::FileRead((world.files)(path)),
        ActionView::Sleep { .. } => EventView::Elapsed,
        ActionView::Finish(_) => EventView::Elapsed,
        ActionView::Run(_) => EventView::Exit(
            match state.phase {
                Phase::CheckingHost => world.first_probe,
                Phase::Waking(WakeState::Launching) => world.launch,
                Phase::Waking(WakeState::Probing { attempt }) => (world.probes)(attempt as nat),
                Phase::Syncing(SyncState::Mirroring) => world.mirror,
                _ => world.session,
            },
        ),
    }
}

/// An upper bound on the number of transitions still ahead of `state`.
pub open spec fn steps_ahead(settings: SettingsView, state: RunStateView) -> nat {
    let waking = crate::wake::steps_ahead(settings.wake, WakeState::Launching);
    match state.phase {
        Phase::Done(_) => 0,
        Phase::Syncing(SyncState::Finished(_)) => 1,
        Phase::Syncing(SyncState::Flashing) => 1,
        Phase::Syncing(SyncState::Mirroring) => 2,
        Phase::Waking(wake) => 3 + crate::wake::steps_ahead(settings.wake, wake),
        Phase::CheckingHost => 4 + waking,
        Phase::ReadingBuildConfig => 5 + waking,
        Phase::Locating => 6 + waking,
        Phase::ReadingHome => 7 + waking,
        Phase::ReadingArguments => 8 + waking,
    }
}

/// The actions of a run in `world` from `state` on, beginning with the one
/// pending in `state` and ending with the `Finish`.
pub open spec fn run_from(settings: SettingsView, world: World, state: RunStateView) -> Seq<
    ActionView,
>
    decreases steps_ahead(settings, state),
{
    if state.phase is Done {
        seq![pending(settings, state)]
    } else {
        let next = run_step(settings, state, answer(settings, world, state));
        seq![pending(settings, state)] + run_from(settings, world, next.state)
    }
}

/// Everything that a whole run in `world` asks of its caller, in order.
pub open spec fn run_trace(settings: SettingsView, world: World) -> Seq<ActionView> {
    run_from(settings, world, initial_step().state)
}

/// How the mirror and the session end a run.
pub open spec fn sync_outcome(world: World) -> Result<(), RunError> {
    match verdict(SyncStage::Mirror, world.mirror) {
        Err(error) => Err(RunError::Sync(error)),
        Ok(_) => match verdict(SyncStage::Session, world.session) {
            Err(error) => Err(RunError::Sync(error)),
            Ok(_) => Ok(()),
        },
    }
}

/// How a run ends once its inputs are resolved: the host must be up or be
/// woken, and then the mirror and the session must succeed.
pub open spec fn host_outcome(settings: SettingsView, world: World) -> Result<(), RunError> {
    if world.first_probe.succeeded() {
        sync_outcome(world)
    } else {
        match wake_outcome(settings.wake, world.launch, world.probes) {
            Err(error) => Err(RunError::Wake(error)),
            Ok(_) => sync_outcome(world),
        }
    }
}

/// How a run in `world` ends, said without reference to the machine: the
/// first thing that goes wrong decides, and if nothing does, the run
/// succeeds.
pub open spec fn outcome(settings: SettingsView, world: World) -> Result<(), RunError> {
    match (chosen_project(world.arguments), world.home) {
        (Err(error), _) => Err(RunError::Input(error)),
        (Ok(_), None) => Err(RunError::Input(InputError::NoHome)),
        (Ok(project), Some(home)) => {
            let directory = project_path(workspace_path(home, settings.workspace), project);
            if !(world.exists)(directory) {
                Err(RunError::Input(InputError::ProjectNotFound))
            } else {
                match settings.build_config {
                    None => host_outcome(settings, world),
                    Some(file) => match resolution((world.files)(config_path(directory, file))) {
                        Err(error) => Err(RunError::Config(error)),
                        Ok(_) => host_outcome(settings, world),
                    },
                }
            }
        },
    }
}

/// A run that has reached the mirror ends as the mirror and the session say.
proof fn lemma_sync_ends(settings: SettingsView, world: World, state: RunStateView)
    requires
        state.phase == Phase::Syncing(SyncState::Mirroring),
    ensures
        run_from(settings, world, state).last() == ActionView::Finish(sync_outcome(world)),
{
    let mirrored = run_step(settings, state, answer(settings, world, state)).state;
    let rest = run_from(settings, world, mirrored);
    assert(run_from(settings, world, state) == seq![pending(settings, state)] + rest);
    if mirrored.phase is Done {
        assert(rest =~= seq![pending(settings, mirrored)]);
    } else {
        let flashed = run_step(settings, mirrored, answer(settings, world, mirrored)).state;
        let end = run_from(settings, world, flashed);
        assert(rest == seq![pending(settings, mirrored)] + end);
        assert(end =~= seq![pending(settings, flashed)]);
    }
}

/// A run that is waking the host ends as the rest of the wake sequence says,
/// and, where that is success, as the mirror and the session say.
proof fn lemma_wake_ends(settings: SettingsView, world: World, state: RunStateView)
    requires
        state.phase is Waking,
        !(state.phase->Waking_0 is Finished),
    ensures
        ({
            let wake = state.phase->Waking_0;
            let woken = actions_from(settings.wake, world.launch, world.probes, wake).last();
            run_from(settings, world, state).last() == ActionView::Finish(
                match woken {
                    WakeAction::Finish(Err(error)) => Err(RunError::Wake(error)),
                    _ => sync_outcome(world),
                },
            )
        }),
    decreases crate::wake::steps_ahead(settings.wake, state.phase->Waking_0),
{
    let wake = state.phase->Waking_0;
    let moved = wake_step(
        settings.wake,
        wake,
        crate::wake::answer(world.launch, world.probes, wake),
    );
    let later = actions_from(settings.wake, world.launch, world.probes, moved.state);
    assert(actions_from(settings.wake, world.launch, world.probes, wake) == seq![moved.action]
        + later);
    let next = run_step(settings, state, answer(settings, world, state)).state;
    let rest = run_from(settings, world, next);
    assert(run_from(settings, world, state) == seq![pending(settings, state)] + rest);
    if moved.state is Finished {
        assert(later =~= Seq::empty());
        if moved.action == WakeAction::Finish(Ok(())) {
            lemma_sync_ends(settings, world, next);
        } else {
            assert(rest =~= seq![pending(settings, next)]);
        }
    } else {
        lemma_actions_end_in_finish(settings.wake, world.launch, world.probes, moved.state);
        assert((seq![moved.action] + later).last() == later.last());
        lemma_wake_ends(settings, world, next);
    }
}

/// A run that has resolved its inputs ends as the host, the mirror and the
/// session say.
proof fn lemma_host_ends(settings: SettingsView, world: World, state: RunStateView)
    requires
        state.phase == Phase::CheckingHost,
    ensures
        run_from(settings, world, state).last() == ActionView::Finish(
            host_outcome(settings, world),
        ),
{
    let next = run_step(settings, state, answer(settings, world, state)).state;
    let rest = run_from(settings, world, next);
    assert(run_from(settings, world, state) == seq![pending(settings, state)] + rest);
    if world.first_probe.succeeded() {
        lemma_sync_ends(settings, world, next);
    } else {
        law_wake_ends_as_the_world_says(settings.wake, world.launch, world.probes);
        let launching = WakeState::Launching;
        let later = actions_from(settings.wake, world.launch, world.probes, launching);
        lemma_actions_end_in_finish(settings.wake, world.launch, world.probes, launching);
        assert(wake_trace(settings.wake, world.launch, world.probes).last() == later.last());
        lemma_wake_ends(settings, world, next);
    }
}

/// The run ends as the world says: the last action of a whole run is a
/// `Finish`, and its result is the outcome that the world determines.
pub proof fn law_run_ends_as_the_world_says(settings: SettingsView, world: World)
    ensures
        run_trace(settings, world).last() == ActionView::Finish(outcome(settings, world)),
{
    let begun = initial_step().state;
    let named = run_step(settings, begun, answer(settings, world, begun)).state;
    let after_begun = run_from(settings, world, named);
    assert(run_from(settings, world, begun) == seq![pending(settings, begun)] + after_begun);
    if named.phase is Done {
        assert(after_begun =~= seq![pending(settings, named)]);
    } else {
        let homed = run_step(settings, named, answer(settings, world, named)).state;
        let after_named = run_from(settings, world, homed);
        assert(after_begun == seq![pending(settings, named)] + after_named);
        if homed.phase is Done {
            assert(after_named =~= seq![pending(settings, homed)]);
        } else {
            let located = run_step(settings, homed, answer(settings, world, homed)).state;
            let after_homed = run_from(settings, world, located);
            assert(after_named == seq![pending(settings, homed)] + after_homed);
            if located.phase is Done {
                assert(after_homed =~= seq![pending(settings, located)]);
            } else if located.phase is CheckingHost {
                lemma_host_ends(settings, world, located);
            } else {
                let read = run_step(settings, located, answer(settings, world, located)).state;
                let after_located = run_from(settings, world, read);
                assert(after_homed == seq![pending(settings, located)] + after_located);
                if read.phase is Done {
                    assert(after_located =~= seq![pending(settings, read)]);
                } else {
                    lemma_host_ends(settings, world, read);
                }
            }
        }
    }
}

/// A run always asks for something, and what it asks for last is what it
/// asks for last from wherever it goes next.
proof fn lemma_run_last(settings: SettingsView, world: World, state: RunStateView)
    ensures
        run_from(settings, world, state).len() > 0,
        !(state.phase is Done) ==> run_from(settings, world, state).last() == run_from(
            settings,
            world,
            run_step(settings, state, answer(settings, world, state)).state,
        ).last(),
    decreases steps_ahead(settings, state),
{
    if !(state.phase is Done) {
        let next = run_step(settings, state, answer(settings, world, state)).state;
        lemma_run_last(settings, world, next);
        let rest = run_from(settings, world, next);
        assert((seq![pending(settings, state)] + rest).last() == rest.last());
    }
}

/// A run that is still resolving its inputs, and that ends over them, runs
/// no command on its way to the end.
proof fn lemma_inputs_run_nothing(settings: SettingsView, world: World, state: RunStateView)
    requires
        before_host(state.phase),
        run_from(settings, world, state).last() is Finish,
        before_host(Phase::Done(run_from(settings, world, state).last()->Finish_0)),
    ensures
        forall|i: int|
            0 <= i < run_from(settings, world, state).len() ==> !(#[trigger] run_from(
                settings,
                world,
                state,
            )[i] is Run),
    decreases steps_ahead(settings, state),
{
    if !(state.phase is Done) {
        let next = run_step(settings, state, answer(settings, world, state)).state;
        lemma_run_last(settings, world, state);
        if next.phase == Phase::CheckingHost {
            lemma_host_ends(settings, world, next);
        } else {
            lemma_inputs_run_nothing(settings, world, next);
        }
    }
}

/// Where the inputs of a run cannot be resolved, nothing is run: a run that
/// ends with an input error or a configuration error asks for no command at
/// all, from its first action to its last.
pub proof fn law_unresolved_inputs_run_nothing(settings: SettingsView, world: World)
    requires
        outcome(settings, world) matches Err(error) && (error is Input || error is Config),
    ensures
        forall|i: int|
            0 <= i < run_trace(settings, world).len() ==> !(#[trigger] run_trace(
                settings,
                world,
            )[i] is Run),
{
    law_run_ends_as_the_world_says(settings, world);
    lemma_inputs_run_nothing(settings, world, initial_step().state);
}

/// The event says that a command ran and reported success.
pub open spec fn reports_success(event: EventView) -> bool {
    match event {
        EventView::Exit(outcome) => outcome.succeeded(),
        _ => false,
    }
}

/// The event says that a command did not run or did not succeed.
pub open spec fn reports_failure(event: EventView) -> bool {
    match event {
        EventView::Exit(outcome) => !outcome.succeeded(),
        _ => false,
    }
}

/// The phase is one that a run can be in: while the host is being woken the
/// wake sequence is not over, and while the workspace is being mirrored or
/// the project flashed that sequence is not over either.
pub open spec fn proper(phase: Phase) -> bool {
    match phase {
        Phase::Waking(wake) => !(wake is Finished),
        Phase::Syncing(sync) => !(sync is Finished),
        _ => true,
    }
}

/// A run is only ever in a proper phase: it begins in one, and every
/// transition leads to one.
pub proof fn law_phases_are_proper(settings: SettingsView, state: RunStateView, event: EventView)
    ensures
        proper(initial_step().state.phase),
        proper(run_step(settings, state, event).state.phase),
{
}

/// The steps of a run follow their order. The host is woken only when the
/// first probe has failed; the mirror begins only behind an answered probe,
/// the first one or the one that ends the wake sequence; the remote session
/// is opened only behind a successful mirror; and a run succeeds only out of
/// a remote session that has succeeded.
pub proof fn law_steps_follow_the_order(
    settings: SettingsView,
    state: RunStateView,
    event: EventView,
)
    requires
        proper(state.phase),
    ensures
        ({
            let next = run_step(settings, state, event).state;
            &&& next.phase is Waking && !(state.phase is Waking) ==> state.phase
                == Phase::CheckingHost && reports_failure(event)
            &&& next.phase is Syncing && !(state.phase is Syncing) ==> {
                ||| state.phase == Phase::CheckingHost && reports_success(event)
                ||| state.phase == Phase::Waking(WakeState::Settling) && event == EventView::Elapsed
            }
            &&& next.phase == Phase::Syncing(SyncState::Flashing) && state.phase != next.phase
                ==> state.phase == Phase::Syncing(SyncState::Mirroring) && reports_success(event)
            &&& next.phase == Phase::Done(Ok(())) && state.phase != next.phase ==> state.phase
                == Phase::Syncing(SyncState::Flashing) && reports_success(event)
        }),
{
}

} // verus!
