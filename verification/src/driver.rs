//! The whole run, from the command line to the end of the remote session.
//!
//! The run is a state machine: resolve the inputs, check that the host is
//! up, wake it if it is not, mirror the workspace, flash the project. The
//! caller performs each [`Action`] and reports its result as an [`Event`];
//! [`step`] decides what happens next. Whatever goes wrong ends the run
//! with the error of the step that failed.

use vstd::prelude::*;
use vstd::slice::slice_to_vec;
use crate::arguments::{chosen_project, project_argument, InputError};
use crate::chip::Chip;
use crate::config::resolve::{resolution, resolve_chip, ConfigError};
use crate::process::{
    flash_command, flash_script, mirror_command, mirror_invocation, ping_command, ping_invocation,
    remote_command, remote_invocation, start_vm_command, start_vm_invocation, texts, Invocation,
    InvocationView, ProcessOutcome,
};
use crate::settings::{text_of, Settings, SettingsView};
use crate::sync::{sync_step, SyncAction, SyncError, SyncState, SyncStep};
use crate::wake::{wake_step, WakeAction, WakeError, WakeEvent, WakeNotice, WakeState, WakeStep};

verus! {

/// Why a run failed: the error of the step that failed.
#[derive(Clone, Copy, Debug, PartialEq, Eq)]
pub enum RunError {
    /// The inputs of the run could not be resolved.
    Input(InputError),
    /// No chip could be derived from the build configuration.
    Config(ConfigError),
    /// The host was down and could not be woken.
    Wake(WakeError),
    /// The mirror or the remote session failed.
    Sync(SyncError),
    /// An event arrived that does not answer the action last requested.
    OutOfTurn,
}

/// The step that a run is at.
#[derive(Clone, Copy, Debug, PartialEq, Eq)]
pub enum Phase {
    /// The command line has been asked for.
    ReadingArguments,
    /// The home directory has been asked for.
    ReadingHome,
    /// The project directory is being looked for.
    Locating,
    /// The build configuration of the project is being read.
    ReadingBuildConfig,
    /// The first probe of the host has been requested.
    CheckingHost,
    /// The host did not answer and is being woken.
    Waking(WakeState),
    /// The host is up; the workspace is being mirrored or the project flashed.
    Syncing(SyncState),
    /// The run is over.
    Done(Result<(), RunError>),
}

/// Where a run stands, and what it has found out so far.
#[derive(Debug, PartialEq, Eq)]
pub struct RunState {
    pub phase: Phase,
    /// The name of the project; empty until the arguments are read.
    pub project: String,
    /// The local directory of the workspace; empty until the home directory
    /// is known.
    pub workspace: String,
    /// The chip to flash for, where the build configuration names one.
    pub chip: Option<Chip>,
}

impl Clone for RunState {
    fn clone(&self) -> (copy: RunState)
        ensures
            copy@ == self@,
    {
        RunState {
            phase: self.phase,
            project: self.project.clone(),
            workspace: self.workspace.clone(),
            chip: self.chip,
        }
    }
}

/// The mathematical content of a [`RunState`].
pub struct RunStateView {
    pub phase: Phase,
    pub project: Seq<char>,
    pub workspace: Seq<char>,
    pub chip: Option<Chip>,
}

impl View for RunState {
    type V = RunStateView;

    open spec fn view(&self) -> RunStateView {
        RunStateView {
            phase: self.phase,
            project: self.project@,
            workspace: self.workspace@,
            chip: self.chip,
        }
    }
}

/// What the caller reports back.
#[derive(Debug, PartialEq, Eq)]
pub enum Event {
    /// The arguments of the command line that follow the program's name.
    Arguments(Vec<String>),
    /// The home directory of the operator, if it is known.
    Home(Option<String>),
    /// Whether the path asked about exists.
    Path { exists: bool },
    /// The bytes of the file asked for, or `None` if it could not be read.
    FileRead(Option<Vec<u8>>),
    /// How the command last requested ended.
    Exit(ProcessOutcome),
    /// The time asked for has passed.
    Elapsed,
}

impl Clone for Event {
    fn clone(&self) -> (copy: Event)
        ensures
            copy@ == self@,
    {
        match self {
            Event::Arguments(arguments) => {
                let mut copies: Vec<String> = Vec::new();
                let mut n: usize = 0;
                while n < arguments.len()
                    invariant
                        n <= arguments@.len(),
                        copies@.len() == n,
                        forall|i: int| 0 <= i < n ==> copies@[i]@ == arguments@[i]@,
                    decreases arguments@.len() - n,
                {
                    copies.push(arguments[n].clone());
                    n += 1;
                }
                assert(texts(copies@) =~= texts(arguments@));
                Event::Arguments(copies)
            },
            Event::Home(Some(home)) => Event::Home(Some(home.clone())),
            Event::Home(None) => Event::Home(None),
            Event::Path { exists } => Event::Path { exists: *exists },
            Event::FileRead(Some(bytes)) => Event::FileRead(Some(slice_to_vec(bytes.as_slice()))),
            Event::FileRead(None) => Event::FileRead(None),
            Event::Exit(outcome) => Event::Exit(*outcome),
            Event::Elapsed => Event::Elapsed,
        }
    }
}

/// The mathematical content of an [`Event`].
pub enum EventView {
    Arguments(Seq<Seq<char>>),
    Home(Option<Seq<char>>),
    Path { exists: bool },
    FileRead(Option<Seq<u8>>),
    Exit(ProcessOutcome),
    Elapsed,
}

/// The bytes of a file that may be missing.
pub open spec fn bytes_of(contents: Option<Vec<u8>>) -> Option<Seq<u8>> {
    match contents {
        Some(bytes) => Some(bytes@),
        None => None,
    }
}

impl View for Event {
    type V = EventView;

    open spec fn view(&self) -> EventView {
        match self {
            Event::Arguments(arguments) => EventView::Arguments(texts(arguments@)),
            Event::Home(home) => EventView::Home(text_of(*home)),
            Event::Path { exists } => EventView::Path { exists: *exists },
            Event::FileRead(contents) => EventView::FileRead(bytes_of(*contents)),
            Event::Exit(outcome) => EventView::Exit(*outcome),
            Event::Elapsed => EventView::Elapsed,
        }
    }
}

/// What the caller is asked to do next.
#[derive(Debug, PartialEq, Eq)]
pub enum Action {
    /// Report the arguments of the command line.
    ReadArguments,
    /// Report the home directory of the operator.
    ReadHome,
    /// Report whether anything exists at `path`.
    CheckPath { path: String },
    /// Report the contents of the file at `path`.
    ReadFile { path: String },
    /// Run the command to its end and report how it ended.
    Run(Invocation),
    /// Wait for the given number of seconds.
    Sleep { seconds: u64 },
    /// Stop; this is the result of the run.
    Finish(Result<(), RunError>),
}

impl Clone for Action {
    fn clone(&self) -> (copy: Action)
        ensures
            copy@ == self@,
    {
        match self {
            Action::ReadArguments => Action::ReadArguments,
            Action::ReadHome => Action::ReadHome,
            Action::CheckPath { path } => Action::CheckPath { path: path.clone() },
            Action::ReadFile { path } => Action::ReadFile { path: path.clone() },
            Action::Run(invocation) => Action::Run(invocation.clone()),
            Action::Sleep { seconds } => Action::Sleep { seconds: *seconds },
            Action::Finish(result) => Action::Finish(*result),
        }
    }
}

/// The mathematical content of an [`Action`].
pub enum ActionView {
    ReadArguments,
    ReadHome,
    CheckPath { path: Seq<char> },
    ReadFile { path: Seq<char> },
    Run(InvocationView),
    Sleep { seconds: u64 },
    Finish(Result<(), RunError>),
}

impl View for Action {
    type V = ActionView;

    open spec fn view(&self) -> ActionView {
        match self {
            Action::ReadArguments => ActionView::ReadArguments,
            Action::ReadHome => ActionView::ReadHome,
            Action::CheckPath { path } => ActionView::CheckPath { path: path@ },
            Action::ReadFile { path } => ActionView::ReadFile { path: path@ },
            Action::Run(invocation) => ActionView::Run(invocation@),
            Action::Sleep { seconds } => ActionView::Sleep { seconds: *seconds },
            Action::Finish(result) => ActionView::Finish(*result),
        }
    }
}

/// Progress worth showing to the operator.
#[derive(Clone, Copy, Debug, PartialEq, Eq)]
pub enum Notice {
    /// The host did not answer the first probe; it will be started.
    HostDown,
    /// Progress of the wake sequence.
    Wake(WakeNotice),
}

/// One transition of the run.
#[derive(Debug, PartialEq, Eq)]
pub struct Step {
    /// The state after the transition.
    pub state: RunState,
    /// What to tell the operator, if anything.
    pub notice: Option<Notice>,
    /// What to do next.
    pub action: Action,
}

impl Clone for Step {
    fn clone(&self) -> (copy: Step)
        ensures
            copy@ == self@,
    {
        Step { state: self.state.clone(), notice: self.notice, action: self.action.clone() }
    }
}

/// The mathematical content of a [`Step`].
pub struct StepView {
    pub state: RunStateView,
    pub notice: Option<Notice>,
    pub action: ActionView,
}

impl View for Step {
    type V = StepView;

    open spec fn view(&self) -> StepView {
        StepView { state: self.state@, notice: self.notice, action: self.action@ }
    }
}

/// The local directory of the workspace, under the home directory.
pub open spec fn workspace_path(home: Seq<char>, workspace: Seq<char>) -> Seq<char> {
    home + "/"@ + workspace
}

/// The directory of `project` inside the workspace directory.
pub open spec fn project_path(workspace: Seq<char>, project: Seq<char>) -> Seq<char> {
    workspace + "/projects/"@ + project
}

/// The place of the build configuration `file` of the project at `project`.
pub open spec fn config_path(project: Seq<char>, file: Seq<char>) -> Seq<char> {
    project + "/"@ + file
}

/// The first state and action of every run.
pub open spec fn initial_step() -> StepView {
    StepView {
        state: RunStateView {
            phase: Phase::ReadingArguments,
            project: Seq::empty(),
            workspace: Seq::empty(),
            chip: None,
        },
        notice: None,
        action: ActionView::ReadArguments,
    }
}

/// The transition that ends the run with `result`.
pub open spec fn finished(state: RunStateView, result: Result<(), RunError>) -> StepView {
    StepView {
        state: RunStateView { phase: Phase::Done(result), ..state },
        notice: None,
        action: ActionView::Finish(result),
    }
}

/// The transition that requests the first probe of the host.
pub open spec fn probing(settings: SettingsView, state: RunStateView) -> StepView {
    StepView {
        state: RunStateView { phase: Phase::CheckingHost, ..state },
        notice: None,
        action: ActionView::Run(ping_command(settings.host)),
    }
}

/// The transition of the run that goes with the transition `moved` of the
/// mirror-and-flash sequence.
pub open spec fn syncing(settings: SettingsView, state: RunStateView, moved: SyncStep) -> StepView {
    let action = match moved.action {
        SyncAction::Mirror => ActionView::Run(
            mirror_command(state.workspace, settings.host, settings.remote_root),
        ),
        SyncAction::Flash => ActionView::Run(
            remote_command(
                settings.host,
                flash_script(
                    settings.remote_workspace,
                    state.project,
                    settings.flash_tool,
                    state.chip,
                ),
            ),
        ),
        SyncAction::Finish(Ok(_)) => ActionView::Finish(Ok(())),
        SyncAction::Finish(Err(error)) => ActionView::Finish(Err(RunError::Sync(error))),
    };
    let phase = match action {
        ActionView::Finish(result) => Phase::Done(result),
        _ => Phase::Syncing(moved.state),
    };
    StepView { state: RunStateView { phase, ..state }, notice: None, action }
}

/// The transition of the run that goes with the transition `moved` of the
/// wake sequence. A successful wake leads straight into the mirror.
pub open spec fn waking(
    settings: SettingsView,
    state: RunStateView,
    moved: WakeStep,
    announce: Option<Notice>,
) -> StepView {
    let notice = match (announce, moved.notice) {
        (Some(notice), _) => Some(notice),
        (None, Some(notice)) => Some(Notice::Wake(notice)),
        (None, None) => None,
    };
    let onward = RunStateView { phase: Phase::Waking(moved.state), ..state };
    match moved.action {
        WakeAction::StartVm => StepView {
            state: onward,
            notice,
            action: ActionView::Run(start_vm_command(settings.vm_tool, settings.vm_image)),
        },
        WakeAction::Sleep { seconds } => StepView {
            state: onward,
            notice,
            action: ActionView::Sleep { seconds },
        },
        WakeAction::Probe => StepView {
            state: onward,
            notice,
            action: ActionView::Run(ping_command(settings.host)),
        },
        WakeAction::Finish(Ok(_)) => StepView {
            notice,
            ..syncing(settings, state, crate::sync::initial_step())
        },
        WakeAction::Finish(Err(error)) => StepView {
            notice,
            ..finished(state, Err(RunError::Wake(error)))
        },
    }
}

/// The transition relation of the run.
///
/// * The inputs are resolved first: the project from the command line, the
///   workspace from the home directory, the project directory, and, where
///   the settings ask for it, the chip from the build configuration.
/// * Then the host is probed once. If it answers, the mirror begins; if not,
///   the wake sequence runs, and the mirror begins when it has succeeded.
/// * The remote session follows the mirror.
/// * The first error ends the run. A finished run stays finished, and an
///   event that does not answer the pending action ends the run.
pub open spec fn run_step(settings: SettingsView, state: RunStateView, event: EventView) -> StepView {
    match (state.phase, event) {
        (Phase::Done(result), _) => finished(state, result),
        (Phase::ReadingArguments, EventView::Arguments(arguments)) => match chosen_project(
            arguments,
        ) {
            Ok(project) => StepView {
                state: RunStateView { phase: Phase::ReadingHome, project, ..state },
                notice: None,
                action: ActionView::ReadHome,
            },
            Err(error) => finished(state, Err(RunError::Input(error))),
        },
        (Phase::ReadingHome, EventView::Home(Some(home))) => {
            let workspace = workspace_path(home, settings.workspace);
            StepView {
                state: RunStateView { phase: Phase::Locating, workspace, ..state },
                notice: None,
                action: ActionView::CheckPath { path: project_path(workspace, state.project) },
            }
        },
        (Phase::ReadingHome, EventView::Home(None)) => finished(
            state,
            Err(RunError::Input(InputError::NoHome)),
        ),
        (Phase::Locating, EventView::Path { exists }) => if !exists {
            finished(state, Err(RunError::Input(InputError::ProjectNotFound)))
        } else {
            match settings.build_config {
                Some(file) => StepView {
                    state: RunStateView { phase: Phase::ReadingBuildConfig, ..state },
                    notice: None,
                    action: ActionView::ReadFile {
                        path: config_path(project_path(state.workspace, state.project), file),
                    },
                },
                None => probing(settings, state),
            }
        },
        (Phase::ReadingBuildConfig, EventView::FileRead(contents)) => match resolution(contents) {
            Ok(chip) => probing(settings, RunStateView { chip: Some(chip), ..state }),
            Err(error) => finished(state, Err(RunError::Config(error))),
        },
        (Phase::CheckingHost, EventView::Exit(outcome)) => if outcome.succeeded() {
            syncing(settings, state, crate::sync::initial_step())
        } else {
            waking(settings, state, crate::wake::initial_step(), Some(Notice::HostDown))
        },
        (Phase::Waking(wake), EventView::Exit(outcome)) => waking(
            settings,
            state,
            wake_step(settings.wake, wake, WakeEvent::Exit(outcome)),
            None,
        ),
        (Phase::Waking(wake), EventView::Elapsed) => waking(
            settings,
            state,
            wake_step(settings.wake, wake, WakeEvent::Elapsed),
            None,
        ),
        (Phase::Syncing(sync), EventView::Exit(outcome)) => syncing(
            settings,
            state,
            sync_step(sync, outcome),
        ),
        _ => finished(state, Err(RunError::OutOfTurn)),
    }
}

/// The action that a run is waiting for in `state`. Every transition asks
/// for the action that is pending in the state it leads to.
pub open spec fn pending(settings: SettingsView, state: RunStateView) -> ActionView {
    let project = project_path(state.workspace, state.project);
    match state.phase {
        Phase::ReadingArguments => ActionView::ReadArguments,
        Phase::ReadingHome => ActionView::ReadHome,
        Phase::Locating => ActionView::CheckPath { path: project },
        Phase::ReadingBuildConfig => ActionView::ReadFile {
            path: match settings.build_config {
                Some(file) => config_path(project, file),
                None => project,
            },
        },
        Phase::CheckingHost => ActionView::Run(ping_command(settings.host)),
        Phase::Waking(wake) => waking(
            settings,
            state,
            WakeStep {
                state: wake,
                notice: None,
                action: crate::wake::pending(settings.wake, wake),
            },
            None,
        ).action,
        Phase::Syncing(sync) => syncing(
            settings,
            state,
            SyncStep { state: sync, action: crate::sync::pending(sync) },
        ).action,
        Phase::Done(result) => ActionView::Finish(result),
    }
}

/// Ends the run with `result`.
fn finish_run(state: RunState, result: Result<(), RunError>) -> (last: Step)
    ensures
        last@ == finished(state@, result),
{
    Step {
        state: RunState {
            phase: Phase::Done(result),
            project: state.project,
            workspace: state.workspace,
            chip: state.chip,
        },
        notice: None,
        action: Action::Finish(result),
    }
}

/// Requests the first probe of the host.
fn begin_probe(settings: &Settings, state: RunState) -> (next: Step)
    ensures
        next@ == probing(settings@, state@),
{
    Step {
        state: RunState {
            phase: Phase::CheckingHost,
            project: state.project,
            workspace: state.workspace,
            chip: state.chip,
        },
        notice: None,
        action: Action::Run(ping_invocation(settings.host.as_str())),
    }
}

/// Carries a transition of the mirror-and-flash sequence over to the run.
fn advance_sync(settings: &Settings, state: RunState, moved: SyncStep) -> (next: Step)
    ensures
        next@ == syncing(settings@, state@, moved),
{
    let action = match moved.action {
        SyncAction::Mirror => Action::Run(
            mirror_invocation(
                state.workspace.as_str(),
                settings.host.as_str(),
                settings.remote_root.as_str(),
            ),
        ),
        SyncAction::Flash => {
            let script = flash_command(
                settings.remote_workspace.as_str(),
                state.project.as_str(),
                settings.flash_tool.as_str(),
                state.chip,
            );
            Action::Run(remote_invocation(settings.host.as_str(), script.as_str()))
        },
        SyncAction::Finish(Ok(_)) => Action::Finish(Ok(())),
        SyncAction::Finish(Err(error)) => Action::Finish(Err(RunError::Sync(error))),
    };
    let phase = match &action {
        Action::Finish(result) => Phase::Done(*result),
        _ => Phase::Syncing(moved.state),
    };
    Step {
        state: RunState {
            phase,
            project: state.project,
            workspace: state.workspace,
            chip: state.chip,
        },
        notice: None,
        action,
    }
}

/// Carries a transition of the wake sequence over to the run.
fn advance_wake(
    settings: &Settings,
    state: RunState,
    moved: WakeStep,
    announce: Option<Notice>,
) -> (next: Step)
    ensures
        next@ == waking(settings@, state@, moved, announce),
{
    let notice = match (announce, moved.notice) {
        (Some(notice), _) => Some(notice),
        (None, Some(notice)) => Some(Notice::Wake(notice)),
        (None, None) => None,
    };
    let action = match moved.action {
        WakeAction::StartVm => Action::Run(
            start_vm_invocation(settings.vm_tool.as_str(), settings.vm_image.as_str()),
        ),
        WakeAction::Sleep { seconds } => Action::Sleep { seconds },
        WakeAction::Probe => Action::Run(ping_invocation(settings.host.as_str())),
        WakeAction::Finish(Ok(_)) => {
            let next = advance_sync(settings, state, crate::sync::start());
            return Step { state: next.state, notice, action: next.action };
        },
        WakeAction::Finish(Err(error)) => {
            let last = finish_run(state, Err(RunError::Wake(error)));
            return Step { state: last.state, notice, action: last.action };
        },
    };
    Step {
        state: RunState {
            phase: Phase::Waking(moved.state),
            project: state.project,
            workspace: state.workspace,
            chip: state.chip,
        },
        notice,
        action,
    }
}

/// Begins a run: the command line is to be read.
pub fn start() -> (first: Step)
    ensures
        first@ == initial_step(),
{
    Step {
        state: RunState {
            phase: Phase::ReadingArguments,
            project: String::new(),
            workspace: String::new(),
            chip: None,
        },
        notice: None,
        action: Action::ReadArguments,
    }
}

/// Advances the run by one event.
pub fn step(settings: &Settings, state: RunState, event: Event) -> (next: Step)
    ensures
        next@ == run_step(settings@, state@, event@),
        next@.action == pending(settings@, next@.state),
{
    match (state.phase, event) {
        (Phase::Done(result), _) => finish_run(state, result),
        (Phase::ReadingArguments, Event::Arguments(arguments)) => {
            match project_argument(&arguments) {
                Ok(project) => Step {
                    state: RunState {
                        phase: Phase::ReadingHome,
                        project,
                        workspace: state.workspace,
                        chip: state.chip,
                    },
                    notice: None,
                    action: Action::ReadHome,
                },
                Err(error) => finish_run(state, Err(RunError::Input(error))),
            }
        },
        (Phase::ReadingHome, Event::Home(Some(home))) => {
            let mut workspace = home;
            workspace.append("/");
            workspace.append(settings.workspace.as_str());
            let mut path = workspace.clone();
            path.append("/projects/");
            path.append(state.project.as_str());
            Step {
                state: RunState {
                    phase: Phase::Locating,
                    project: state.project,
                    workspace,
                    chip: state.chip,
                },
                notice: None,
                action: Action::CheckPath { path },
            }
        },
        (Phase::ReadingHome, Event::Home(None)) => finish_run(
            state,
            Err(RunError::Input(InputError::NoHome)),
        ),
        (Phase::Locating, Event::Path { exists }) => {
            if !exists {
                finish_run(state, Err(RunError::Input(InputError::ProjectNotFound)))
            } else {
                match &settings.build_config {
                    Some(file) => {
                        let mut path = state.workspace.clone();
                        path.append("/projects/");
                        path.append(state.project.as_str());
                        path.append("/");
                        path.append(file.as_str());
                        Step {
                            state: RunState {
                                phase: Phase::ReadingBuildConfig,
                                project: state.project,
                                workspace: state.workspace,
                                chip: state.chip,
                            },
                            notice: None,
                            action: Action::ReadFile { path },
                        }
                    },
                    None => begin_probe(settings, state),
                }
            }
        },
        (Phase::ReadingBuildConfig, Event::FileRead(contents)) => {
            let resolved = match &contents {
                Some(bytes) => resolve_chip(Some(bytes.as_slice())),
                None => resolve_chip(None),
            };
            match resolved {
                Ok(chip) => begin_probe(
                    settings,
                    RunState {
                        phase: state.phase,
                        project: state.project,
                        workspace: state.workspace,
                        chip: Some(chip),
                    },
                ),
                Err(error) => finish_run(state, Err(RunError::Config(error))),
            }
        },
        (Phase::CheckingHost, Event::Exit(outcome)) => {
            if outcome.is_success() {
                advance_sync(settings, state, crate::sync::start())
            } else {
                advance_wake(settings, state, crate::wake::start(), Some(Notice::HostDown))
            }
        },
        (Phase::Waking(wake), Event::Exit(outcome)) => {
            let moved = crate::wake::step(&settings.wake, wake, WakeEvent::Exit(outcome));
            advance_wake(settings, state, moved, None)
        },
        (Phase::Waking(wake), Event::Elapsed) => {
            let moved = crate::wake::step(&settings.wake, wake, WakeEvent::Elapsed);
            advance_wake(settings, state, moved, None)
        },
        (Phase::Syncing(sync), Event::Exit(outcome)) => {
            let moved = crate::sync::step(sync, outcome);
            advance_sync(settings, state, moved)
        },
        _ => finish_run(state, Err(RunError::OutOfTurn)),
    }
}

/// The state that a run reaches from `state` when `events` arrive in order,
/// whether or not each of them answers what was asked.
pub open spec fn state_after(
    settings: SettingsView,
    state: RunStateView,
    events: Seq<EventView>,
) -> RunStateView
    decreases events.len(),
{
    if events.len() == 0 {
        state
    } else {
        state_after(settings, run_step(settings, state, events[0]).state, events.drop_first())
    }
}

/// The actions that a run requests from `state` on when `events` arrive in
/// order: one for each event.
pub open spec fn actions_of(
    settings: SettingsView,
    state: RunStateView,
    events: Seq<EventView>,
) -> Seq<ActionView>
    decreases events.len(),
{
    if events.len() == 0 {
        Seq::empty()
    } else {
        let moved = run_step(settings, state, events[0]);
        seq![moved.action] + actions_of(settings, moved.state, events.drop_first())
    }
}

/// The run has not yet turned to the host: it is resolving its inputs, or it
/// has ended over them.
pub open spec fn before_host(phase: Phase) -> bool {
    match phase {
        Phase::ReadingArguments => true,
        Phase::ReadingHome => true,
        Phase::Locating => true,
        Phase::ReadingBuildConfig => true,
        Phase::Done(Err(RunError::Input(_))) => true,
        Phase::Done(Err(RunError::Config(_))) => true,
        _ => false,
    }
}

/// A finished run stays finished: whatever arrives afterwards, the state
/// does not change and every answer is the result of the run again.
pub proof fn law_finished_is_final(
    settings: SettingsView,
    state: RunStateView,
    events: Seq<EventView>,
)
    requires
        state.phase is Done,
    ensures
        state_after(settings, state, events) == state,
        actions_of(settings, state, events).len() == events.len(),
        forall|i: int|
            0 <= i < events.len() ==> #[trigger] actions_of(settings, state, events)[i]
                == ActionView::Finish(state.phase->Done_0),
    decreases events.len(),
{
    if events.len() > 0 {
        law_finished_is_final(settings, state, events.drop_first());
    }
}

/// The inputs come first: as long as a run is resolving its inputs, and when
/// it has ended over them, it has not asked for any command to be run.
/// Whatever events lead to such a state, no action on the way is a `Run`.
pub proof fn law_inputs_come_first(
    settings: SettingsView,
    state: RunStateView,
    events: Seq<EventView>,
)
    requires
        before_host(state_after(settings, state, events).phase),
    ensures
        before_host(state.phase),
        actions_of(settings, state, events).len() == events.len(),
        forall|i: int|
            0 <= i < events.len() ==> !(#[trigger] actions_of(settings, state, events)[i] is Run),
    decreases events.len(),
{
    if events.len() > 0 {
        let moved = run_step(settings, state, events[0]);
        law_inputs_come_first(settings, moved.state, events.drop_first());
    }
}

/// More than one argument on the command line ends the run at once with the
/// error for extra arguments, and nothing is ever run: whatever arrives
/// afterwards, every answer is that error again.
pub proof fn law_extra_arguments_run_nothing(
    settings: SettingsView,
    arguments: Seq<Seq<char>>,
    later: Seq<EventView>,
)
    requires
        arguments.len() > 1,
    ensures
        ({
            let events = seq![EventView::Arguments(arguments)] + later;
            let trace = actions_of(settings, initial_step().state, events);
            &&& trace.len() == events.len()
            &&& forall|i: int|
                0 <= i < trace.len() ==> #[trigger] trace[i] == ActionView::Finish(
                    Err(RunError::Input(InputError::ExtraArguments)),
                )
        }),
{
    let events = seq![EventView::Arguments(arguments)] + later;
    let moved = run_step(settings, initial_step().state, events[0]);
    assert(events.drop_first() =~= later);
    law_finished_is_final(settings, moved.state, later);
}

} // verus!
