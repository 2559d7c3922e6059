//! The commands that steer a running simulation, and the screens of the
//! application, as pure transitions: the caller performs what they ask.

use vstd::prelude::*;

verus! {

/// A command sent to the loop that runs the simulation.
#[derive(Clone, Copy, Debug, PartialEq, Eq, Structural)]
pub enum ControlCommand {
    Start,
    Stop,
    Status,
    Reset,
}

/// What the loop has to do after a command.
#[derive(Clone, Copy, Debug, PartialEq, Eq, Structural)]
pub enum RunnerEffect {
    /// Nothing: the command asked for the state that already holds.
    Nothing,
    /// Announce that the simulation has started.
    AnnounceStarted,
    /// Announce that the simulation has stopped.
    AnnounceStopped,
    /// Report whether the simulation is running.
    ReportStatus { running: bool },
    /// Put the simulation back into its initial state.
    ResetSimulation,
}

/// Whether the simulation runs after `command`, and what the loop has to
/// do: `Start` and `Stop` take effect only where they change something,
/// `Status` changes nothing, `Reset` always stops.
pub open spec fn handled(running: bool, command: ControlCommand) -> (bool, RunnerEffect) {
    match command {
        ControlCommand::Start => if running {
            (true, RunnerEffect::Nothing)
        } else {
            (true, RunnerEffect::AnnounceStarted)
        },
        ControlCommand::Stop => if running {
            (false, RunnerEffect::AnnounceStopped)
        } else {
            (false, RunnerEffect::Nothing)
        },
        ControlCommand::Status => (running, RunnerEffect::ReportStatus { running }),
        ControlCommand::Reset => (false, RunnerEffect::ResetSimulation),
    }
}

/// Applies `command` to a loop that is running or not.
pub fn handle_command(running: bool, command: ControlCommand) -> (next: (bool, RunnerEffect))
    ensures
        next == handled(running, command),
{
    match command {
        ControlCommand::Start => if running {
            (true, RunnerEffect::Nothing)
        } else {
            (true, RunnerEffect::AnnounceStarted)
        },
        ControlCommand::Stop => if running {
            (false, RunnerEffect::AnnounceStopped)
        } else {
            (false, RunnerEffect::Nothing)
        },
        ControlCommand::Status => (running, RunnerEffect::ReportStatus { running }),
        ControlCommand::Reset => (false, RunnerEffect::ResetSimulation),
    }
}

/// Lines of the log that are kept.
pub const LOG_CAPACITY: usize = 100;

/// The log after `line` is recorded: the line is added at the end, and the
/// oldest line is dropped where that makes more lines than are kept.
pub open spec fn recorded(logs: Seq<String>, line: String) -> Seq<String> {
    if logs.len() + 1 > LOG_CAPACITY {
        logs.push(line).subrange(1, logs.len() as int + 1)
    } else {
        logs.push(line)
    }
}

/// Records `line` in the log.
pub fn record_log(logs: &mut Vec<String>, line: String)
    ensures
        final(logs)@ == recorded(old(logs)@, line),
        old(logs)@.len() <= LOG_CAPACITY ==> final(logs)@.len() <= LOG_CAPACITY,
{
    logs.push(line);
    if logs.len() > LOG_CAPACITY {
        logs.remove(0);
    }
    assert(final(logs)@ =~= recorded(old(logs)@, line));
}

/// The screen that the application shows.
#[derive(Clone, Copy, Debug, PartialEq, Eq, Structural)]
pub enum AppState {
    MainMenu,
    PlantCreator,
    Simulation,
}

/// What the user asks of the application.
#[derive(Clone, Copy, Debug, PartialEq, Eq, Structural)]
pub enum AppEvent {
    /// Open the plant creator.
    OpenCreator,
    /// Go on with the simulation that exists.
    ContinueSimulation,
    /// Go back to the main menu.
    Back,
    /// Start the simulation that the plant creator has set up.
    Launch,
}

/// The screen after `event`: the main menu leads to the creator, and to
/// the simulation where one exists; the creator leads back or launches the
/// simulation; the simulation leads back. Any other event changes nothing.
pub open spec fn navigated(state: AppState, has_simulation: bool, event: AppEvent) -> AppState {
    match (state, event) {
        (AppState::MainMenu, AppEvent::OpenCreator) => AppState::PlantCreator,
        (AppState::MainMenu, AppEvent::ContinueSimulation) => if has_simulation {
            AppState::Simulation
        } else {
            AppState::MainMenu
        },
        (AppState::PlantCreator, AppEvent::Back) => AppState::MainMenu,
        (AppState::PlantCreator, AppEvent::Launch) => AppState::Simulation,
        (AppState::Simulation, AppEvent::Back) => AppState::MainMenu,
        _ => state,
    }
}

/// The screen to show: the main menu in place of a simulation that does
/// not exist.
pub open spec fn shown(state: AppState, has_simulation: bool) -> AppState {
    if state == AppState::Simulation && !has_simulation {
        AppState::MainMenu
    } else {
        state
    }
}

/// The screen after `event`.
pub fn navigate(state: AppState, has_simulation: bool, event: AppEvent) -> (next: AppState)
    ensures
        next == navigated(state, has_simulation, event),
{
    match (state, event) {
        (AppState::MainMenu, AppEvent::OpenCreator) => AppState::PlantCreator,
        (AppState::MainMenu, AppEvent::ContinueSimulation) => if has_simulation {
            AppState::Simulation
        } else {
            AppState::MainMenu
        },
        (AppState::PlantCreator, AppEvent::Back) => AppState::MainMenu,
        (AppState::PlantCreator, AppEvent::Launch) => AppState::Simulation,
        (AppState::Simulation, AppEvent::Back) => AppState::MainMenu,
        _ => state,
    }
}

/// The screen to show.
pub fn screen_to_show(state: AppState, has_simulation: bool) -> (next: AppState)
    ensures
        next == shown(state, has_simulation),
{
    match state {
        AppState::Simulation => if has_simulation {
            AppState::Simulation
        } else {
            AppState::MainMenu
        },
        _ => state,
    }
}

} // verus!
