//! Worker lifecycle: the supervisory state machine around the audio
//! streams.
//!
//! The hosting thread owns the stream handles and a shared running flag.
//! It starts the streams, then performs a low-frequency keep-alive wait;
//! clearing the flag makes it exit the wait on its next wake, after which
//! the owning context joins the worker and releases the streams. The
//! decisions live here; performing the actions (opening devices, starting
//! streams, sleeping, joining) is the host's business.

use vstd::prelude::*;

verus! {

/// The supervisory states, in lifecycle order.
#[derive(Clone, Copy, PartialEq, Eq, Structural, Debug)]
pub enum WorkerState {
    Uninitialized,
    Running,
    Stopping,
    Stopped,
}

/// What the host must do next.
#[derive(Clone, Copy, PartialEq, Eq, Structural, Debug)]
pub enum WorkerAction {
    /// Open the devices, register the render callback, start the streams.
    StartStreams,
    /// Keep the supervisory thread in its coarse wait.
    KeepAlive,
    /// Leave the wait loop: shutdown has been requested.
    ExitWait,
    /// Join the worker thread and release the stream handles.
    JoinWorker,
    /// Nothing remains to be done.
    Idle,
}

/// A fatal startup error: no usable device, or the host refused a stream.
/// Unrecoverable by design; the engine never retries.
#[derive(Clone, Copy, PartialEq, Eq, Structural, Debug)]
pub enum StartupError {
    NoInputDevice,
    NoOutputDevice,
    StreamBuild,
    StreamStart,
}

/// A fatal teardown error: the worker thread could not be joined.
#[derive(Clone, Copy, PartialEq, Eq, Structural, Debug)]
pub enum TeardownError {
    JoinFailed,
}

/// The startup device check: opening the engine needs both a default
/// input and a default output device; a missing one is fatal, the input
/// reported first.
pub fn check_devices(has_input: bool, has_output: bool) -> (r: Result<(), StartupError>)
    ensures
        has_input && has_output <==> r is Ok,
        !has_input ==> r == Result::<(), StartupError>::Err(StartupError::NoInputDevice),
        has_input && !has_output ==> r == Result::<(), StartupError>::Err(
            StartupError::NoOutputDevice,
        ),
{
    if !has_input {
        Err(StartupError::NoInputDevice)
    } else if !has_output {
        Err(StartupError::NoOutputDevice)
    } else {
        Ok(())
    }
}

/// The transition function: from a state and the current value of the
/// shared running flag to the next state and the host's next action.
pub open spec fn lifecycle_spec(s: WorkerState, running: bool) -> (WorkerState, WorkerAction) {
    match s {
        WorkerState::Uninitialized => (WorkerState::Running, WorkerAction::StartStreams),
        WorkerState::Running => if running {
            (WorkerState::Running, WorkerAction::KeepAlive)
        } else {
            (WorkerState::Stopping, WorkerAction::ExitWait)
        },
        WorkerState::Stopping => (WorkerState::Stopped, WorkerAction::JoinWorker),
        WorkerState::Stopped => (WorkerState::Stopped, WorkerAction::Idle),
    }
}

/// One supervisory step.
pub fn lifecycle_step(s: WorkerState, running: bool) -> (r: (WorkerState, WorkerAction))
    ensures
        r == lifecycle_spec(s, running),
{
    match s {
        WorkerState::Uninitialized => (WorkerState::Running, WorkerAction::StartStreams),
        WorkerState::Running => if running {
            (WorkerState::Running, WorkerAction::KeepAlive)
        } else {
            (WorkerState::Stopping, WorkerAction::ExitWait)
        },
        WorkerState::Stopping => (WorkerState::Stopped, WorkerAction::JoinWorker),
        WorkerState::Stopped => (WorkerState::Stopped, WorkerAction::Idle),
    }
}

/// Shutdown happens within one poll: once the flag is cleared, the very
/// next supervisory wake exits the wait, and the step after that joins
/// the worker and reaches `Stopped`.
pub proof fn lemma_shutdown_within_one_poll()
    ensures
        lifecycle_spec(WorkerState::Running, false).0 == WorkerState::Stopping,
        lifecycle_spec(WorkerState::Running, false).1 == WorkerAction::ExitWait,
        lifecycle_spec(lifecycle_spec(WorkerState::Running, false).0, false).0
            == WorkerState::Stopped,
        lifecycle_spec(lifecycle_spec(WorkerState::Running, false).0, false).1
            == WorkerAction::JoinWorker,
{
}

/// While the flag stays set, the supervisory thread never leaves its
/// keep-alive wait.
pub proof fn lemma_keep_alive_while_running()
    ensures
        lifecycle_spec(WorkerState::Running, true).0 == WorkerState::Running,
        lifecycle_spec(WorkerState::Running, true).1 == WorkerAction::KeepAlive,
{
}

} // verus!
