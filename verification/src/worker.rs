//! The stream lifecycle worker's state machine.
//!
//! The worker thread is the exclusive owner of the input and output stream
//! handles.  It blocks on its command queue and, for each command received,
//! takes exactly one step of the state machine below.  The step says which
//! state the worker is in next and what it must do to the two streams; the
//! caller performs that action (both streams together) and loops until the
//! state is `Closed`.

use vstd::prelude::*;
use crate::command::AudioCommand;

verus! {

/// The lifecycle state of the pair of audio streams, always transitioned
/// together.  `Closed` is terminal: the worker processes no further command.
#[derive(Clone, Copy, PartialEq, Eq, Structural, Debug)]
pub enum WorkerState {
    /// Constructed, not started.
    Idle,
    /// Both streams playing.
    Running,
    /// Both streams paused.
    Paused,
    /// Terminal: both streams paused or stopped, the worker loop ends.
    Closed,
}

/// What the worker must do to the two stream handles after a step.
#[derive(Clone, Copy, PartialEq, Eq, Structural, Debug)]
pub enum StreamAction {
    /// Start or resume both streams; a failure here is fatal.
    StartStreams,
    /// Pause both streams; a failure here is tolerated and ignored.
    PauseStreams,
    /// Touch neither stream.
    HoldStreams,
}

/// The state machine itself.  `cmd` is the received command, or nothing when
/// the queue closed (the sender was dropped), which ends the worker just as
/// `Exit` does but without the teardown pause.
pub open spec fn spec_step(state: WorkerState, cmd: Option<AudioCommand>) -> (WorkerState, StreamAction) {
    if state is Closed {
        (WorkerState::Closed, StreamAction::HoldStreams)
    } else {
        match cmd {
            Option::Some(AudioCommand::Play) => if state is Running {
                (WorkerState::Running, StreamAction::HoldStreams)
            } else {
                (WorkerState::Running, StreamAction::StartStreams)
            },
            Option::Some(AudioCommand::Pause) => if state is Running {
                (WorkerState::Paused, StreamAction::PauseStreams)
            } else {
                (state, StreamAction::HoldStreams)
            },
            Option::Some(AudioCommand::Exit) => (WorkerState::Closed, StreamAction::PauseStreams),
            Option::None => (WorkerState::Closed, StreamAction::HoldStreams),
        }
    }
}

/// One reactive step of the worker: the next state and the stream action it
/// owes for the command received.
pub fn worker_step(state: WorkerState, cmd: Option<AudioCommand>) -> (r: (WorkerState, StreamAction))
    ensures
        r == spec_step(state, cmd),
{
    match state {
        WorkerState::Closed => (WorkerState::Closed, StreamAction::HoldStreams),
        _ => {
            match cmd {
                Option::Some(AudioCommand::Play) => {
                    if let WorkerState::Running = state {
                        (WorkerState::Running, StreamAction::HoldStreams)
                    } else {
                        (WorkerState::Running, StreamAction::StartStreams)
                    }
                },
                Option::Some(AudioCommand::Pause) => {
                    if let WorkerState::Running = state {
                        (WorkerState::Paused, StreamAction::PauseStreams)
                    } else {
                        (state, StreamAction::HoldStreams)
                    }
                },
                Option::Some(AudioCommand::Exit) => (WorkerState::Closed, StreamAction::PauseStreams),
                Option::None => (WorkerState::Closed, StreamAction::HoldStreams),
            }
        },
    }
}

/// Repeated commands are idempotent: `Pause` while already paused and `Play`
/// while already running change no state and touch no stream.
pub proof fn lemma_toggle_idempotent(state: WorkerState)
    ensures
        state is Paused ==> spec_step(state, Option::Some(AudioCommand::Pause))
            == (state, StreamAction::HoldStreams),
        state is Running ==> spec_step(state, Option::Some(AudioCommand::Play))
            == (state, StreamAction::HoldStreams),
{
}

/// `Exit` — or a closed queue — is processed as exactly one command: from
/// any state it leaves the worker in `Closed`, and once in `Closed` no
/// further command changes anything or touches a stream.
pub proof fn lemma_exit_terminates(state: WorkerState, cmd: Option<AudioCommand>)
    ensures
        spec_step(state, Option::Some(AudioCommand::Exit)).0 is Closed,
        spec_step(state, Option::None).0 is Closed,
        state is Closed ==> spec_step(state, cmd) == (WorkerState::Closed, StreamAction::HoldStreams),
{
}

/// Device calls match transitions exactly: a start is issued precisely on an
/// entry into `Running` from elsewhere, and a pause precisely on the
/// `Running` to `Paused` edge or on `Exit` teardown from a live state.
pub proof fn lemma_actions_match_transitions(state: WorkerState, cmd: Option<AudioCommand>)
    ensures
        spec_step(state, cmd).1 is StartStreams
            <==> (!(state is Running) && spec_step(state, cmd).0 is Running),
        spec_step(state, cmd).1 is PauseStreams
            <==> (!(state is Closed) && (
                (state is Running && cmd == Option::Some(AudioCommand::Pause))
                || cmd == Option::Some(AudioCommand::Exit)
            )),
{
}

} // verus!
