//! Commands sent from the control side to the stream lifecycle worker, and
//! the control side's own toggle bookkeeping.

use vstd::prelude::*;

verus! {

/// A discrete control event for the stream lifecycle worker.  Commands are
/// delivered in send order and processed one at a time.
#[derive(Clone, Copy, PartialEq, Eq, Structural, Debug)]
pub enum AudioCommand {
    /// Start or resume both streams.
    Play,
    /// Pause both streams.
    Pause,
    /// Pause both streams (best effort) and end the worker.
    Exit,
}

/// Decide the next command for a pause toggle, given the control side's
/// mirror of the last command sent, and return the updated mirror.
///
/// The mirror is advisory only: it tracks what was last requested, not what
/// the worker actually did.
pub fn toggle_command(is_paused: bool) -> (r: (AudioCommand, bool))
    ensures
        is_paused ==> r == (AudioCommand::Play, false),
        !is_paused ==> r == (AudioCommand::Pause, true),
{
    if is_paused {
        (AudioCommand::Play, false)
    } else {
        (AudioCommand::Pause, true)
    }
}

} // verus!
