//! The merged event stream: producer workers tag each sample with its source
//! id, the keyboard worker forwards key presses, and the single consumer
//! routes both through the aggregator.

use vstd::prelude::*;

verus! {

/// One probe outcome: a measured round-trip time in microseconds, or a
/// timeout.
#[derive(Clone, Copy, Debug, PartialEq, Eq, Structural)]
pub enum Update {
    Result(u64),
    Timeout,
}

/// The update outcome as an optional value: a timeout carries no duration.
pub open spec fn outcome_of_update(u: Update) -> Option<u64> {
    match u {
        Update::Result(d) => Some(d),
        Update::Timeout => None,
    }
}

/// A key press, reduced to what the monitor reacts to.
#[derive(Clone, Copy, Debug, PartialEq, Eq, Structural)]
pub enum KeyCode {
    Char(char),
    Esc,
    Other,
}

/// One keyboard event: the key and whether control was held.
#[derive(Clone, Copy, Debug, PartialEq, Eq, Structural)]
pub struct KeyInput {
    pub code: KeyCode,
    pub ctrl: bool,
}

/// Whether a key press asks the monitor to quit: the letter q, escape, or
/// control-c.
pub open spec fn is_quit(k: KeyInput) -> bool {
    ||| k.code == KeyCode::Char('q')
    ||| k.code == KeyCode::Esc
    ||| (k.code == KeyCode::Char('c') && k.ctrl)
}

/// Whether a key press asks the monitor to quit.
pub fn is_quit_key(k: &KeyInput) -> (r: bool)
    ensures
        r == is_quit(*k),
{
    match k.code {
        KeyCode::Char(c) => c == 'q' || (c == 'c' && k.ctrl),
        KeyCode::Esc => true,
        KeyCode::Other => false,
    }
}

/// One event on the merged channel: a tagged sample from a producer worker,
/// or a key press from the keyboard worker.
#[derive(Clone, Copy, Debug, PartialEq, Eq, Structural)]
pub enum Event {
    Update(usize, Update),
    Input(KeyInput),
}

/// What the render loop does after consuming one event.
#[derive(Clone, Copy, Debug, PartialEq, Eq, Structural)]
pub enum Action {
    /// A sample was recorded: redraw the chart.
    Redraw,
    /// A quit key was seen: set the cancellation signal and stop.
    Quit,
    /// Any other key: nothing to do.
    Ignore,
}

} // verus!
