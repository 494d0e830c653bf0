//! Discrete input events consumed by the state machine, and the effect a
//! transition asks the surrounding event loop to perform.

use vstd::prelude::*;

verus! {

/// One already-decoded key event, as the raw-input collaborator hands it
/// to the core.
#[derive(Clone, Copy, Debug, PartialEq, Eq, Structural)]
pub enum InputEvent {
    Quit,
    SwitchColumn,
    Up,
    Down,
    Left,
    Right,
    PageUp,
    PageDown,
    Home,
    End,
    Confirm,
    Cancel,
    Run,
    Character(char),
    Backspace,
}

/// What the event loop must do after a transition: keep polling, stop, or
/// hand the given command string to the external runner.
#[derive(Debug)]
pub enum Effect {
    Stay,
    Terminate,
    Execute(String),
}

} // verus!
