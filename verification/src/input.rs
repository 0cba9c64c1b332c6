//! Input actions: the engine-level commands bound keys map to.

use vstd::prelude::*;

verus! {

/// A key the engine reacts to, as a plain value standing for the window
/// system's virtual key code.
#[derive(Clone, Copy, PartialEq, Eq, Structural, Debug)]
pub enum Key {
    W,
    S,
    A,
    D,
    Space,
    LShift,
    Escape,
    Other,
}

/// An engine command.
#[derive(Clone, Copy, PartialEq, Eq, Structural, Hash, Debug)]
pub enum Action {
    MoveForward,
    MoveBackward,
    MoveLeft,
    MoveRight,
    MoveUp,
    MoveDown,
    ShutDown,
}

/// The fixed key binding.
pub open spec fn spec_from_key_code(keycode: Key) -> Option<Action> {
    match keycode {
        Key::W => Some(Action::MoveForward),
        Key::S => Some(Action::MoveBackward),
        Key::A => Some(Action::MoveLeft),
        Key::D => Some(Action::MoveRight),
        Key::Space => Some(Action::MoveUp),
        Key::LShift => Some(Action::MoveDown),
        Key::Escape => Some(Action::ShutDown),
        Key::Other => None,
    }
}

impl Action {
    /// Map a key to its bound action, if any.
    pub fn from_key_code(keycode: Key) -> (r: Option<Action>)
        ensures
            r == spec_from_key_code(keycode),
    {
        match keycode {
            Key::W => Some(Action::MoveForward),
            Key::S => Some(Action::MoveBackward),
            Key::A => Some(Action::MoveLeft),
            Key::D => Some(Action::MoveRight),
            Key::Space => Some(Action::MoveUp),
            Key::LShift => Some(Action::MoveDown),
            Key::Escape => Some(Action::ShutDown),
            Key::Other => None,
        }
    }
}

} // verus!
