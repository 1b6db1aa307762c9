//! The actions a player can give, resolved to plain signals once per frame.

use vstd::prelude::*;

verus! {

/// What a key or a button of the gamepad stands for.
#[derive(Clone, Copy, Debug, PartialEq, Eq, Structural)]
pub enum Action {
    Up,
    Down,
    Left,
    Right,
    Confirm,
    Pause,
}

/// One signal for each action.
#[derive(Clone, Copy, Debug, PartialEq, Eq, Structural)]
pub struct Signals {
    pub up: bool,
    pub down: bool,
    pub left: bool,
    pub right: bool,
    pub confirm: bool,
    pub pause: bool,
}

impl Signals {
    /// No signal at all.
    pub open spec fn quiet() -> Signals {
        Signals { up: false, down: false, left: false, right: false, confirm: false, pause: false }
    }

    /// No signal at all.
    pub fn none() -> (s: Signals)
        ensures
            s == Signals::quiet(),
    {
        Signals { up: false, down: false, left: false, right: false, confirm: false, pause: false }
    }

    /// The signal of one action.
    pub open spec fn of(self, action: Action) -> bool {
        match action {
            Action::Up => self.up,
            Action::Down => self.down,
            Action::Left => self.left,
            Action::Right => self.right,
            Action::Confirm => self.confirm,
            Action::Pause => self.pause,
        }
    }
}

/// The input of one frame: which actions are held, and which of them were
/// given in this very frame.
#[derive(Clone, Copy, Debug, PartialEq, Eq, Structural)]
pub struct Input {
    /// True in every frame in which the action is held.
    pub held: Signals,
    /// True only in the frame in which the action began.
    pub pressed: Signals,
}

impl Input {
    /// A frame without input.
    pub fn idle() -> (input: Input)
        ensures
            input == (Input { held: Signals::quiet(), pressed: Signals::quiet() }),
    {
        Input { held: Signals::none(), pressed: Signals::none() }
    }
}

/// Whether the action is held in this frame.
pub fn action_down(action: Action, input: &Input) -> (down: bool)
    ensures
        down == input.held.of(action),
{
    match action {
        Action::Up => input.held.up,
        Action::Down => input.held.down,
        Action::Left => input.held.left,
        Action::Right => input.held.right,
        Action::Confirm => input.held.confirm,
        Action::Pause => input.held.pause,
    }
}

/// Whether the action began in this frame.
pub fn action_pressed(action: Action, input: &Input) -> (pressed: bool)
    ensures
        pressed == input.pressed.of(action),
{
    match action {
        Action::Up => input.pressed.up,
        Action::Down => input.pressed.down,
        Action::Left => input.pressed.left,
        Action::Right => input.pressed.right,
        Action::Confirm => input.pressed.confirm,
        Action::Pause => input.pressed.pause,
    }
}

} // verus!
