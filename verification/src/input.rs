//! From the keys that are held to what the observer does and what the
//! frame loop has to do next.

use vstd::prelude::*;
use crate::direction::Direction;
use crate::grid::TileGrid;
use crate::observer::{Command, MotionConfig, Observer};

verus! {

/// The keys that matter, as one poll of the controller found them.
#[derive(Clone, Copy, Debug, PartialEq, Eq, Structural)]
pub struct KeyState {
    /// The key that ends the program was pressed.
    pub start: bool,
    /// The key that turns to the left is held.
    pub left: bool,
    /// The key that turns to the right is held.
    pub right: bool,
    /// The key that moves forward is held.
    pub up: bool,
    /// The key that moves back is held.
    pub down: bool,
}

/// What the frame loop has to do after a poll.
#[derive(Clone, Copy, Debug, PartialEq, Eq, Structural)]
pub enum Action {
    /// Leave the loop.
    Exit,
    /// Render a frame and show it.
    Render,
    /// Nothing: no command was given.
    Idle,
}

/// The command that the held keys give: of several, the first in the order
/// left, right, up, down.
pub open spec fn selected(keys: KeyState) -> Option<Command> {
    if keys.left {
        Some(Command::RotateLeft)
    } else if keys.right {
        Some(Command::RotateRight)
    } else if keys.up {
        Some(Command::MoveForward)
    } else if keys.down {
        Some(Command::MoveBack)
    } else {
        None
    }
}

/// The command that the held keys give: of several, the first in the order
/// left, right, up, down.
pub fn select_command(keys: &KeyState) -> (command: Option<Command>)
    ensures
        command == selected(*keys),
{
    if keys.left {
        Some(Command::RotateLeft)
    } else if keys.right {
        Some(Command::RotateRight)
    } else if keys.up {
        Some(Command::MoveForward)
    } else if keys.down {
        Some(Command::MoveBack)
    } else {
        None
    }
}

/// One turn of the frame loop: the observer after the command that `keys`
/// give, and what to do next. The start key ends the loop before any
/// command; every command, a blocked move too, asks for a frame; no key
/// asks for nothing.
pub fn handle_input(
    observer: Observer,
    keys: &KeyState,
    heading: &Direction,
    grid: &TileGrid,
    motion: &MotionConfig,
) -> (res: (Observer, Action))
    ensures
        res.0.wf(),
        keys.start ==> res.0 == observer && res.1 == Action::Exit,
        !keys.start && selected(*keys) is None ==> res.0 == observer && res.1 == Action::Idle,
        !keys.start ==> (selected(*keys) matches Some(command) ==> res.1 == Action::Render
            && res.0.follows(observer, command, *heading, *grid, *motion)),
        observer.stands_in(*grid) ==> res.0.stands_in(*grid),
{
    proof {
        use_type_invariant(observer);
    }
    if keys.start {
        return (observer, Action::Exit);
    }
    match select_command(keys) {
        None => (observer, Action::Idle),
        Some(command) => (observer.apply(command, heading, grid, motion), Action::Render),
    }
}

} // verus!
