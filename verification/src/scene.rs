//! The screens of the game.

use vstd::prelude::*;

pub mod gameplay;
pub mod main_menu;

verus! {

/// The scenes that the frame loop can switch to.
#[derive(Clone, Copy, Debug, PartialEq, Eq, Structural)]
pub enum EScene {
    Gameplay,
    MainMenu,
}

} // verus!
