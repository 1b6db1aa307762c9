//! How far a player has come, as it is kept between two runs of the game.

use crate::consts::VERSION;
use vstd::prelude::*;

verus! {

/// The progress of a player.
#[derive(Debug)]
pub struct Save {
    game_version: String,
}

impl View for Save {
    type V = Seq<char>;

    /// The version of the game that wrote the save.
    closed spec fn view(&self) -> Seq<char> {
        self.game_version@
    }
}

impl Default for Save {
    /// The save of a player who starts now, with this version of the game.
    fn default() -> (save: Save)
        ensures
            save@ == VERSION@,
    {
        Save { game_version: VERSION.to_owned() }
    }
}

impl Save {
    /// A save that the given version of the game wrote.
    pub fn new(game_version: String) -> (save: Save)
        ensures
            save@ == game_version@,
    {
        Save { game_version }
    }

    /// The version of the game that wrote the save.
    pub fn game_version(&self) -> (version: &str)
        ensures
            version@ == self@,
    {
        self.game_version.as_str()
    }

    /// The save to go on with: the one that was found in store, or that of
    /// a player who starts now where none was found. It is to be put back in
    /// store either way.
    pub fn load(stored: Option<Save>) -> (save: Save)
        ensures
            stored matches Some(found) ==> save == found,
            stored.is_none() ==> save@ == VERSION@,
    {
        match stored {
            Some(found) => found,
            None => Save::default(),
        }
    }
}

} // verus!
