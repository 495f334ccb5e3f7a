//! What goes into the world and what comes out of it: the input events,
//! and the actions that the world asks its surroundings to carry out.

use vstd::prelude::*;
use crate::character::MusicId;
use crate::player::BattleEntry;
use crate::positions::Coordinate;
use crate::positions::Direction;

verus! {

/// What the player asks for.
#[derive(Clone, Copy, Debug, PartialEq, Eq, Hash, Structural)]
pub enum InputEvent {
    Move(Direction),
    Interact,
}

/// The colour in which the lines of a message are shown.
#[derive(Clone, Copy, Debug, PartialEq, Eq, Hash, Structural)]
pub enum MessageColor {
    Black,
    White,
    Red,
    Blue,
}

/// What the world asks its surroundings to do.
#[derive(Clone, Debug)]
pub enum WorldAction {
    PlayMusic(MusicId),
    PlayerJump,
    BeginWarpTransition(Coordinate),
    BreakObject(Coordinate),
    Battle(BattleEntry),
    /// Pages of lines, and their colour. The world waits until the message
    /// has been read.
    Message(Vec<Vec<String>>, MessageColor),
    OnTile,
}

} // verus!
