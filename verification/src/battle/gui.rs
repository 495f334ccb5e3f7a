//! Where on the screen a monster of a battle is shown.

use vstd::prelude::*;

verus! {

/// The half of the screen.
#[derive(Clone, Copy, Debug, PartialEq, Eq, Hash, Structural)]
pub enum BattleGuiPosition {
    Top,
    Bottom,
}

/// The place of one monster among those shown in one half of the screen.
#[derive(Clone, Copy, Debug, PartialEq, Eq, Hash, Structural)]
pub struct BattleGuiPositionIndex {
    pub position: BattleGuiPosition,
    pub index: u8,
    pub size: u8,
}

impl BattleGuiPositionIndex {
    pub fn new(position: BattleGuiPosition, index: u8, size: u8) -> (r: BattleGuiPositionIndex)
        ensures
            r == (BattleGuiPositionIndex { position, index, size }),
    {
        BattleGuiPositionIndex { position, index, size }
    }
}

} // verus!
