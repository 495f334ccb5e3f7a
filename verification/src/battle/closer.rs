//! How a battle ends on the screen: the cover that fades in over the
//! battle and out over the world.

use vstd::prelude::*;
use crate::character::NpcId;

verus! {

/// Full cover, in the units of a closer's opacity.
pub const COVER_MAX: u64 = 2_000_000;

/// How much the cover changes in a microsecond: four and a half times
/// full cover in a second.
pub const COVER_RATE: u64 = 9;

/// What the manager of a battle is doing.
#[derive(Clone, Copy, Debug, PartialEq, Eq, Hash, Structural)]
pub enum BattleManagerState {
    Begin,
    Transition,
    Battle,
    /// The battle is over; the winner is named.
    Closer(NpcId),
}

impl Default for BattleManagerState {
    fn default() -> (r: BattleManagerState)
        ensures
            r == BattleManagerState::Begin,
    {
        BattleManagerState::Begin
    }
}

/// Something that leads into a battle or out of it and can begin anew.
pub trait BattleTransition {
    fn reset(&mut self);
}

/// A transition out of a battle.
pub trait BattleCloser: BattleTransition {
    /// Whether the world is to be shown behind the cover.
    fn world_active(&self) -> bool;
}

/// The closer of a battle in the wild: the cover grows until it is full,
/// then the world is shown behind it and the cover shrinks to nothing.
#[derive(Clone, Copy, Debug, PartialEq, Eq, Hash, Structural)]
pub struct WildBattleCloser {
    pub alpha: u64,
    pub world: bool,
}

impl WildBattleCloser {
    /// The cover is at most one frame past full, and below full while the
    /// world is not yet shown.
    pub open spec fn wf(&self) -> bool {
        &&& self.alpha <= COVER_MAX + COVER_RATE * u32::MAX
        &&& !self.world ==> self.alpha < COVER_MAX
    }

    /// The closer after `delta` microseconds: the cover shrinks, but not
    /// below nothing, while the world is shown, and grows otherwise; from
    /// full cover on the world is shown.
    pub open spec fn after(&self, delta: u32) -> WildBattleCloser {
        let alpha = if self.world {
            if COVER_RATE * delta >= self.alpha {
                0
            } else {
                (self.alpha - COVER_RATE * delta) as u64
            }
        } else {
            (self.alpha + COVER_RATE * delta) as u64
        };
        WildBattleCloser { alpha, world: self.world || alpha >= COVER_MAX }
    }

    pub open spec fn spec_finished(&self) -> bool {
        self.alpha == 0 && self.world
    }

    pub fn update(&mut self, delta: u32)
        requires
            old(self).wf(),
        ensures
            *final(self) == old(self).after(delta),
            final(self).wf(),
    {
        let change: u64 = COVER_RATE * (delta as u64);
        if self.world {
            if change >= self.alpha {
                self.alpha = 0;
            } else {
                self.alpha = self.alpha - change;
            }
        } else {
            self.alpha = self.alpha + change;
        }
        if self.alpha >= COVER_MAX {
            self.world = true;
        }
    }

    #[verifier::when_used_as_spec(spec_finished)]
    pub fn finished(&self) -> (r: bool)
        ensures
            r == self.spec_finished(),
    {
        self.alpha == 0 && self.world
    }
}

impl Default for WildBattleCloser {
    fn default() -> (r: WildBattleCloser)
        ensures
            r == (WildBattleCloser { alpha: 0, world: false }),
            r.wf(),
    {
        WildBattleCloser { alpha: 0, world: false }
    }
}

impl BattleTransition for WildBattleCloser {
    fn reset(&mut self)
        ensures
            *final(self) == (WildBattleCloser { alpha: 0, world: false }),
    {
        self.alpha = 0;
        self.world = false;
    }
}

impl BattleCloser for WildBattleCloser {
    fn world_active(&self) -> (r: bool)
        ensures
            r == self.world,
    {
        self.world
    }
}

} // verus!
