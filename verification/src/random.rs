//! The pseudorandom generators of a world, and the draws that the world
//! makes from them.

use vstd::prelude::*;
use rand::rngs::SmallRng;
use rand::seq::IteratorRandom;
use rand::Rng;
use rand::SeedableRng;
use crate::positions::Direction;

verus! {

#[verifier::external_type_specification]
#[verifier::external_body]
pub struct ExSmallRng(SmallRng);

/// `SeedableRng::seed_from_u64` of rand, for `SmallRng`: a generator made
/// from a seed.
#[verifier::external_body]
fn rng_seeded(seed: u64) -> SmallRng {
    SmallRng::seed_from_u64(seed)
}

/// `Rng::gen_ratio` of rand: `true` with a chance of `numerator` in
/// `denominator`; always `true` where the two are equal, never where the
/// numerator is zero.
#[verifier::external_body]
fn rng_ratio(rng: &mut SmallRng, numerator: u32, denominator: u32) -> (r: bool)
    requires
        denominator > 0,
        numerator <= denominator,
    ensures
        numerator == denominator ==> r,
        numerator == 0 ==> !r,
{
    rng.gen_ratio(numerator, denominator)
}

/// `IteratorRandom::choose` of rand, on the items of a list: one of them,
/// or `None` if and only if the list is empty.
#[verifier::external_body]
fn rng_choose(rng: &mut SmallRng, directions: &Vec<Direction>) -> (r: Option<Direction>)
    ensures
        r.is_none() <==> directions@.len() == 0,
        r.is_some() ==> directions@.contains(r.unwrap()),
{
    directions.iter().choose(rng).copied()
}

/// `Rng::gen_range` of rand, on an inclusive range: a number of the range.
#[verifier::external_body]
fn rng_range(rng: &mut SmallRng, low: u32, high: u32) -> (r: u32)
    requires
        low <= high,
    ensures
        low <= r <= high,
{
    rng.gen_range(low..=high)
}

/// Out of how many times a character that stands about does something.
pub const NPC_MOVE_CHANCE: u32 = 12;

/// The generators of a world: one for what its characters do, one for whom
/// the player meets.
pub struct WorldRandoms {
    pub npc: SmallRng,
    pub wild: SmallRng,
}

impl WorldRandoms {
    /// Generators with the seed `0`.
    pub fn new() -> WorldRandoms {
        WorldRandoms { npc: rng_seeded(0), wild: rng_seeded(0) }
    }

    /// Starts both generators afresh from `seed`.
    pub fn seed(&mut self, seed: u64) {
        self.npc = rng_seeded(seed);
        self.wild = rng_seeded(seed);
    }

    /// Whether a character that stands about does something now: one time
    /// in `NPC_MOVE_CHANCE`.
    pub fn npc_acts(&mut self) -> bool {
        rng_ratio(&mut self.npc, 1, NPC_MOVE_CHANCE)
    }

    /// One of `directions` for a character to look in, `None` if and only
    /// if there is none to choose from.
    pub fn npc_look(&mut self, directions: &Vec<Direction>) -> (r: Option<Direction>)
        ensures
            r.is_none() <==> directions@.len() == 0,
            r.is_some() ==> directions@.contains(r.unwrap()),
    {
        rng_choose(&mut self.npc, directions)
    }

    /// Whether a wild encounter begins, with a chance of `chance` in 255.
    pub fn wild_roll(&mut self, chance: u8) -> (r: bool)
        ensures
            chance == 255 ==> r,
            chance == 0 ==> !r,
    {
        rng_ratio(&mut self.wild, chance as u32, 255)
    }

    /// A number from `low` to `high`, or `low` where `high` is below it.
    pub fn wild_pick(&mut self, low: u32, high: u32) -> (r: u32)
        ensures
            low <= high ==> low <= r <= high,
            low > high ==> r == low,
    {
        if low <= high {
            rng_range(&mut self.wild, low, high)
        } else {
            low
        }
    }
}

} // verus!
