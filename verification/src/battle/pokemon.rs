//! One monster of a party.

use vstd::prelude::*;
use crate::character::ItemId;
use crate::character::MoveId;

verus! {

pub type PokemonId = u16;

pub type Level = u8;

pub type Health = u16;

pub type Experience = u32;

pub type Friendship = u8;

pub type Stat = u8;

pub type BaseStat = u16;

/// A type of monsters and moves, by its number.
pub type PokemonType = u8;

/// One value for each of the six stats.
#[derive(Clone, Copy, Debug, PartialEq, Eq, Hash, Structural)]
pub struct StatSet {
    pub hp: Stat,
    pub atk: Stat,
    pub def: Stat,
    pub sp_atk: Stat,
    pub sp_def: Stat,
    pub speed: Stat,
}

impl StatSet {
    pub open spec fn spec_uniform(stat: Stat) -> StatSet {
        StatSet { hp: stat, atk: stat, def: stat, sp_atk: stat, sp_def: stat, speed: stat }
    }

    #[verifier::when_used_as_spec(spec_uniform)]
    pub fn uniform(stat: Stat) -> (r: StatSet)
        ensures
            r == StatSet::spec_uniform(stat),
    {
        StatSet { hp: stat, atk: stat, def: stat, sp_atk: stat, sp_def: stat, speed: stat }
    }
}

impl Default for StatSet {
    fn default() -> (r: StatSet)
        ensures
            r == StatSet::spec_uniform(0),
    {
        StatSet::uniform(0)
    }
}

/// The stats of a monster at its level.
#[derive(Clone, Copy, Debug, PartialEq, Eq, Hash, Structural)]
pub struct BaseStatSet {
    pub hp: BaseStat,
    pub atk: BaseStat,
    pub def: BaseStat,
    pub sp_atk: BaseStat,
    pub sp_def: BaseStat,
    pub speed: BaseStat,
}

#[derive(Clone, Copy, Debug, PartialEq, Eq, Hash, Structural)]
pub enum Gender {
    Genderless,
    Male,
    Female,
}

#[derive(Clone, Copy, Debug, PartialEq, Eq, Hash, Structural)]
pub enum StatusEffect {
    Paralysis,
    Poison,
    Sleep,
}

/// A move that a species learns, and the level at which it does.
#[derive(Clone, Copy, Debug, PartialEq, Eq, Hash, Structural)]
pub struct LearnableMove {
    pub level: Level,
    pub move_id: MoveId,
    /// How often the move may be used when it is new.
    pub pp: u8,
}

/// A move that a monster knows, with the times it may still be used.
#[derive(Clone, Copy, Debug, PartialEq, Eq, Hash, Structural)]
pub struct MoveInstance {
    pub move_id: MoveId,
    pub pp: u8,
}

/// A species.
#[derive(Clone, Debug)]
pub struct Pokemon {
    pub id: PokemonId,
    pub name: String,
    pub primary_type: PokemonType,
    pub secondary_type: Option<PokemonType>,
    pub base_exp: u16,
    /// The experience that a monster of this species can hold at each
    /// level, by level, before it rises to the next.
    pub growth: Vec<Experience>,
    pub moves: Vec<LearnableMove>,
}

/// What sets one monster apart from the others of its species.
#[derive(Clone, Debug)]
pub struct PokemonData {
    pub nickname: Option<String>,
    pub level: Level,
    pub gender: Gender,
    pub status: Option<StatusEffect>,
    pub ivs: StatSet,
    pub evs: StatSet,
    pub experience: Experience,
    pub friendship: Friendship,
}

/// One monster.
#[derive(Clone, Debug)]
pub struct PokemonInstance {
    pub pokemon: Pokemon,
    pub data: PokemonData,
    pub item: Option<ItemId>,
    pub moves: Vec<MoveInstance>,
    pub base: BaseStatSet,
    pub current_hp: Health,
}

/// The upper-case form of an ASCII letter, every other character as it is.
pub open spec fn ascii_upper(c: char) -> char {
    if 'a' <= c <= 'z' {
        ((c as u8) - 32) as char
    } else {
        c
    }
}

/// `str::to_ascii_uppercase` of std: a copy in which each ASCII letter is
/// in upper case and every other character is as it was.
#[verifier::external_body]
fn to_ascii_uppercase(s: &str) -> (r: String)
    ensures
        r@.len() == s@.len(),
        forall|i: int| 0 <= i < s@.len() ==> r@[i] == ascii_upper(#[trigger] s@[i]),
{
    s.to_ascii_uppercase()
}

/// The moves of `moves` that are learned at `level`, in their order.
pub open spec fn learned_at(moves: Seq<LearnableMove>, level: Level) -> Seq<MoveId> {
    moves.filter(|m: LearnableMove| m.level == level).map_values(|m: LearnableMove| m.move_id)
}

impl PokemonInstance {
    pub open spec fn spec_fainted(&self) -> bool {
        self.current_hp == 0
    }

    #[verifier::when_used_as_spec(spec_fainted)]
    pub fn fainted(&self) -> (r: bool)
        ensures
            r == self.spec_fainted(),
    {
        self.current_hp == 0
    }

    /// The nickname where the monster has one, else the name of its species
    /// in upper case.
    pub fn name(&self) -> (r: String)
        ensures
            match self.data.nickname {
                Some(nickname) => r@ == nickname@,
                None => r@.len() == self.pokemon.name@.len() && forall|i: int|
                    0 <= i < r@.len() ==> r@[i] == ascii_upper(#[trigger] self.pokemon.name@[i]),
            },
    {
        match self.data.nickname.as_ref() {
            Some(name) => name.clone(),
            None => to_ascii_uppercase(self.pokemon.name.as_str()),
        }
    }

    /// The moves that the species learns at the level that the monster has.
    pub fn moves_at_level(&self) -> (r: Vec<MoveId>)
        ensures
            r@ == learned_at(self.pokemon.moves@, self.data.level),
    {
        let mut moves: Vec<MoveId> = Vec::new();
        let mut i: usize = 0;
        let ghost level = self.data.level;
        let ghost all = self.pokemon.moves@;
        assert(all.take(0) =~= Seq::<LearnableMove>::empty());
        reveal(Seq::filter);
        while i < self.pokemon.moves.len()
            invariant
                i <= all.len(),
                all == self.pokemon.moves@,
                level == self.data.level,
                moves@ == learned_at(all.take(i as int), level),
            decreases all.len() - i,
        {
            proof {
                assert(all.take(i + 1) =~= all.take(i as int).push(all[i as int]));
                assert(all.take(i + 1).drop_last() =~= all.take(i as int));
                reveal(Seq::filter);
            }
            if self.pokemon.moves[i].level == self.data.level {
                moves.push(self.pokemon.moves[i].move_id);
                assert(moves@ =~= learned_at(all.take(i + 1), level));
            } else {
                assert(moves@ =~= learned_at(all.take(i + 1), level));
            }
            i += 1;
        }
        assert(all.take(i as int) =~= all);
        moves
    }

    /// The experience that beating this monster is worth, before any
    /// bonus: the base experience of its species times its level, by seven.
    pub fn raw_exp_from(&self) -> (r: Experience)
        requires
            self.pokemon.base_exp * self.data.level <= u16::MAX,
        ensures
            r == (self.pokemon.base_exp * self.data.level) / 7,
    {
        ((self.pokemon.base_exp * (self.data.level as u16)) / 7) as Experience
    }
}

pub fn default_iv() -> (r: StatSet)
    ensures
        r == StatSet::spec_uniform(15),
{
    StatSet::uniform(15)
}

pub fn default_friendship() -> (r: Friendship)
    ensures
        r == 70,
{
    70
}

} // verus!
