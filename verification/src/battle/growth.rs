//! How a monster comes to be and how it grows: levels from experience,
//! stats by level, the moves it learns, and how hard a move hits it.
//!
//! What the pokedex works out from its tables is handed in as plain
//! values: the experience that a species can hold at each level, the stats
//! of a monster at each level, and what was drawn when a monster is made.

use vstd::prelude::*;
use crate::battle::pokemon::BaseStatSet;
use crate::battle::pokemon::Experience;
use crate::battle::pokemon::Gender;
use crate::battle::pokemon::LearnableMove;
use crate::battle::pokemon::Level;
use crate::battle::pokemon::MoveInstance;
use crate::battle::pokemon::Pokemon;
use crate::battle::pokemon::PokemonData;
use crate::battle::pokemon::PokemonInstance;
use crate::battle::pokemon::PokemonType;
use crate::battle::pokemon::StatSet;
use crate::character::MoveId;

verus! {

/// How many moves a monster can know.
pub const MOVES_MAX: usize = 4;

/// How hard a move hits, in quarters: `4` is the plain hit, `8` the double,
/// `2` the half, `0` none at all.
pub type Effective = u8;

/// The plain hit.
pub const EFFECTIVE: Effective = 4;

/// For each type of move, how hard it hits each type of monster; a pair
/// that the chart does not hold is a plain hit.
pub struct TypeChart {
    pub rows: Vec<Vec<Effective>>,
}

/// What was drawn when a monster is made.
#[derive(Clone, Copy, Debug, PartialEq, Eq, Hash, Structural)]
pub struct Drawn {
    pub level: Level,
    pub ivs: StatSet,
    pub gender: Gender,
}

/// The product of two hits: the quarters multiply.
pub open spec fn spec_times(a: Effective, b: Effective) -> Effective {
    ((a * b) / 4) as u8
}

#[verifier::when_used_as_spec(spec_times)]
pub fn times(a: Effective, b: Effective) -> (r: Effective)
    requires
        a * b <= 1023,
    ensures
        r == spec_times(a, b),
{
    let product: u16 = (a as u16) * (b as u16);
    (product / 4) as u8
}

impl TypeChart {
    pub open spec fn spec_effective(&self, of: PokemonType, on: PokemonType) -> Effective {
        if of < self.rows@.len() && on < self.rows@[of as int]@.len() {
            self.rows@[of as int]@[on as int]
        } else {
            EFFECTIVE
        }
    }

    /// How hard a move of type `of` hits a monster of type `on`.
    pub fn effective(&self, of: PokemonType, on: PokemonType) -> (r: Effective)
        ensures
            r == self.spec_effective(of, on),
    {
        if (of as usize) < self.rows.len() {
            if (on as usize) < self.rows[of as usize].len() {
                return self.rows[of as usize][on as usize];
            }
        }
        EFFECTIVE
    }
}

/// The stats of a monster at `level`: those of the table, or, where the
/// table does not reach, those it has.
pub open spec fn stat_at(stats: Seq<BaseStatSet>, level: Level, current: BaseStatSet) -> BaseStatSet {
    if level < stats.len() {
        stats[level as int]
    } else {
        current
    }
}

/// The experience that a monster can hold at `level` before it rises:
/// none at the highest level, and none where the table does not reach.
pub open spec fn max_exp(growth: Seq<Experience>, level: Level) -> Option<Experience> {
    if level < u8::MAX && level < growth.len() {
        Some(growth[level as int])
    } else {
        None
    }
}

/// The moves of `moves` that are learned at `level`, in their order.
pub open spec fn learnable_at(moves: Seq<LearnableMove>, level: Level) -> Seq<LearnableMove> {
    moves.filter(|m: LearnableMove| m.level == level)
}

/// A move as a monster knows it when it is new.
pub open spec fn instance_of(m: LearnableMove) -> MoveInstance {
    MoveInstance { move_id: m.move_id, pp: m.pp }
}

/// What a monster that does not know all the moves it can know makes of
/// the moves that wait to be learned: it learns them, last first, while it
/// has room; the first for which it has no room is forgotten, and the rest
/// wait on.
pub open spec fn taught(known: Seq<MoveInstance>, pending: Seq<LearnableMove>) -> (
    Seq<MoveInstance>,
    Seq<LearnableMove>,
)
    decreases pending.len(),
{
    if pending.len() == 0 {
        (known, pending)
    } else if known.len() < MOVES_MAX {
        taught(known.push(instance_of(pending.last())), pending.drop_last())
    } else {
        (known, pending.drop_last())
    }
}

/// A monster while it grows: its experience, level and stats, the moves
/// it knows, and the moves that wait to be learned.
pub struct Growing {
    pub experience: Experience,
    pub level: Level,
    pub base: BaseStatSet,
    pub known: Seq<MoveInstance>,
    pub pending: Seq<LearnableMove>,
}

/// The monster one level up: it has paid the experience of the level, its
/// stats are those of the new level, the moves of the new level wait to be
/// learned, and it learns what it has room for.
pub open spec fn level_up(species: Pokemon, stats: Seq<BaseStatSet>, g: Growing) -> Growing {
    let level = (g.level + 1) as u8;
    let pending = g.pending + learnable_at(species.moves@, level);
    let learned = if g.known.len() < MOVES_MAX {
        taught(g.known, pending)
    } else {
        (g.known, pending)
    };
    Growing {
        experience: (g.experience - species.growth@[g.level as int]) as u32,
        level,
        base: stat_at(stats, level, g.base),
        known: learned.0,
        pending: learned.1,
    }
}

/// The monster grown as far as its experience carries it: it rises a
/// level as long as it holds more experience than its level allows.
pub open spec fn grown(species: Pokemon, stats: Seq<BaseStatSet>, g: Growing) -> Growing
    decreases 255 - g.level,
{
    match max_exp(species.growth@, g.level) {
        Some(most) => if g.experience > most {
            grown(species, stats, level_up(species, stats, g))
        } else {
            g
        },
        None => g,
    }
}

/// The ids of moves.
pub open spec fn ids_of(moves: Seq<LearnableMove>) -> Seq<MoveId> {
    moves.map_values(|m: LearnableMove| m.move_id)
}

impl PokemonInstance {
    /// The monster as it begins to grow after it gained `experience`.
    pub open spec fn growing(&self, experience: Experience) -> Growing {
        Growing {
            experience: (self.data.experience + experience * 5) as u32,
            level: self.data.level,
            base: self.base,
            known: self.moves@,
            pending: Seq::empty(),
        }
    }

    /// A new monster of a species. Its level is `max` where that is also
    /// `min`, else the level that was drawn; its inner values are those
    /// given, else those drawn. It has no nickname, item or status, no
    /// experience, no effort values, the friendship of a new monster, and
    /// full health.
    pub fn generate(
        pokemon: Pokemon,
        min: Level,
        max: Level,
        ivs: Option<StatSet>,
        drawn: Drawn,
        base: BaseStatSet,
        moves: Vec<MoveInstance>,
    ) -> (r: PokemonInstance)
        ensures
            r.pokemon == pokemon,
            r.data.nickname.is_none(),
            r.data.level == if min == max {
                max
            } else {
                drawn.level
            },
            r.data.gender == drawn.gender,
            r.data.status.is_none(),
            r.data.ivs == match ivs {
                Some(ivs) => ivs,
                None => drawn.ivs,
            },
            r.data.evs == StatSet::spec_uniform(0),
            r.data.experience == 0,
            r.data.friendship == 70,
            r.item.is_none(),
            r.moves == moves,
            r.base == base,
            r.current_hp == base.hp,
    {
        let level: Level = if min == max {
            max
        } else {
            drawn.level
        };
        let ivs: StatSet = match ivs {
            Some(ivs) => ivs,
            None => drawn.ivs,
        };
        PokemonInstance {
            pokemon,
            data: PokemonData {
                nickname: None,
                level,
                gender: drawn.gender,
                status: None,
                ivs,
                evs: StatSet::uniform(0),
                experience: 0,
                friendship: 70,
            },
            item: None,
            moves,
            base,
            current_hp: base.hp,
        }
    }

    /// A new monster of a species on a given level.
    pub fn generate_with_level(
        pokemon: Pokemon,
        level: Level,
        ivs: Option<StatSet>,
        drawn: Drawn,
        base: BaseStatSet,
        moves: Vec<MoveInstance>,
    ) -> (r: PokemonInstance)
        ensures
            r.pokemon == pokemon,
            r.data.nickname.is_none(),
            r.data.level == level,
            r.data.gender == drawn.gender,
            r.data.status.is_none(),
            r.data.ivs == match ivs {
                Some(ivs) => ivs,
                None => drawn.ivs,
            },
            r.data.evs == StatSet::spec_uniform(0),
            r.data.experience == 0,
            r.data.friendship == 70,
            r.item.is_none(),
            r.moves == moves,
            r.base == base,
            r.current_hp == base.hp,
    {
        PokemonInstance::generate(pokemon, level, level, ivs, drawn, base, moves)
    }

    /// Gives the monster the stats of its level.
    pub fn on_level_up(&mut self, stats: &Vec<BaseStatSet>)
        ensures
            *final(self) == (PokemonInstance {
                base: stat_at(stats@, old(self).data.level, old(self).base),
                ..*old(self)
            }),
    {
        if (self.data.level as usize) < stats.len() {
            self.base = stats[self.data.level as usize];
        }
    }

    /// How hard a move of type `pokemon_type` hits the monster: as it hits
    /// the first type of its species, times as it hits the second where
    /// the species has one.
    pub fn effective(&self, chart: &TypeChart, pokemon_type: PokemonType) -> (r: Effective)
        requires
            chart.spec_effective(pokemon_type, self.pokemon.primary_type) <= 31,
            self.pokemon.secondary_type.is_some() ==> chart.spec_effective(
                pokemon_type,
                self.pokemon.secondary_type.unwrap(),
            ) <= 31,
        ensures
            r == match self.pokemon.secondary_type {
                Some(secondary) => spec_times(
                    chart.spec_effective(pokemon_type, self.pokemon.primary_type),
                    chart.spec_effective(pokemon_type, secondary),
                ),
                None => chart.spec_effective(pokemon_type, self.pokemon.primary_type),
            },
    {
        let primary = chart.effective(pokemon_type, self.pokemon.primary_type);
        if let Some(secondary) = self.pokemon.secondary_type {
            let other = chart.effective(pokemon_type, secondary);
            assert(primary * other <= 1023) by (nonlinear_arith)
                requires
                    primary <= 31,
                    other <= 31,
            ;
            times(primary, other)
        } else {
            primary
        }
    }

    /// The moves that the species learns at the level that the monster has,
    /// as the species lists them.
    pub fn learnable_moves(&self) -> (r: Vec<LearnableMove>)
        ensures
            r@ == learnable_at(self.pokemon.moves@, self.data.level),
    {
        let mut moves: Vec<LearnableMove> = Vec::new();
        let mut i: usize = 0;
        let ghost level = self.data.level;
        let ghost all = self.pokemon.moves@;
        assert(all.take(0) =~= Seq::<LearnableMove>::empty());
        reveal(Seq::filter);
        while i < self.pokemon.moves.len()
            invariant
                i <= all.len(),
                all == self.pokemon.moves@,
                level == self.data.level,
                moves@ == learnable_at(all.take(i as int), level),
            decreases all.len() - i,
        {
            proof {
                assert(all.take(i + 1) =~= all.take(i as int).push(all[i as int]));
                assert(all.take(i + 1).drop_last() =~= all.take(i as int));
                reveal(Seq::filter);
            }
            if self.pokemon.moves[i].level == self.data.level {
                moves.push(self.pokemon.moves[i]);
                assert(moves@ =~= learnable_at(all.take(i + 1), level));
            } else {
                assert(moves@ =~= learnable_at(all.take(i + 1), level));
            }
            i += 1;
        }
        assert(all.take(i as int) =~= all);
        moves
    }

    /// Lets the monster learn of the moves that wait what it has room
    /// for.
    fn teach(&mut self, pending: &mut Vec<LearnableMove>)
        requires
            old(self).moves@.len() < MOVES_MAX,
        ensures
            (final(self).moves@, final(pending)@) == taught(old(self).moves@, old(pending)@),
            *final(self) == (PokemonInstance { moves: final(self).moves, ..*old(self) }),
    {
        loop
            invariant_except_break
                taught(self.moves@, pending@) == taught(old(self).moves@, old(pending)@),
                *self == (PokemonInstance { moves: self.moves, ..*old(self) }),
            ensures
                (self.moves@, pending@) == taught(old(self).moves@, old(pending)@),
                *self == (PokemonInstance { moves: self.moves, ..*old(self) }),
            decreases pending@.len(),
        {
            let next = match pending.pop() {
                Some(next) => next,
                None => {
                    break ;
                },
            };
            if self.moves.len() < MOVES_MAX {
                self.moves.push(MoveInstance { move_id: next.move_id, pp: next.pp });
            } else {
                break ;
            }
        }
    }

    /// Adds five times `experience` to what the monster holds, and lets it
    /// rise as far as that carries it. With each level it pays what the
    /// level could hold, gets the stats of the new level, and learns of the
    /// moves of that level, and of those still waiting, what it has room
    /// for. The result is the new level, if it rose, with the moves that
    /// still wait, if any do.
    pub fn add_exp(&mut self, experience: Experience, stats: &Vec<BaseStatSet>) -> (r: Option<
        (Level, Option<Vec<MoveId>>),
    >)
        requires
            old(self).data.experience + experience * 5 <= u32::MAX,
        ensures
            ({
                let end = grown(old(self).pokemon, stats@, old(self).growing(experience));
                &&& final(self).pokemon == old(self).pokemon
                &&& final(self).item == old(self).item
                &&& final(self).current_hp == old(self).current_hp
                &&& final(self).data == (PokemonData {
                    experience: end.experience,
                    level: end.level,
                    ..old(self).data
                })
                &&& final(self).base == end.base
                &&& final(self).moves@ == end.known
                &&& match r {
                    Some((level, moves)) => end.level != old(self).data.level && level == end.level
                        && match moves {
                        Some(moves) => end.pending.len() > 0 && moves@ == ids_of(end.pending),
                        None => end.pending.len() == 0,
                    },
                    None => end.level == old(self).data.level,
                }
            }),
    {
        self.data.experience = self.data.experience + experience * 5;
        let mut pending: Vec<LearnableMove> = Vec::new();
        let prev: Level = self.data.level;
        let ghost start = old(self).growing(experience);
        let ghost species = old(self).pokemon;
        loop
            invariant_except_break
                self.pokemon == species,
                self.item == old(self).item,
                self.current_hp == old(self).current_hp,
                self.data == (PokemonData {
                    experience: self.data.experience,
                    level: self.data.level,
                    ..old(self).data
                }),
                prev <= self.data.level,
                grown(
                    species,
                    stats@,
                    Growing {
                        experience: self.data.experience,
                        level: self.data.level,
                        base: self.base,
                        known: self.moves@,
                        pending: pending@,
                    },
                ) == grown(species, stats@, start),
            ensures
                self.pokemon == species,
                self.item == old(self).item,
                self.current_hp == old(self).current_hp,
                self.data == (PokemonData {
                    experience: self.data.experience,
                    level: self.data.level,
                    ..old(self).data
                }),
                prev <= self.data.level,
                (Growing {
                    experience: self.data.experience,
                    level: self.data.level,
                    base: self.base,
                    known: self.moves@,
                    pending: pending@,
                }) == grown(species, stats@, start),
            decreases 255 - self.data.level,
        {
            let level: Level = self.data.level;
            if level == u8::MAX || (level as usize) >= self.pokemon.growth.len() {
                break ;
            }
            let most: Experience = self.pokemon.growth[level as usize];
            if self.data.experience <= most {
                break ;
            }
            let ghost before = Growing {
                experience: self.data.experience,
                level: self.data.level,
                base: self.base,
                known: self.moves@,
                pending: pending@,
            };
            self.data.experience = self.data.experience - most;
            self.data.level = level + 1;
            self.on_level_up(stats);
            let mut learned = self.learnable_moves();
            pending.append(&mut learned);
            if self.moves.len() < MOVES_MAX {
                self.teach(&mut pending);
            }
            assert((Growing {
                experience: self.data.experience,
                level: self.data.level,
                base: self.base,
                known: self.moves@,
                pending: pending@,
            }) == level_up(species, stats@, before));
        }
        if prev != self.data.level {
            if pending.len() > 0 {
                let mut ids: Vec<MoveId> = Vec::new();
                let mut i: usize = 0;
                while i < pending.len()
                    invariant
                        i <= pending@.len(),
                        ids@.len() == i,
                        forall|k: int| 0 <= k < i ==> ids@[k] == pending@[k].move_id,
                    decreases pending@.len() - i,
                {
                    ids.push(pending[i].move_id);
                    i += 1;
                }
                assert(ids@ =~= ids_of(pending@));
                Some((self.data.level, Some(ids)))
            } else {
                Some((self.data.level, None))
            }
        } else {
            None
        }
    }
}

} // verus!
