//! The player: a character with a place in the world, a party, a bag, and
//! what the world remembers of its doings.

use vstd::prelude::*;
use crate::character::Character;
use crate::character::ItemId;
use crate::character::MoveId;
use crate::character::NpcId;
use crate::character::PartyPokemon;
use crate::character::Trainer;
use crate::map::WarpDestination;
use crate::positions::Coordinate;
use crate::positions::Direction;
use crate::positions::Location;
use crate::positions::Position;

verus! {

/// Names a trainer: the map it stands on and its id there.
#[derive(Clone, Copy, Debug, PartialEq, Eq, Hash, Structural)]
pub struct TrainerEntry {
    pub location: Location,
    pub id: NpcId,
}

/// A monster met in the wild.
#[derive(Clone, Copy, Debug, PartialEq, Eq, Hash, Structural)]
pub struct WildEncounter {
    pub species: u16,
    pub level: u8,
}

/// A battle that is to begin: against a monster met in the wild, or
/// against the party of a trainer.
#[derive(Clone, Copy, Debug, PartialEq, Eq, Hash, Structural)]
pub struct BattleEntry {
    pub wild: Option<WildEncounter>,
    pub trainer: Option<TrainerEntry>,
    /// How many monsters of each side fight at once.
    pub active: u8,
}

/// A number of items of one kind.
#[derive(Clone, Copy, Debug, PartialEq, Eq, Hash, Structural)]
pub struct ItemStack {
    pub item: ItemId,
    pub count: u16,
}

/// What the player carries.
#[derive(Clone, Debug)]
pub struct Bag {
    pub items: Vec<ItemStack>,
}

/// How many items of kind `item` the stacks hold in all.
pub open spec fn count_of(stacks: Seq<ItemStack>, item: ItemId) -> int
    decreases stacks.len(),
{
    if stacks.len() == 0 {
        0
    } else {
        count_of(stacks.drop_last(), item) + if stacks.last().item == item {
            stacks.last().count as int
        } else {
            0
        }
    }
}

impl Bag {
    /// The place of the first stack of kind `item`, or the number of stacks
    /// where there is none.
    pub open spec fn first_stack(stacks: Seq<ItemStack>, item: ItemId) -> int
        decreases stacks.len(),
    {
        if stacks.len() == 0 {
            0
        } else if stacks[0].item == item {
            0
        } else {
            1 + Bag::first_stack(stacks.subrange(1, stacks.len() as int), item)
        }
    }

    /// The stacks after `count` items of kind `item` came in: the first
    /// stack of that kind grows, up to the most that a stack holds; where
    /// there is none, a new stack is the last.
    pub open spec fn with_item(stacks: Seq<ItemStack>, item: ItemId, count: u16) -> Seq<ItemStack> {
        let i = Bag::first_stack(stacks, item);
        if i < stacks.len() {
            stacks.update(
                i,
                ItemStack {
                    item,
                    count: if stacks[i].count + count > u16::MAX {
                        u16::MAX
                    } else {
                        (stacks[i].count + count) as u16
                    },
                },
            )
        } else {
            stacks.push(ItemStack { item, count })
        }
    }

    pub fn new() -> (r: Bag)
        ensures
            r.items@.len() == 0,
    {
        Bag { items: Vec::new() }
    }

    pub fn insert_saved(&mut self, item: ItemId, count: u16)
        ensures
            final(self).items@ == Bag::with_item(old(self).items@, item, count),
    {
        let mut i: usize = 0;
        assert(self.items@.subrange(0, self.items@.len() as int) =~= self.items@);
        while i < self.items.len()
            invariant
                i <= self.items@.len(),
                self.items@ == old(self).items@,
                Bag::first_stack(self.items@, item) == i + Bag::first_stack(
                    self.items@.subrange(i as int, self.items@.len() as int),
                    item,
                ),
            decreases self.items@.len() - i,
        {
            let ghost rest = self.items@.subrange(i as int, self.items@.len() as int);
            assert(rest[0] == self.items@[i as int]);
            assert(rest.subrange(1, rest.len() as int) =~= self.items@.subrange(
                i + 1,
                self.items@.len() as int,
            ));
            if self.items[i].item == item {
                let have: u16 = self.items[i].count;
                let sum: u16 = if have > u16::MAX - count {
                    u16::MAX
                } else {
                    have + count
                };
                self.items.set(i, ItemStack { item, count: sum });
                return ;
            }
            i += 1;
        }
        self.items.push(ItemStack { item, count });
    }
}

/// The trainers that the player has beaten.
#[derive(Clone, Debug)]
pub struct PlayerBattleState {
    /// The battle that is being fought.
    pub battling: Option<BattleEntry>,
    /// Each beaten trainer once.
    pub battled: Vec<TrainerEntry>,
}

impl PlayerBattleState {
    pub open spec fn spec_battled(&self, location: Location, id: NpcId) -> bool {
        self.battled@.contains(TrainerEntry { location, id })
    }

    pub fn new() -> (r: PlayerBattleState)
        ensures
            r.battling.is_none(),
            r.battled@.len() == 0,
    {
        PlayerBattleState { battling: None, battled: Vec::new() }
    }

    /// Whether the trainer is among the beaten.
    pub fn battled(&self, location: &Location, id: &NpcId) -> (r: bool)
        ensures
            r == self.spec_battled(*location, *id),
    {
        let entry = TrainerEntry { location: *location, id: *id };
        let mut i: usize = 0;
        while i < self.battled.len()
            invariant
                i <= self.battled@.len(),
                entry == (TrainerEntry { location: *location, id: *id }),
                forall|j: int| 0 <= j < i ==> self.battled@[j] != entry,
            decreases self.battled@.len() - i,
        {
            if self.battled[i] == entry {
                assert(self.battled@[i as int] == entry);
                return true;
            }
            i += 1;
        }
        false
    }

    /// Counts the trainer among the beaten.
    pub fn insert(&mut self, location: &Location, id: NpcId)
        ensures
            final(self).battling == old(self).battling,
            final(self).battled@ == if old(self).spec_battled(*location, id) {
                old(self).battled@
            } else {
                old(self).battled@.push(TrainerEntry { location: *location, id })
            },
            forall|e: TrainerEntry|
                final(self).battled@.contains(e) <==> old(self).battled@.contains(e) || e == (
                TrainerEntry { location: *location, id }),
    {
        let ghost entry = TrainerEntry { location: *location, id };
        if !self.battled(location, &id) {
            self.battled.push(TrainerEntry { location: *location, id });
            assert(self.battled@.last() == entry);
            assert forall|e: TrainerEntry|
                self.battled@.contains(e) <==> old(self).battled@.contains(e) || e == entry by {
                if old(self).battled@.contains(e) {
                    let j = choose|j: int| 0 <= j < old(self).battled@.len() && old(self).battled@[j] == e;
                    assert(self.battled@[j] == e);
                }
                if self.battled@.contains(e) && e != entry {
                    let j = choose|j: int| 0 <= j < self.battled@.len() && self.battled@[j] == e;
                    assert(old(self).battled@[j] == e);
                }
            }
        }
    }

    /// Counts the trainers with the ids of `others` on `location` among the
    /// beaten.
    pub fn extend(&mut self, location: &Location, others: &Vec<NpcId>)
        ensures
            final(self).battling == old(self).battling,
            forall|e: TrainerEntry|
                final(self).battled@.contains(e) <==> old(self).battled@.contains(e) || (e.location
                    == *location && others@.contains(e.id)),
    {
        let mut i: usize = 0;
        while i < others.len()
            invariant
                i <= others@.len(),
                self.battling == old(self).battling,
                forall|e: TrainerEntry|
                    self.battled@.contains(e) <==> old(self).battled@.contains(e) || (e.location
                        == *location && others@.take(i as int).contains(e.id)),
            decreases others@.len() - i,
        {
            let ghost before = self.battled@;
            self.insert(location, others[i]);
            proof {
                assert(others@.take(i + 1) =~= others@.take(i as int).push(others@[i as int]));
                assert forall|e: TrainerEntry|
                    self.battled@.contains(e) <==> old(self).battled@.contains(e) || (e.location
                        == *location && others@.take(i + 1).contains(e.id)) by {
                    let grown = others@.take(i + 1);
                    if e.location == *location && others@.take(i as int).contains(e.id) {
                        let j = choose|j: int|
                            0 <= j < i && others@.take(i as int)[j] == e.id;
                        assert(grown[j] == e.id);
                    }
                    if e == (TrainerEntry { location: *location, id: others@[i as int] }) {
                        assert(grown[i as int] == e.id);
                    }
                    if e.location == *location && grown.contains(e.id) {
                        let j = choose|j: int| 0 <= j < i + 1 && grown[j] == e.id;
                        if j < i {
                            assert(others@.take(i as int)[j] == e.id);
                        }
                    }
                }
            }
            i += 1;
        }
        assert(others@.take(i as int) =~= others@);
    }
}

/// What the world remembers of the player.
#[derive(Clone, Debug)]
pub struct PlayerWorld {
    /// The character that the player is engaged with.
    pub npc_active: Option<NpcId>,
    /// Microseconds until the characters of the map decide again what to
    /// do.
    pub npc_timer: i64,
    /// The warp that waits to be carried out.
    pub warp: Option<WarpDestination>,
    /// Whether monsters are met in the wild.
    pub wild_encounters: bool,
    pub battle: PlayerBattleState,
    /// A message that was sent and waits to be read: whether it has been.
    pub polling: Option<bool>,
    /// Where the player was last healed.
    pub heal: Option<(Location, Position)>,
    /// The objects that the player has broken or picked up.
    pub objects: Vec<(Location, Coordinate)>,
}

impl PlayerWorld {
    pub fn new() -> (r: PlayerWorld)
        ensures
            r.npc_active.is_none(),
            r.npc_timer == 0,
            r.warp.is_none(),
            r.wild_encounters,
            r.battle.battling.is_none(),
            r.battle.battled@.len() == 0,
            r.polling.is_none(),
            r.heal.is_none(),
            r.objects@.len() == 0,
    {
        PlayerWorld {
            npc_active: None,
            npc_timer: 0,
            warp: None,
            wild_encounters: true,
            battle: PlayerBattleState::new(),
            polling: None,
            heal: None,
            objects: Vec::new(),
        }
    }

    /// The objects after the one at `coordinate` of `location` is
    /// remembered: once, however often it is.
    pub open spec fn with_object(
        objects: Seq<(Location, Coordinate)>,
        location: Location,
        coordinate: Coordinate,
    ) -> Seq<(Location, Coordinate)> {
        if objects.contains((location, coordinate)) {
            objects
        } else {
            objects.push((location, coordinate))
        }
    }

    /// Remembers the object at `coordinate` of `location`.
    pub fn insert_object(&mut self, location: &Location, coordinate: Coordinate)
        ensures
            *final(self) == (PlayerWorld { objects: final(self).objects, ..*old(self) }),
            final(self).objects@ == PlayerWorld::with_object(
                old(self).objects@,
                *location,
                coordinate,
            ),
    {
        let mut i: usize = 0;
        while i < self.objects.len()
            invariant
                i <= self.objects@.len(),
                *self == *old(self),
                forall|j: int| 0 <= j < i ==> self.objects@[j] != (*location, coordinate),
            decreases self.objects@.len() - i,
        {
            let entry = self.objects[i];
            if entry.0 == *location && entry.1 == coordinate {
                assert(self.objects@[i as int] == (*location, coordinate));
                return ;
            }
            i += 1;
        }
        self.objects.push((*location, coordinate));
    }
}

/// The player as a trainer.
#[derive(Clone, Debug)]
pub struct PlayerTrainer {
    pub party: Vec<PartyPokemon>,
    pub bag: Bag,
}

/// Whether a member of the party knows the move.
pub open spec fn party_knows(party: Seq<PartyPokemon>, id: MoveId) -> bool {
    exists|i: int| 0 <= i < party.len() && (#[trigger] party[i]).knows(id)
}

/// Whether every member of the party is at full health, with the moves it
/// had in `before`.
pub open spec fn party_healed(before: Seq<PartyPokemon>, after: Seq<PartyPokemon>) -> bool {
    &&& after.len() == before.len()
    &&& forall|i: int|
        0 <= i < before.len() ==> (#[trigger] after[i]).hp == before[i].max_hp && after[i].max_hp
            == before[i].max_hp && after[i].moves == before[i].moves
}

impl PlayerTrainer {
    pub fn new() -> (r: PlayerTrainer)
        ensures
            r.party@.len() == 0,
            r.bag.items@.len() == 0,
    {
        PlayerTrainer { party: Vec::new(), bag: Bag::new() }
    }

    pub fn has_move(&self, id: MoveId) -> (r: bool)
        ensures
            r == party_knows(self.party@, id),
    {
        let mut i: usize = 0;
        while i < self.party.len()
            invariant
                i <= self.party@.len(),
                forall|j: int| 0 <= j < i ==> !(#[trigger] self.party@[j]).knows(id),
            decreases self.party@.len() - i,
        {
            if self.party[i].has_move(id) {
                return true;
            }
            i += 1;
        }
        false
    }

    /// Restores every member of the party to full health.
    pub fn heal(&mut self)
        ensures
            party_healed(old(self).party@, final(self).party@),
            final(self).bag == old(self).bag,
    {
        let mut i: usize = 0;
        while i < self.party.len()
            invariant
                i <= self.party@.len(),
                self.party@.len() == old(self).party@.len(),
                self.bag == old(self).bag,
                forall|j: int|
                    0 <= j < i ==> (#[trigger] self.party@[j]).hp == old(self).party@[j].max_hp
                        && self.party@[j].max_hp == old(self).party@[j].max_hp && self.party@[j].moves
                        == old(self).party@[j].moves,
                forall|j: int| i <= j < self.party@.len() ==> self.party@[j] == old(self).party@[j],
            decreases self.party@.len() - i,
        {
            self.party[i].heal();
            i += 1;
        }
    }
}

/// The player.
#[derive(Clone, Debug)]
pub struct PlayerCharacter {
    pub character: Character,
    pub location: Location,
    pub input_frozen: bool,
    pub ignore: bool,
    pub world: PlayerWorld,
    pub trainer: PlayerTrainer,
}

/// How many tiles ahead of `from` the coordinate `target` lies, if it lies
/// straight ahead and at most `range` tiles away.
pub open spec fn sight(from: Position, range: u8, target: Coordinate) -> Option<u8> {
    let dx = target.x - from.coords.x;
    let dy = target.y - from.coords.y;
    let ahead = match from.direction {
        Direction::Up => if dx == 0 { -dy } else { 0 },
        Direction::Down => if dx == 0 { dy } else { 0 },
        Direction::Left => if dy == 0 { -dx } else { 0 },
        Direction::Right => if dy == 0 { dx } else { 0 },
    };
    if 1 <= ahead <= range {
        Some(ahead as u8)
    } else {
        None
    }
}

pub fn sees(from: &Position, range: u8, target: &Coordinate) -> (r: Option<u8>)
    ensures
        r == sight(*from, range, *target),
{
    let dx: i64 = target.x as i64 - from.coords.x as i64;
    let dy: i64 = target.y as i64 - from.coords.y as i64;
    let ahead: i64 = match from.direction {
        Direction::Up => if dx == 0 { -dy } else { 0 },
        Direction::Down => if dx == 0 { dy } else { 0 },
        Direction::Left => if dy == 0 { -dx } else { 0 },
        Direction::Right => if dy == 0 { dx } else { 0 },
    };
    if 1 <= ahead && ahead <= range as i64 {
        Some(ahead as u8)
    } else {
        None
    }
}

/// The player after a character engaged it: the character is the one that
/// the player is engaged with, and the player is frozen, with no step
/// waiting.
pub open spec fn engaged(before: PlayerCharacter, after: PlayerCharacter, id: NpcId) -> bool {
    &&& after.world == (PlayerWorld { npc_active: Some(id), ..before.world })
    &&& after.location == before.location
    &&& after.input_frozen == before.input_frozen
    &&& after.ignore == before.ignore
    &&& after.trainer == before.trainer
    &&& after.character.frozen
    &&& after.character.position == before.character.position
    &&& after.character.movement == before.character.movement
    &&& after.character.pathing.queue@.len() == 0
    &&& after.character.pathing.turn.is_none()
    &&& after.character.offset == 0
    &&& after.character.noclip == before.character.noclip
    &&& after.character.hidden == before.character.hidden
}

/// The character after it set out for someone `distance` tiles ahead: the
/// steps that bring it next to them wait behind those that waited before.
pub open spec fn set_out(before: Character, after: Character, distance: u8) -> bool {
    &&& after == (Character { pathing: after.pathing, ..before })
    &&& after.pathing.turn == before.pathing.turn
    &&& after.pathing.queue@ == before.pathing.queue@ + Seq::new(
        (distance - 1) as nat,
        |k: int| before.position.direction,
    )
}

impl PlayerCharacter {
    pub fn new(location: Location, position: Position) -> (r: PlayerCharacter)
        ensures
            r.location == location,
            r.character.position == position,
            r.character.pathing.queue@.len() == 0,
            !r.character.noclip,
            !r.character.frozen,
            !r.character.hidden,
            !r.input_frozen,
            !r.ignore,
            r.world.npc_active.is_none(),
            r.world.warp.is_none(),
            r.world.polling.is_none(),
            r.trainer.party@.len() == 0,
    {
        PlayerCharacter {
            character: Character::new(position),
            location,
            input_frozen: false,
            ignore: false,
            world: PlayerWorld::new(),
            trainer: PlayerTrainer::new(),
        }
    }

    /// Whether a trainer that looks out from `watcher` challenges the
    /// player: nobody is engaged with the player, the trainer is not beaten,
    /// and the player stands straight ahead of it within its range. The
    /// number is how many tiles away.
    pub open spec fn challenged_by(
        &self,
        map: Location,
        id: NpcId,
        trainer: Trainer,
        watcher: Position,
    ) -> Option<u8> {
        if self.world.npc_active.is_none() && !self.world.battle.spec_battled(map, id)
            && trainer.tracking.is_some() {
            sight(watcher, trainer.tracking.unwrap(), self.character.position.coords)
        } else {
            None
        }
    }

    /// Lets a trainer look out for the player. Where it challenges the
    /// player, it becomes the character that the player is engaged with, the
    /// player is frozen, and the trainer gets the steps that bring it next
    /// to the player.
    pub fn find_battle(
        &mut self,
        map: &Location,
        id: &NpcId,
        trainer: &Trainer,
        character: &mut Character,
    ) -> (r: bool)
        ensures
            r == old(self).challenged_by(*map, *id, *trainer, old(character).position).is_some(),
            !r ==> *final(self) == *old(self) && *final(character) == *old(character),
            r ==> engaged(*old(self), *final(self), *id) && set_out(
                *old(character),
                *final(character),
                old(self).challenged_by(*map, *id, *trainer, old(character).position).unwrap(),
            ),
    {
        if self.world.npc_active.is_none() && !self.world.battle.battled(map, id) {
            if let Some(range) = trainer.tracking {
                if let Some(distance) = sees(&character.position, range, &self.character.position.coords) {
                    let mut i: u8 = 1;
                    while i < distance
                        invariant
                            1 <= i <= distance,
                            *character == (Character {
                                pathing: character.pathing,
                                ..*old(character)
                            }),
                            character.pathing.turn == old(character).pathing.turn,
                            character.pathing.queue@ == old(character).pathing.queue@ + Seq::new(
                                (i - 1) as nat,
                                |k: int| old(character).position.direction,
                            ),
                        decreases distance - i,
                    {
                        character.pathing.queue.push(character.position.direction);
                        assert(character.pathing.queue@ =~= old(character).pathing.queue@
                            + Seq::new(i as nat, |k: int| old(character).position.direction));
                        i += 1;
                    }
                    self.world.npc_active = Some(*id);
                    self.character.freeze();
                    return true;
                }
            }
        }
        false
    }
}

} // verus!
