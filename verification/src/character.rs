//! Movable actors: the state that every character has, the non-player
//! characters of a map, and the player.

use vstd::prelude::*;
use crate::positions::Coordinate;
use crate::positions::Destination;
use crate::positions::Direction;
use crate::positions::Location;
use crate::positions::Path;
use crate::positions::Position;

verus! {

pub type NpcId = u128;

pub type NpcGroupId = u128;

pub type MoveId = u128;

pub type ItemId = u128;

pub type MusicId = u128;

/// Length of one tile in the units of a character's sub-tile progress:
/// sixteen pixels of a million units each.
pub const TILE_UNITS: u64 = 16_000_000;

/// How a character gets ahead.
#[derive(Clone, Copy, Debug, PartialEq, Eq, Hash, Structural)]
pub enum Movement {
    Walking,
    Running,
    Swimming,
}

impl Movement {
    /// Pixels per second.
    pub open spec fn spec_speed(&self) -> u64 {
        match *self {
            Movement::Walking => 60,
            Movement::Running => 120,
            Movement::Swimming => 120,
        }
    }

    #[verifier::when_used_as_spec(spec_speed)]
    pub fn speed(&self) -> (r: u64)
        ensures
            r == self.spec_speed(),
    {
        match *self {
            Movement::Walking => 60,
            Movement::Running => 120,
            Movement::Swimming => 120,
        }
    }
}

impl Default for Movement {
    fn default() -> (r: Movement)
        ensures
            r == Movement::Walking,
    {
        Movement::Walking
    }
}

/// What every character has: where it is, how it moves, the steps that wait
/// to be taken, and how far the step in progress has come.
///
/// The step in progress is the first of `pathing.queue`; `offset` counts how
/// far it has come and is below `TILE_UNITS` between two calls.
#[derive(Clone, Debug)]
pub struct Character {
    pub position: Position,
    pub movement: Movement,
    pub pathing: Path,
    pub offset: u64,
    pub noclip: bool,
    pub hidden: bool,
    pub frozen: bool,
}

/// The progress that a step makes in `delta` microseconds at `speed` pixels
/// per second, in units of a millionth of a pixel.
pub open spec fn advance(speed: u64, delta: u32) -> int {
    speed * delta
}

impl Character {
    pub open spec fn spec_moving(&self) -> bool {
        self.pathing.queue@.len() > 0
    }

    /// The character after `do_move(delta)`, as far as position, queue and
    /// progress go.
    pub open spec fn moved(&self, delta: u32) -> (Position, Seq<Direction>, u64) {
        if self.pathing.queue@.len() == 0 {
            (self.position, self.pathing.queue@, 0)
        } else {
            let direction = self.pathing.queue@[0];
            let facing = Position { direction, ..self.position };
            if self.offset + advance(self.movement.spec_speed(), delta) >= TILE_UNITS {
                (
                    Position { coords: self.position.coords.step(direction), ..facing },
                    self.pathing.queue@.subrange(1, self.pathing.queue@.len() as int),
                    0,
                )
            } else {
                (
                    facing,
                    self.pathing.queue@,
                    (self.offset + advance(self.movement.spec_speed(), delta)) as u64,
                )
            }
        }
    }

    /// Whether `do_move(delta)` completes a step.
    pub open spec fn completes(&self, delta: u32) -> bool {
        self.pathing.queue@.len() > 0 && self.offset + advance(self.movement.spec_speed(), delta)
            >= TILE_UNITS
    }

    pub fn new(position: Position) -> (r: Character)
        ensures
            r.position == position,
            r.movement == Movement::Walking,
            r.pathing.queue@.len() == 0,
            r.pathing.turn.is_none(),
            r.offset == 0,
            !r.noclip,
            !r.hidden,
            !r.frozen,
    {
        Character {
            position,
            movement: Movement::Walking,
            pathing: Path::new(),
            offset: 0,
            noclip: false,
            hidden: false,
            frozen: false,
        }
    }

    #[verifier::when_used_as_spec(spec_moving)]
    pub fn moving(&self) -> (r: bool)
        ensures
            r == self.spec_moving(),
    {
        self.pathing.queue.len() > 0
    }

    pub fn freeze(&mut self)
        ensures
            final(self).frozen,
            final(self).position == old(self).position,
            final(self).movement == old(self).movement,
            final(self).pathing.queue@.len() == 0,
            final(self).pathing.turn.is_none(),
            final(self).offset == 0,
            final(self).noclip == old(self).noclip,
            final(self).hidden == old(self).hidden,
    {
        self.frozen = true;
        self.pathing.clear();
        self.offset = 0;
    }

    pub fn unfreeze(&mut self)
        ensures
            *final(self) == (Character { frozen: false, ..*old(self) }),
    {
        self.frozen = false;
    }

    /// Faces `direction` before an attempt to step that way.
    pub fn on_try_move(&mut self, direction: Direction)
        ensures
            *final(self) == (Character {
                position: Position { direction, ..old(self).position },
                ..*old(self)
            }),
    {
        self.position.direction = direction;
    }

    /// Ends the step in progress.
    pub fn stop_move(&mut self)
        ensures
            *final(self) == (Character { offset: 0, ..*old(self) }),
    {
        self.offset = 0;
    }

    /// Lets `delta` microseconds pass. A character with a step waiting faces
    /// that way and gets ahead; when the step has covered a tile, the
    /// character stands on the next coordinate and the step leaves the queue.
    /// The result says whether that happened.
    pub fn do_move(&mut self, delta: u32) -> (r: bool)
        ensures
            r == old(self).completes(delta),
            went_by(*old(self), *final(self), delta),
    {
        if self.pathing.queue.len() == 0 {
            self.offset = 0;
            return false;
        }
        let direction = self.pathing.queue[0];
        self.position.direction = direction;
        let step: u64 = self.movement.speed() * (delta as u64);
        if self.offset >= TILE_UNITS || step >= TILE_UNITS - self.offset {
            self.offset = 0;
            self.pathing.queue.remove(0);
            self.position.coords = self.position.coords.in_direction(direction);
            true
        } else {
            self.offset = self.offset + step;
            false
        }
    }
}

/// A walk is its first step followed by the walk along the rest.
pub proof fn lemma_walk_unfold(start: Coordinate, path: Seq<Direction>)
    requires
        path.len() > 0,
    ensures
        start.walk(path) == start.step(path[0]).walk(path.subrange(1, path.len() as int)),
    decreases path.len(),
{
    let rest = path.subrange(1, path.len() as int);
    if path.len() == 1 {
        assert(path.drop_last().len() == 0);
        assert(rest.len() == 0);
        assert(start.walk(path.drop_last()) == start);
    } else {
        lemma_walk_unfold(start, path.drop_last());
        assert(path.drop_last().subrange(1, path.len() - 1) =~= rest.drop_last());
        assert(rest.last() == path.last());
        assert(path.drop_last()[0] == path[0]);
    }
}

} // verus!

verus! {

/// What a non-player character does when it is left alone.
#[derive(Clone, Debug)]
pub enum NpcMovement {
    /// Looks in one of these directions.
    Look(Vec<Direction>),
    /// Walks inside the rectangle that reaches this far from its origin.
    Move(Coordinate),
}

/// What happens when the player talks to a non-player character.
#[derive(Clone, Debug)]
pub enum NpcInteract {
    /// Pages of lines.
    Message(Vec<Vec<String>>),
    Script(u128),
    Nothing,
}

impl NpcInteract {
    pub open spec fn spec_is_some(&self) -> bool {
        !(*self is Nothing)
    }

    #[verifier::when_used_as_spec(spec_is_some)]
    pub fn is_some(&self) -> (r: bool)
        ensures
            r == self.spec_is_some(),
    {
        match self {
            NpcInteract::Nothing => false,
            _ => true,
        }
    }
}

/// Who counts as beaten once a trainer was beaten.
#[derive(Clone, Debug)]
pub enum TrainerDisable {
    DisableSelf,
    /// The trainer and these others on its map.
    Many(Vec<NpcId>),
}

/// What makes a non-player character a trainer.
#[derive(Clone, Debug)]
pub struct Trainer {
    /// How many tiles ahead the trainer sees the player, if it looks out.
    pub tracking: Option<u8>,
    /// Pages of lines said before the battle.
    pub encounter: Vec<Vec<String>>,
    pub disable: TrainerDisable,
    pub party: Vec<PartyPokemon>,
}

/// One member of a party, as far as the world needs to know it.
#[derive(Clone, Debug)]
pub struct PartyPokemon {
    pub moves: Vec<MoveId>,
    pub hp: u16,
    pub max_hp: u16,
}

impl PartyPokemon {
    pub open spec fn knows(&self, id: MoveId) -> bool {
        self.moves@.contains(id)
    }

    pub fn has_move(&self, id: MoveId) -> (r: bool)
        ensures
            r == self.knows(id),
    {
        let mut i: usize = 0;
        while i < self.moves.len()
            invariant
                i <= self.moves@.len(),
                forall|j: int| 0 <= j < i ==> self.moves@[j] != id,
            decreases self.moves@.len() - i,
        {
            if self.moves[i] == id {
                return true;
            }
            i += 1;
        }
        false
    }

    /// Restores the member to full health.
    pub fn heal(&mut self)
        ensures
            final(self).hp == old(self).max_hp,
            final(self).max_hp == old(self).max_hp,
            final(self).moves == old(self).moves,
    {
        self.hp = self.max_hp;
    }
}

/// A non-player character of a map.
#[derive(Clone, Debug)]
pub struct Npc {
    pub id: NpcId,
    pub character: Character,
    /// Where the character began to walk about, once it has.
    pub origin: Option<Coordinate>,
    pub movement: Vec<NpcMovement>,
    pub interact: NpcInteract,
    pub trainer: Option<Trainer>,
    pub group: NpcGroupId,
}

impl Npc {
    /// Whether someone at `position` stands next to this character and
    /// faces it.
    pub open spec fn reachable_from(&self, position: Position) -> bool {
        position.coords.step(position.direction) == self.character.position.coords
    }

    pub fn can_interact_from(&self, position: &Position) -> (r: bool)
        ensures
            r == self.reachable_from(*position),
    {
        position.forwards() == self.character.position.coords
    }

    /// This character, looking in `direction`.
    pub open spec fn turned(&self, direction: Direction) -> Npc {
        Npc {
            character: Character {
                position: Position { direction, ..self.character.position },
                ..self.character
            },
            ..*self
        }
    }

    /// Turns to whoever faces this character from the next tile. The result
    /// says whether there is someone to turn to.
    pub fn interact_from(&mut self, position: &Position) -> (r: bool)
        ensures
            r == old(self).reachable_from(*position),
            r ==> *final(self) == old(self).turned(position.direction.spec_inverse()),
            !r ==> *final(self) == *old(self),
    {
        if self.can_interact_from(position) {
            self.character.position.direction = position.direction.inverse();
            true
        } else {
            false
        }
    }
}

} // verus!

verus! {

use crate::movement::spec_can_move;
use crate::movement::MovementId;
use crate::positions::BoundingBox;

/// The character `before` after `delta` microseconds went by.
pub open spec fn went_by(before: Character, after: Character, delta: u32) -> bool {
    &&& after == (Character {
        position: before.moved(delta).0,
        pathing: after.pathing,
        offset: before.moved(delta).2,
        ..before
    })
    &&& after.pathing.queue@ == before.moved(delta).1
    &&& after.pathing.turn == before.pathing.turn
}

impl Npc {
    /// This character after it chose where to look.
    pub open spec fn after_look(&self, choice: Option<Direction>) -> Npc {
        match choice {
            Some(direction) => self.turned(direction),
            None => *self,
        }
    }

    /// The coordinate from which this character walks about: its origin,
    /// or, before it has one, where it stands.
    pub open spec fn anchor(&self) -> Coordinate {
        match self.origin {
            Some(origin) => origin,
            None => self.character.position.coords,
        }
    }

    /// Whether the character takes a step ahead when it may walk `area`
    /// tiles from its origin and the tile ahead has `code`: the tile lies
    /// in the rectangle, it has a code, and the code admits the character.
    pub open spec fn steps(&self, area: Coordinate, code: Option<MovementId>) -> bool {
        &&& BoundingBox::spec_centered(self.anchor(), area).spec_contains(
            self.character.position.spec_forwards(),
        )
        &&& code.is_some()
        &&& spec_can_move(self.character.position.elevation, code.unwrap())
    }

    /// Whether the character stays within `area` tiles of `origin`: it
    /// stands there, at most one step waits, and that step leads there.
    pub open spec fn within(&self, origin: Coordinate, area: Coordinate) -> bool {
        let rectangle = BoundingBox::spec_centered(origin, area);
        &&& rectangle.spec_contains(self.character.position.coords)
        &&& self.character.pathing.queue@.len() <= 1
        &&& self.character.pathing.queue@.len() == 1 ==> rectangle.spec_contains(
            self.character.position.coords.step(self.character.pathing.queue@[0]),
        )
    }

    /// The character keeps to its rectangle: it has at most one rectangle
    /// to walk in, no step waits before it has an origin, and once it has
    /// one it stays within the rectangle around it.
    pub open spec fn patrolling(&self) -> bool {
        &&& forall|i: int, j: int|
            0 <= i < self.movement@.len() && 0 <= j < self.movement@.len()
                && #[trigger] self.movement@[i] is Move && #[trigger] self.movement@[j] is Move ==> i
                == j
        &&& match self.origin {
            Some(origin) => self.character.pathing.queue@.len() <= 1 && forall|i: int|
                0 <= i < self.movement@.len() ==> (#[trigger] self.movement@[i] matches NpcMovement::Move(
                    area,
                ) ==> self.within(origin, area)),
            None => self.character.pathing.queue@.len() == 0,
        }
    }

    /// Looks where it chose to, if it chose.
    pub fn look(&mut self, choice: Option<Direction>)
        ensures
            *final(self) == old(self).after_look(choice),
    {
        if let Some(direction) = choice {
            self.character.position.direction = direction;
        }
    }

    /// Takes a step ahead if the tile ahead, with `code`, lies within
    /// `area` tiles of the origin and admits the character. The place where
    /// the character stands becomes its origin if it has none.
    pub fn try_step(&mut self, area: Coordinate, code: Option<MovementId>) -> (r: bool)
        ensures
            r == old(self).steps(area, code),
            *final(self) == (Npc {
                origin: Some(old(self).anchor()),
                character: Character {
                    pathing: final(self).character.pathing,
                    ..old(self).character
                },
                ..*old(self)
            }),
            final(self).character.pathing.turn == old(self).character.pathing.turn,
            final(self).character.pathing.queue@ == if r {
                old(self).character.pathing.queue@.push(old(self).character.position.direction)
            } else {
                old(self).character.pathing.queue@
            },
    {
        let origin: Coordinate = match self.origin {
            Some(origin) => origin,
            None => self.character.position.coords,
        };
        self.origin = Some(origin);
        let next = self.character.position.forwards();
        let rectangle = BoundingBox::centered(origin, area);
        if rectangle.contains(&next) {
            if let Some(code) = code {
                if crate::map::WorldMap::can_move(self.character.position.elevation, code) {
                    self.character.pathing.queue.push(self.character.position.direction);
                    return true;
                }
            }
        }
        false
    }
}

/// A character that keeps to its rectangle stands within `area` tiles of
/// its origin, for the area that it walks in.
pub proof fn lemma_patrol_bounds(npc: Npc, i: int)
    requires
        npc.patrolling(),
        npc.origin.is_some(),
        0 <= i < npc.movement@.len(),
        npc.movement@[i] is Move,
    ensures
        BoundingBox::spec_centered(npc.origin.unwrap(), npc.movement@[i]->Move_0).spec_contains(
            npc.character.position.coords,
        ),
{
}

/// A character that keeps to its rectangle keeps to it while time goes
/// by: the step that waits leads to a tile of the rectangle.
pub proof fn lemma_patrol_went_by(before: Npc, after: Npc, delta: u32)
    requires
        before.patrolling(),
        after == (Npc { character: after.character, ..before }),
        went_by(before.character, after.character, delta),
    ensures
        after.patrolling(),
{
    if before.origin.is_some() {
        assert forall|i: int| 0 <= i < after.movement@.len() implies (
        #[trigger] after.movement@[i] matches NpcMovement::Move(area) ==> after.within(
            after.origin.unwrap(),
            area,
        )) by {
            if after.movement@[i] is Move {
                assert(before.movement@[i] is Move);
                let area = before.movement@[i]->Move_0;
                assert(before.within(before.origin.unwrap(), area));
            }
        }
    }
}

} // verus!
