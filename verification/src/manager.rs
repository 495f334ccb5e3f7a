//! The map manager: all the maps of a world with what they share, and what
//! happens on them from frame to frame.

use vstd::prelude::*;
use crate::actions::InputEvent;
use crate::actions::MessageColor;
use crate::actions::WorldAction;
use crate::character::Character;
use crate::character::Movement;
use crate::character::MoveId;
use crate::character::MusicId;
use crate::character::NpcGroupId;
use crate::map::answer_of;
use crate::map::ChunkAnswer;
use crate::map::ObjectId;
use crate::map::WarpDestination;
use crate::map::WorldMap;
use crate::groups::group_of;
use crate::groups::Groups;
use crate::maps::Maps;
use crate::movement::spec_can_move;
use crate::movement::spec_change_elevation;
use crate::movement::Connection;
use crate::movement::MapMovementResult;
use crate::movement::MovementId;
use crate::movement::OBSTACLE;
use crate::movement::WATER;
use crate::player::PlayerCharacter;
use crate::positions::Coordinate;
use crate::positions::CoordinateInt;
use crate::positions::Direction;
use crate::positions::Location;
use crate::positions::Position;
use crate::random::WorldRandoms;
use crate::tile::cliff_at;
use crate::tile::is_cliff;
use crate::tile::PaletteTileData;

verus! {

/// The move that lets the player swim.
pub const SURF: MoveId = 1718777203;

/// The move that fells a tree.
pub const CUT: MoveId = 7632227;

/// The move that breaks a rock.
pub const ROCK_SMASH: MoveId = 493254510180952753532786;

/// The objects that can be felled.
pub const TREE: ObjectId = 1701147252;

/// The objects that can be broken.
pub const ROCK: ObjectId = 1801678706;

/// What the trainers of a group share.
#[derive(Clone, Copy, Debug, PartialEq, Eq, Hash, Structural)]
pub struct GroupTrainer {
    /// The music that plays when one of them challenges the player.
    pub music: Option<MusicId>,
}

/// What the characters of a group share.
#[derive(Clone, Copy, Debug, PartialEq, Eq, Hash, Structural)]
pub struct NpcGroup {
    pub id: NpcGroupId,
    pub message: MessageColor,
    pub trainer: Option<GroupTrainer>,
}

/// The chance of a wild encounter on each step, out of 255, by kind.
#[derive(Clone, Copy, Debug, PartialEq, Eq, Hash, Structural)]
pub struct WildChances {
    pub land: u8,
    pub water: u8,
}

/// A world: its maps and what they share.
pub struct WorldMapData {
    pub maps: Maps,
    pub tiles: Vec<PaletteTileData>,
    pub npcs: Groups,
    pub wild: WildChances,
    pub spawn: (Location, Position),
}

/// The manager of a world. The actions that it asks for wait in `actions`,
/// in the order in which it asked for them.
pub struct WorldMapManager {
    pub data: WorldMapData,
    pub actions: Vec<WorldAction>,
    pub randoms: WorldRandoms,
}

/// The coordinate just outside a neighbouring map from which one step in
/// `direction` leads onto its edge, `offset` tiles along the edge.
pub open spec fn spec_connection_offset(
    direction: Direction,
    map: WorldMap,
    offset: CoordinateInt,
) -> Coordinate {
    match direction {
        Direction::Down => Coordinate { x: offset, y: -1i32 },
        Direction::Up => Coordinate { x: offset, y: map.height },
        Direction::Left => Coordinate { x: map.width, y: offset },
        Direction::Right => Coordinate { x: -1i32, y: offset },
    }
}

pub fn connection_offset(direction: Direction, map: &WorldMap, offset: CoordinateInt) -> (r:
    Coordinate)
    ensures
        r == spec_connection_offset(direction, *map, offset),
{
    match direction {
        Direction::Down => Coordinate { x: offset, y: -1 },
        Direction::Up => Coordinate { x: offset, y: map.height },
        Direction::Left => Coordinate { x: map.width, y: offset },
        Direction::Right => Coordinate { x: -1, y: offset },
    }
}

/// What one connection offers to someone who leaves a map in `direction`,
/// `offset` tiles along the edge: the neighbour, the coordinate outside its
/// edge from which the step leads onto it, and the code of the tile that
/// the step leads to. Nothing where the neighbour is unknown or the step
/// leads past it.
pub open spec fn candidate(
    maps: Map<Location, WorldMap>,
    direction: Direction,
    offset: CoordinateInt,
    connection: Connection,
) -> Option<(Location, Coordinate, MovementId)> {
    if maps.contains_key(connection.0) {
        let map = maps[connection.0];
        let position = spec_connection_offset(direction, map, offset.wrapping_sub(connection.1));
        match map.spec_local_movement(position.step(direction)) {
            Some(code) => Some((map.id, position, code)),
            None => None,
        }
    } else {
        None
    }
}

/// The place of the first connection that offers something, or the number
/// of connections where none does.
pub open spec fn first_candidate(
    maps: Map<Location, WorldMap>,
    direction: Direction,
    offset: CoordinateInt,
    connections: Seq<Connection>,
) -> int
    decreases connections.len(),
{
    if connections.len() == 0 {
        0
    } else if candidate(maps, direction, offset, connections[0]).is_some() {
        0
    } else {
        1 + first_candidate(
            maps,
            direction,
            offset,
            connections.subrange(1, connections.len() as int),
        )
    }
}

/// What the first connection that offers something offers.
pub open spec fn spec_connection_movement(
    maps: Map<Location, WorldMap>,
    direction: Direction,
    offset: CoordinateInt,
    connections: Seq<Connection>,
) -> Option<(Location, Coordinate, MovementId)> {
    let first = first_candidate(maps, direction, offset, connections);
    if first < connections.len() {
        candidate(maps, direction, offset, connections[first])
    } else {
        None
    }
}

/// Whether a character may enter a tile with `code`: the elevation allows
/// it or the character walks through everything, and water is entered only
/// by who swims already, can learn to, or walks through everything.
pub open spec fn admits(character: Character, surf: bool, code: MovementId) -> bool {
    &&& spec_can_move(character.position.elevation, code) || character.noclip
    &&& code == WATER && character.movement != Movement::Swimming ==> surf || character.noclip
}

/// How a character moves after it entered a tile with `code`: it swims on
/// water and stops swimming elsewhere.
pub open spec fn movement_after(movement: Movement, code: MovementId) -> Movement {
    if code == WATER {
        Movement::Swimming
    } else if movement == Movement::Swimming {
        Movement::Walking
    } else {
        movement
    }
}

/// What comes of the player's attempt to step one tile.
pub enum MoveOutcome {
    /// The player's map is unknown.
    Nowhere,
    /// The step leads into a warp zone: the warp waits to be carried out.
    Warp(WarpDestination, Coordinate),
    /// The step leads onto a cliff.
    Jump,
    /// The step is not possible.
    Blocked,
    /// The step is taken on the player's map, onto a tile with this code.
    Step(MovementId),
    /// The step leads onto a neighbouring map: the neighbour, the
    /// coordinate there from which the step is taken, and the code of the
    /// tile that it leads to.
    Cross(Location, Coordinate, MovementId),
}

/// What comes of the attempt of a player who already faces `direction`.
pub open spec fn move_outcome(
    maps: Map<Location, WorldMap>,
    tiles: Seq<PaletteTileData>,
    player: PlayerCharacter,
    direction: Direction,
) -> MoveOutcome {
    let coords = player.character.position.coords.step(direction);
    let surf = crate::player::party_knows(player.trainer.party@, SURF);
    if !maps.contains_key(player.location) {
        MoveOutcome::Nowhere
    } else {
        let map = maps[player.location];
        if player.world.warp.is_none() && map.spec_warp_at(coords).is_some() {
            MoveOutcome::Warp(map.spec_warp_at(coords).unwrap(), coords)
        } else if map.spec_tile(coords).is_some() && is_cliff(
            tiles,
            map.palettes,
            direction,
            map.spec_tile(coords).unwrap(),
        ) && !player.character.noclip {
            MoveOutcome::Jump
        } else {
            match map.spec_chunk_movement(coords) {
                ChunkAnswer::Code(code) => {
                    let code = match code {
                        Some(code) => code,
                        None => OBSTACLE,
                    };
                    if admits(player.character, surf, code) {
                        MoveOutcome::Step(code)
                    } else {
                        MoveOutcome::Blocked
                    }
                },
                ChunkAnswer::Edge(edge, offset, connections) => {
                    match spec_connection_movement(maps, edge, offset, connections) {
                        Some((location, position, code)) => {
                            if admits(player.character, surf, code) {
                                MoveOutcome::Cross(location, position, code)
                            } else {
                                MoveOutcome::Blocked
                            }
                        },
                        None => MoveOutcome::Blocked,
                    }
                },
            }
        }
    }
}

/// The character after it entered a tile with `code` by a step in
/// `direction` from `from`: it swims or walks as the tile asks, it is on
/// the tile's elevation, and the step waits in its queue.
pub open spec fn entered(
    before: Character,
    after: Character,
    from: Coordinate,
    code: MovementId,
    direction: Direction,
) -> bool {
    &&& after.position == (Position {
        coords: from,
        direction: before.position.direction,
        elevation: spec_change_elevation(before.position.elevation, code),
    })
    &&& after.movement == movement_after(before.movement, code)
    &&& after.pathing.queue@ == before.pathing.queue@.push(direction)
    &&& after.pathing.turn == before.pathing.turn
    &&& after.offset == before.offset
    &&& after.noclip == before.noclip
    &&& after.hidden == before.hidden
    &&& after.frozen == before.frozen
}

/// The player after an attempt with this outcome, seen from a player who
/// already faces the direction of the attempt.
pub open spec fn player_after_move(
    before: PlayerCharacter,
    after: PlayerCharacter,
    outcome: MoveOutcome,
    direction: Direction,
) -> bool {
    match outcome {
        MoveOutcome::Nowhere | MoveOutcome::Jump | MoveOutcome::Blocked => after == before,
        MoveOutcome::Warp(destination, _) => after == (PlayerCharacter {
            world: crate::player::PlayerWorld { warp: Some(destination), ..before.world },
            ..before
        }),
        MoveOutcome::Step(code) => {
            &&& entered(
                before.character,
                after.character,
                before.character.position.coords,
                code,
                direction,
            )
            &&& after.location == before.location
            &&& after.input_frozen == before.input_frozen
            &&& after.ignore == before.ignore
            &&& after.world == before.world
            &&& after.trainer == before.trainer
        },
        MoveOutcome::Cross(location, position, code) => {
            &&& entered(before.character, after.character, position, code, direction)
            &&& after.location == location
            &&& after.input_frozen == before.input_frozen
            &&& after.ignore == before.ignore
            &&& after.world == before.world
            &&& after.trainer == before.trainer
        },
    }
}

/// The actions that an attempt with this outcome asks for.
pub open spec fn actions_of_move(maps: Map<Location, WorldMap>, outcome: MoveOutcome) -> Seq<
    WorldAction,
> {
    match outcome {
        MoveOutcome::Warp(_, coords) => seq![WorldAction::BeginWarpTransition(coords)],
        MoveOutcome::Jump => seq![WorldAction::PlayerJump],
        MoveOutcome::Cross(location, _, _) => if maps.contains_key(location) {
            seq![WorldAction::PlayMusic(maps[location].music)]
        } else {
            Seq::empty()
        },
        _ => Seq::empty(),
    }
}

impl WorldMapData {
    /// What the first connection that leads onto a known map offers. The
    /// connections are asked in their order, and the first that leads onto
    /// a tile of its map is taken.
    pub fn connection_movement(
        &self,
        direction: Direction,
        offset: CoordinateInt,
        connections: &[Connection],
    ) -> (r: Option<(Location, Coordinate, MovementId)>)
        ensures
            r == spec_connection_movement(self.maps@, direction, offset, connections@),
    {
        let mut i: usize = 0;
        assert(connections@.subrange(0, connections@.len() as int) =~= connections@);
        while i < connections.len()
            invariant
                i <= connections@.len(),
                first_candidate(self.maps@, direction, offset, connections@) == i + first_candidate(
                    self.maps@,
                    direction,
                    offset,
                    connections@.subrange(i as int, connections@.len() as int),
                ),
            decreases connections@.len() - i,
        {
            let ghost rest = connections@.subrange(i as int, connections@.len() as int);
            assert(rest[0] == connections@[i as int]);
            assert(rest.subrange(1, rest.len() as int) =~= connections@.subrange(
                i + 1,
                connections@.len() as int,
            ));
            let connection = connections[i];
            if let Some(map) = self.maps.get(&connection.0) {
                let o: CoordinateInt = offset.wrapping_sub(connection.1);
                let position = connection_offset(direction, map, o);
                let coords = position.in_direction(direction);
                if let Some(code) = map.local_movement(coords) {
                    return Some((map.id, position, code));
                }
            }
            i += 1;
        }
        None
    }

    /// Puts the player at `destination` if its map is known: the
    /// coordinate and, where one is named, the facing are taken over, the
    /// waiting steps are dropped, and the player is on that map. Else
    /// nothing changes.
    pub fn warp(&self, player: &mut PlayerCharacter, destination: WarpDestination) -> (r: bool)
        ensures
            r == self.maps@.contains_key(destination.location),
            !r ==> *final(player) == *old(player),
            r ==> warped(*old(player), *final(player), destination),
    {
        if self.maps.contains_key(&destination.location) {
            player.character.position.from_destination(destination.position);
            player.character.pathing.clear();
            player.location = destination.location;
            true
        } else {
            false
        }
    }

    /// Whether a character may enter a tile with `code` by a step in
    /// `direction`; if so, the step waits in its queue and the character
    /// swims or walks and is on the elevation that the tile asks for.
    pub fn with_code(
        character: &mut Character,
        surf: bool,
        code: MovementId,
        direction: Direction,
    ) -> (r: bool)
        ensures
            r == admits(*old(character), surf, code),
            !r ==> *final(character) == *old(character),
            r ==> entered(
                *old(character),
                *final(character),
                old(character).position.coords,
                code,
                direction,
            ),
    {
        if WorldMap::can_move(character.position.elevation, code) || character.noclip {
            if code == WATER {
                if character.movement != Movement::Swimming {
                    if surf || character.noclip {
                        character.movement = Movement::Swimming;
                    } else {
                        return false;
                    }
                }
            } else if character.movement == Movement::Swimming {
                character.movement = Movement::Walking;
            }
            WorldMap::change_elevation(&mut character.position.elevation, code);
            character.pathing.queue.push(direction);
            return true;
        }
        false
    }

    /// What comes of the attempt of `player` to step in `direction`.
    pub fn resolve_move(&self, player: &PlayerCharacter, direction: Direction) -> (r: MoveOutcome)
        ensures
            r == move_outcome(self.maps@, self.tiles@, *player, direction),
    {
        let coords = player.character.position.coords.in_direction(direction);
        let map = match self.maps.get(&player.location) {
            Some(map) => map,
            None => {
                return MoveOutcome::Nowhere;
            },
        };
        if player.world.warp.is_none() {
            if let Some(destination) = map.warp_at(coords) {
                return MoveOutcome::Warp(*destination, coords);
            }
        }
        let cliff: bool = match map.tile(coords) {
            Some(tile) => cliff_at(&self.tiles, &map.palettes, direction, tile),
            None => false,
        };
        if cliff && !player.character.noclip {
            return MoveOutcome::Jump;
        }
        let surf: bool = player.trainer.has_move(SURF);
        match map.chunk_movement(coords) {
            MapMovementResult::Option(code) => {
                let code: MovementId = match code {
                    Some(code) => code,
                    None => OBSTACLE,
                };
                if admits_code(&player.character, surf, code) {
                    MoveOutcome::Step(code)
                } else {
                    MoveOutcome::Blocked
                }
            },
            MapMovementResult::Chunk(edge, offset, connections) => {
                match self.connection_movement(edge, offset, connections) {
                    Some((location, position, code)) => {
                        if admits_code(&player.character, surf, code) {
                            MoveOutcome::Cross(location, position, code)
                        } else {
                            MoveOutcome::Blocked
                        }
                    },
                    None => MoveOutcome::Blocked,
                }
            },
        }
    }
}

fn admits_code(character: &Character, surf: bool, code: MovementId) -> (r: bool)
    ensures
        r == admits(*character, surf, code),
{
    (WorldMap::can_move(character.position.elevation, code) || character.noclip) && (!(code
        == WATER && character.movement != Movement::Swimming) || surf || character.noclip)
}

/// The player after a warp to `destination` was carried out.
pub open spec fn warped(
    before: PlayerCharacter,
    after: PlayerCharacter,
    destination: WarpDestination,
) -> bool {
    &&& after.location == destination.location
    &&& after.character.position == before.character.position.arrived(destination.position)
    &&& after.character.pathing.queue@.len() == 0
    &&& after.character.pathing.turn.is_none()
    &&& after.character.movement == before.character.movement
    &&& after.character.offset == before.character.offset
    &&& after.character.noclip == before.character.noclip
    &&& after.character.hidden == before.character.hidden
    &&& after.character.frozen == before.character.frozen
    &&& after.input_frozen == before.input_frozen
    &&& after.ignore == before.ignore
    &&& after.world == before.world
    &&& after.trainer == before.trainer
}

/// The player turned to face `direction`.
pub open spec fn facing(player: PlayerCharacter, direction: Direction) -> PlayerCharacter {
    PlayerCharacter {
        character: Character {
            position: Position { direction, ..player.character.position },
            ..player.character
        },
        ..player
    }
}

impl WorldMapManager {
    pub fn new(data: WorldMapData) -> (r: WorldMapManager)
        ensures
            r.data == data,
            r.actions@.len() == 0,
    {
        WorldMapManager { data, actions: Vec::new(), randoms: WorldRandoms::new() }
    }

    /// Starts the generators afresh from `seed`.
    pub fn seed(&mut self, seed: u64)
        ensures
            final(self).data == old(self).data,
            final(self).actions == old(self).actions,
    {
        self.randoms.seed(seed);
    }

    pub fn contains(&self, location: &Location) -> (r: bool)
        ensures
            r == self.data.maps@.contains_key(*location),
    {
        self.data.maps.contains_key(location)
    }

    pub fn get(&self, location: &Location) -> (r: Option<&WorldMap>)
        ensures
            match r {
                Some(map) => self.data.maps@.contains_key(*location) && self.data.maps@[*location]
                    == *map,
                None => !self.data.maps@.contains_key(*location),
            },
    {
        self.data.maps.get(location)
    }

    /// Hands out the actions that wait, first asked first.
    pub fn take_actions(&mut self) -> (r: Vec<WorldAction>)
        ensures
            r@ == old(self).actions@,
            final(self).actions@.len() == 0,
            final(self).data == old(self).data,
    {
        let mut r: Vec<WorldAction> = Vec::new();
        core::mem::swap(&mut self.actions, &mut r);
        r
    }

    /// Asks for the music of `map`.
    pub fn on_change(&mut self, map: &WorldMap)
        ensures
            final(self).data == old(self).data,
            final(self).actions@ == old(self).actions@.push(WorldAction::PlayMusic(map.music)),
    {
        self.actions.push(WorldAction::PlayMusic(map.music));
    }

    /// Asks for the music of the player's map, if the map is known.
    pub fn on_map_change(&mut self, player: &PlayerCharacter)
        ensures
            final(self).data == old(self).data,
            final(self).actions@ == old(self).actions@ + music_of(
                old(self).data.maps@,
                player.location,
            ),
    {
        let music: Option<MusicId> = match self.data.maps.get(&player.location) {
            Some(map) => Some(map.music),
            None => None,
        };
        if let Some(music) = music {
            self.actions.push(WorldAction::PlayMusic(music));
            assert(self.actions@ =~= old(self).actions@ + music_of(
                old(self).data.maps@,
                player.location,
            ));
        } else {
            assert(self.actions@ =~= old(self).actions@ + music_of(
                old(self).data.maps@,
                player.location,
            ));
        }
    }

    /// Puts the player at `destination` if its map is known.
    pub fn warp(&mut self, player: &mut PlayerCharacter, destination: WarpDestination) -> (r: bool)
        ensures
            r == old(self).data.maps@.contains_key(destination.location),
            !r ==> *final(player) == *old(player),
            r ==> warped(*old(player), *final(player), destination),
            final(self).data == old(self).data,
            final(self).actions == old(self).actions,
    {
        self.data.warp(player, destination)
    }

    /// The player tries to step one tile in `direction`. It turns that
    /// way; then, in this order: a step into a warp zone makes the warp
    /// wait and asks for the transition; a step onto a cliff asks for the
    /// jump; a step onto a tile that admits the player, on its map or
    /// across an edge on the first neighbour that offers a tile, is put in
    /// the player's queue. Every other step is not taken.
    pub fn try_move(&mut self, player: &mut PlayerCharacter, direction: Direction)
        ensures
            final(self).data == old(self).data,
            player_after_move(
                facing(*old(player), direction),
                *final(player),
                move_outcome(
                    old(self).data.maps@,
                    old(self).data.tiles@,
                    facing(*old(player), direction),
                    direction,
                ),
                direction,
            ),
            final(self).actions@ == old(self).actions@ + actions_of_move(
                old(self).data.maps@,
                move_outcome(
                    old(self).data.maps@,
                    old(self).data.tiles@,
                    facing(*old(player), direction),
                    direction,
                ),
            ),
    {
        player.character.on_try_move(direction);
        assert(*player == facing(*old(player), direction));
        let outcome = self.data.resolve_move(player, direction);
        let surf: bool = player.trainer.has_move(SURF);
        match outcome {
            MoveOutcome::Nowhere | MoveOutcome::Blocked => {
                assert(self.actions@ =~= old(self).actions@ + Seq::<WorldAction>::empty());
            },
            MoveOutcome::Warp(destination, coords) => {
                player.world.warp = Some(destination);
                self.actions.push(WorldAction::BeginWarpTransition(coords));
                assert(self.actions@ =~= old(self).actions@
                    + seq![WorldAction::BeginWarpTransition(coords)]);
            },
            MoveOutcome::Jump => {
                self.actions.push(WorldAction::PlayerJump);
                assert(self.actions@ =~= old(self).actions@ + seq![WorldAction::PlayerJump]);
            },
            MoveOutcome::Step(code) => {
                let went = WorldMapData::with_code(&mut player.character, surf, code, direction);
                assert(went);
                assert(self.actions@ =~= old(self).actions@ + Seq::<WorldAction>::empty());
            },
            MoveOutcome::Cross(location, coords, code) => {
                let went = WorldMapData::with_code(&mut player.character, surf, code, direction);
                assert(went);
                player.character.position.coords = coords;
                player.location = location;
                self.on_map_change(player);
            },
        }
    }
}

/// The request for the music of the map at `location`, if the map is
/// known.
pub open spec fn music_of(maps: Map<Location, WorldMap>, location: Location) -> Seq<WorldAction> {
    if maps.contains_key(location) {
        seq![WorldAction::PlayMusic(maps[location].music)]
    } else {
        Seq::empty()
    }
}

/// Connections are asked in their order: where a connection offers a tile
/// and none before it does, the answer is what that connection offers.
pub proof fn lemma_connection_order(
    maps: Map<Location, WorldMap>,
    direction: Direction,
    offset: CoordinateInt,
    connections: Seq<Connection>,
    i: int,
)
    requires
        0 <= i < connections.len(),
        candidate(maps, direction, offset, connections[i]).is_some(),
        forall|j: int| 0 <= j < i ==> candidate(maps, direction, offset, #[trigger] connections[j]).is_none(),
    ensures
        first_candidate(maps, direction, offset, connections) == i,
        spec_connection_movement(maps, direction, offset, connections) == candidate(
            maps,
            direction,
            offset,
            connections[i],
        ),
    decreases i,
{
    if i > 0 {
        let rest = connections.subrange(1, connections.len() as int);
        assert(candidate(maps, direction, offset, connections[0]).is_none());
        assert forall|j: int| 0 <= j < i - 1 implies candidate(
            maps,
            direction,
            offset,
            #[trigger] rest[j],
        ).is_none() by {
            assert(rest[j] == connections[j + 1]);
        }
        assert(rest[i - 1] == connections[i]);
        lemma_connection_order(maps, direction, offset, rest, i - 1);
    }
}

/// Where no connection offers a tile, the edge cannot be crossed.
pub proof fn lemma_connection_none(
    maps: Map<Location, WorldMap>,
    direction: Direction,
    offset: CoordinateInt,
    connections: Seq<Connection>,
)
    requires
        forall|j: int|
            0 <= j < connections.len() ==> candidate(maps, direction, offset, #[trigger] connections[j]).is_none(),
    ensures
        spec_connection_movement(maps, direction, offset, connections).is_none(),
        first_candidate(maps, direction, offset, connections) == connections.len(),
    decreases connections.len(),
{
    if connections.len() > 0 {
        let rest = connections.subrange(1, connections.len() as int);
        assert(candidate(maps, direction, offset, connections[0]).is_none());
        assert forall|j: int| 0 <= j < rest.len() implies candidate(
            maps,
            direction,
            offset,
            #[trigger] rest[j],
        ).is_none() by {
            assert(rest[j] == connections[j + 1]);
        }
        lemma_connection_none(maps, direction, offset, rest);
    }
}

} // verus!

verus! {

use crate::character::Npc;
use crate::character::NpcId;
use crate::character::PartyPokemon;
use crate::character::TrainerDisable;
use crate::map::first_item;
use crate::map::first_object;
use crate::player::party_healed;
use crate::player::party_knows;
use crate::player::Bag;
use crate::player::PlayerWorld;
use crate::player::TrainerEntry;
use crate::tile::forwarding_at;
use crate::tile::is_forwarding;

/// Whether the player can talk to the character at all.
pub open spec fn eligible(npc: Npc) -> bool {
    npc.interact.spec_is_some() || npc.trainer.is_some()
}

/// The place of the first character that the player can talk to from
/// `position`, or the number of characters where there is none.
pub open spec fn first_reachable(npcs: Seq<Npc>, position: Position) -> int
    decreases npcs.len(),
{
    if npcs.len() == 0 {
        0
    } else if eligible(npcs[0]) && npcs[0].reachable_from(position) {
        0
    } else {
        1 + first_reachable(npcs.subrange(1, npcs.len() as int), position)
    }
}

fn find_reachable(npcs: &Vec<Npc>, position: &Position) -> (r: usize)
    ensures
        r == first_reachable(npcs@, *position),
        r <= npcs@.len(),
        r < npcs@.len() ==> eligible(npcs@[r as int]) && npcs@[r as int].reachable_from(*position),
{
    let mut i: usize = 0;
    assert(npcs@.subrange(0, npcs@.len() as int) =~= npcs@);
    while i < npcs.len()
        invariant
            i <= npcs@.len(),
            first_reachable(npcs@, *position) == i + first_reachable(
                npcs@.subrange(i as int, npcs@.len() as int),
                *position,
            ),
        decreases npcs@.len() - i,
    {
        let ghost rest = npcs@.subrange(i as int, npcs@.len() as int);
        assert(rest[0] == npcs@[i as int]);
        assert(rest.subrange(1, rest.len() as int) =~= npcs@.subrange(i + 1, npcs@.len() as int));
        if (npcs[i].interact.is_some() || npcs[i].trainer.is_some()) && npcs[i].can_interact_from(
            position,
        ) {
            return i;
        }
        i += 1;
    }
    i
}

/// From where the player talks: from the tile ahead where it stands on a
/// tile that hands talk on, else from where it stands.
pub open spec fn interact_position(
    tiles: Seq<PaletteTileData>,
    map: WorldMap,
    position: Position,
) -> Position {
    if map.spec_tile(position.coords).is_some() && is_forwarding(
        tiles,
        map.palettes,
        map.spec_tile(position.coords).unwrap(),
    ) {
        position.spec_in_direction(position.direction)
    } else {
        position
    }
}

/// The move that breaks objects of the group, if they can be broken.
pub open spec fn breaking_move(group: ObjectId) -> Option<MoveId> {
    if group == TREE {
        Some(CUT)
    } else if group == ROCK {
        Some(ROCK_SMASH)
    } else {
        None
    }
}

/// Whether the player breaks the object ahead: there is one, it can be
/// broken, and a member of the party knows the move for it.
pub open spec fn breaks(map: WorldMap, party: Seq<PartyPokemon>, forward: Coordinate) -> bool {
    match first_object(map.objects@, forward) {
        Some(object) => breaking_move(object.group).is_some() && party_knows(
            party,
            breaking_move(object.group).unwrap(),
        ),
        None => false,
    }
}

/// What an attempt to interact does to the player's map and to the player.
/// On an unknown map nothing happens. Else an object ahead that the player
/// can break is remembered as gone; where there is none, nobody is engaged
/// with the player and a character can be talked to, the first such
/// character turns to the player and is engaged with it; and an item ahead
/// is remembered as gone and is in the bag.
pub open spec fn interacted(
    maps_before: Map<Location, WorldMap>,
    maps_after: Map<Location, WorldMap>,
    tiles: Seq<PaletteTileData>,
    before: PlayerCharacter,
    after: PlayerCharacter,
) -> bool {
    if !maps_before.contains_key(before.location) {
        maps_after == maps_before && after == before
    } else {
        let map = maps_before[before.location];
        let position = interact_position(tiles, map, before.character.position);
        let first = first_reachable(map.npcs@, position);
        let forward = before.character.position.spec_forwards();
        let engages = !breaks(map, before.trainer.party@, forward)
            && before.world.npc_active.is_none() && first < map.npcs@.len();
        let broken = if breaks(map, before.trainer.party@, forward) {
            PlayerWorld::with_object(before.world.objects@, map.id, forward)
        } else {
            before.world.objects@
        };
        let item = first_item(map.items@, forward);
        &&& maps_after.contains_key(before.location)
        &&& maps_after == maps_before.insert(before.location, maps_after[before.location])
        &&& maps_after[before.location] == (WorldMap {
            npcs: maps_after[before.location].npcs,
            ..map
        })
        &&& maps_after[before.location].npcs@ == if engages {
            map.npcs@.update(first, map.npcs@[first].turned(position.direction.spec_inverse()))
        } else {
            map.npcs@
        }
        &&& after.character == before.character
        &&& after.location == before.location
        &&& after.input_frozen == before.input_frozen
        &&& after.ignore == before.ignore
        &&& after.trainer.party == before.trainer.party
        &&& after.trainer.bag.items@ == match item {
            Some(item) => Bag::with_item(before.trainer.bag.items@, item.item, item.count),
            None => before.trainer.bag.items@,
        }
        &&& after.world == (PlayerWorld {
            npc_active: after.world.npc_active,
            objects: after.world.objects,
            ..before.world
        })
        &&& after.world.npc_active == if engages {
            Some(map.npcs@[first].id)
        } else {
            before.world.npc_active
        }
        &&& after.world.objects@ == match item {
            Some(_) => PlayerWorld::with_object(broken, map.id, forward),
            None => broken,
        }
    }
}

/// The actions that an attempt to interact asks for.
pub open spec fn actions_of_interact(maps: Map<Location, WorldMap>, player: PlayerCharacter) -> Seq<
    WorldAction,
> {
    if maps.contains_key(player.location) && breaks(
        maps[player.location],
        player.trainer.party@,
        player.character.position.spec_forwards(),
    ) {
        seq![WorldAction::BreakObject(player.character.position.spec_forwards())]
    } else {
        Seq::empty()
    }
}

/// The character with the id, if there is one.
pub open spec fn npc_by_id(npcs: Seq<Npc>, id: NpcId) -> Option<Npc>
    decreases npcs.len(),
{
    if npcs.len() == 0 {
        None
    } else if npcs[0].id == id {
        Some(npcs[0])
    } else {
        npc_by_id(npcs.subrange(1, npcs.len() as int), id)
    }
}

/// The place of the character with the id, or the number of characters
/// where there is none.
pub open spec fn npc_index(npcs: Seq<Npc>, id: NpcId) -> int
    decreases npcs.len(),
{
    if npcs.len() == 0 {
        0
    } else if npcs[0].id == id {
        0
    } else {
        1 + npc_index(npcs.subrange(1, npcs.len() as int), id)
    }
}

pub fn find_npc(npcs: &Vec<Npc>, id: NpcId) -> (r: usize)
    ensures
        r == npc_index(npcs@, id),
        r <= npcs@.len(),
        r < npcs@.len() ==> npcs@[r as int].id == id && npc_by_id(npcs@, id) == Some(npcs@[r as int]),
        r == npcs@.len() ==> npc_by_id(npcs@, id).is_none(),
{
    let mut i: usize = 0;
    assert(npcs@.subrange(0, npcs@.len() as int) =~= npcs@);
    while i < npcs.len()
        invariant
            i <= npcs@.len(),
            npc_index(npcs@, id) == i + npc_index(npcs@.subrange(i as int, npcs@.len() as int), id),
            npc_by_id(npcs@, id) == npc_by_id(npcs@.subrange(i as int, npcs@.len() as int), id),
        decreases npcs@.len() - i,
    {
        let ghost rest = npcs@.subrange(i as int, npcs@.len() as int);
        assert(rest[0] == npcs@[i as int]);
        assert(rest.subrange(1, rest.len() as int) =~= npcs@.subrange(i + 1, npcs@.len() as int));
        if npcs[i].id == id {
            return i;
        }
        i += 1;
    }
    i
}

/// The ids of the trainers on the map of `entry` that count as beaten once
/// the trainer of `entry` is: none where the map or the trainer is unknown,
/// else the trainer and whom it names.
pub open spec fn beaten_with(maps: Map<Location, WorldMap>, entry: TrainerEntry) -> Seq<NpcId> {
    if maps.contains_key(entry.location) {
        match npc_by_id(maps[entry.location].npcs@, entry.id) {
            Some(npc) => match npc.trainer {
                Some(trainer) => match trainer.disable {
                    TrainerDisable::DisableSelf => seq![entry.id],
                    TrainerDisable::Many(others) => seq![entry.id] + others@,
                },
                None => Seq::empty(),
            },
            None => Seq::empty(),
        }
    } else {
        Seq::empty()
    }
}

/// The player after a battle. After a win, the battle that was fought is
/// over, and its trainer counts as beaten with whom it names. After a
/// loss, the player is where it was last healed, or where the world
/// begins, and its party is at full health. Either way it can move again.
pub open spec fn after_battle(
    maps: Map<Location, WorldMap>,
    spawn: (Location, Position),
    before: PlayerCharacter,
    after: PlayerCharacter,
    winner: bool,
) -> bool {
    &&& after.input_frozen == before.input_frozen
    &&& after.ignore == before.ignore
    &&& after.trainer.bag == before.trainer.bag
    &&& after.world == (PlayerWorld { battle: after.world.battle, ..before.world })
    &&& if winner {
        let ids = match before.world.battle.battling {
            Some(entry) => match entry.trainer {
                Some(trainer) => beaten_with(maps, trainer),
                None => Seq::empty(),
            },
            None => Seq::empty(),
        };
        let location = match before.world.battle.battling {
            Some(entry) => match entry.trainer {
                Some(trainer) => trainer.location,
                None => before.location,
            },
            None => before.location,
        };
        &&& after.character == (Character { frozen: false, ..before.character })
        &&& after.location == before.location
        &&& after.trainer.party == before.trainer.party
        &&& after.world.battle.battling.is_none()
        &&& forall|e: TrainerEntry|
            after.world.battle.battled@.contains(e) <==> before.world.battle.battled@.contains(e)
                || (e.location == location && ids.contains(e.id))
    } else {
        let place = match before.world.heal {
            Some(place) => place,
            None => spawn,
        };
        &&& after.character == (Character {
            frozen: false,
            position: place.1,
            ..before.character
        })
        &&& after.location == place.0
        &&& party_healed(before.trainer.party@, after.trainer.party@)
        &&& after.world.battle == before.world.battle
    }
}

impl WorldMapManager {
    /// Hands an input event to `try_move` or `try_interact`.
    pub fn input(&mut self, player: &mut PlayerCharacter, input: InputEvent)
        ensures
            final(self).data.tiles == old(self).data.tiles,
            final(self).data.npcs == old(self).data.npcs,
            final(self).data.wild == old(self).data.wild,
            final(self).data.spawn == old(self).data.spawn,
            match input {
                InputEvent::Move(direction) => {
                    &&& final(self).data == old(self).data
                    &&& player_after_move(
                        facing(*old(player), direction),
                        *final(player),
                        move_outcome(
                            old(self).data.maps@,
                            old(self).data.tiles@,
                            facing(*old(player), direction),
                            direction,
                        ),
                        direction,
                    )
                    &&& final(self).actions@ == old(self).actions@ + actions_of_move(
                        old(self).data.maps@,
                        move_outcome(
                            old(self).data.maps@,
                            old(self).data.tiles@,
                            facing(*old(player), direction),
                            direction,
                        ),
                    )
                },
                InputEvent::Interact => {
                    &&& interacted(
                        old(self).data.maps@,
                        final(self).data.maps@,
                        old(self).data.tiles@,
                        *old(player),
                        *final(player),
                    )
                    &&& final(self).actions@ == old(self).actions@ + actions_of_interact(
                        old(self).data.maps@,
                        *old(player),
                    )
                },
            },
    {
        match input {
            InputEvent::Move(direction) => self.try_move(player, direction),
            InputEvent::Interact => self.try_interact(player),
        }
    }

    /// The player tries to break what stands ahead, else to talk to whoever
    /// stands there, and takes what lies ahead.
    pub fn try_interact(&mut self, player: &mut PlayerCharacter)
        ensures
            final(self).data.tiles == old(self).data.tiles,
            final(self).data.npcs == old(self).data.npcs,
            final(self).data.wild == old(self).data.wild,
            final(self).data.spawn == old(self).data.spawn,
            interacted(
                old(self).data.maps@,
                final(self).data.maps@,
                old(self).data.tiles@,
                *old(player),
                *final(player),
            ),
            final(self).actions@ == old(self).actions@ + actions_of_interact(
                old(self).data.maps@,
                *old(player),
            ),
    {
        let ghost maps = self.data.maps@;
        if let Some(map) = self.data.maps.get_mut(&player.location) {
            let ghost before = *map;
            let forward = player.character.position.forwards();
            let mut broke: bool = false;
            if let Some(object) = map.object_at(&forward) {
                if object.group == TREE {
                    broke = player.trainer.has_move(CUT);
                } else if object.group == ROCK {
                    broke = player.trainer.has_move(ROCK_SMASH);
                }
            }
            assert(broke == breaks(before, old(player).trainer.party@, forward));
            if broke {
                self.actions.push(WorldAction::BreakObject(forward));
                player.world.insert_object(&map.id, forward);
            } else if player.world.npc_active.is_none() {
                let forwarding: bool = match map.tile(player.character.position.coords) {
                    Some(tile) => forwarding_at(&self.data.tiles, &map.palettes, tile),
                    None => false,
                };
                let position = if forwarding {
                    player.character.position.in_direction(player.character.position.direction)
                } else {
                    player.character.position
                };
                let first: usize = find_reachable(&map.npcs, &position);
                if first < map.npcs.len() {
                    let turned = map.npcs[first].interact_from(&position);
                    assert(turned);
                    player.world.npc_active = Some(map.npcs[first].id);
                    assert(map.npcs@ =~= before.npcs@.update(
                        first as int,
                        before.npcs@[first as int].turned(position.direction.spec_inverse()),
                    ));
                }
            }
            if let Some(item) = map.item_at(&forward) {
                player.world.insert_object(&map.id, forward);
                player.trainer.bag.insert_saved(item.item, item.count);
            }
            assert(*map == (WorldMap { npcs: map.npcs, ..before }));
            assert(self.actions@ =~= old(self).actions@ + actions_of_interact(maps, *old(player)));
        } else {
            assert(self.actions@ =~= old(self).actions@ + actions_of_interact(maps, *old(player)));
        }
    }

    /// Settles what a battle leaves behind.
    pub fn post_battle(&mut self, player: &mut PlayerCharacter, winner: bool)
        ensures
            final(self).data == old(self).data,
            final(self).actions == old(self).actions,
            after_battle(
                old(self).data.maps@,
                old(self).data.spawn,
                *old(player),
                *final(player),
                winner,
            ),
    {
        player.character.unfreeze();
        if winner {
            let battling = player.world.battle.battling;
            player.world.battle.battling = None;
            if let Some(entry) = battling {
                if let Some(trainer) = entry.trainer {
                    if let Some(map) = self.data.maps.get(&trainer.location) {
                        let index: usize = find_npc(&map.npcs, trainer.id);
                        if index < map.npcs.len() {
                            if let Some(npc_trainer) = map.npcs[index].trainer.as_ref() {
                                match &npc_trainer.disable {
                                    TrainerDisable::DisableSelf => {
                                        player.world.battle.insert(&trainer.location, trainer.id);
                                        assert(seq![trainer.id][0] == trainer.id);
                                    },
                                    TrainerDisable::Many(others) => {
                                        player.world.battle.insert(&trainer.location, trainer.id);
                                        player.world.battle.extend(&trainer.location, others);
                                        let ghost ids = seq![trainer.id] + others@;
                                        assert(ids[0] == trainer.id);
                                        assert forall|id: NpcId| ids.contains(id) <==> id
                                            == trainer.id || others@.contains(id) by {
                                            if others@.contains(id) {
                                                let j = choose|j: int|
                                                    0 <= j < others@.len() && others@[j] == id;
                                                assert(ids[j + 1] == id);
                                            }
                                            if ids.contains(id) {
                                                let j = choose|j: int|
                                                    0 <= j < ids.len() && ids[j] == id;
                                                if j > 0 {
                                                    assert(others@[j - 1] == id);
                                                }
                                            }
                                        }
                                    },
                                }
                            }
                        }
                    }
                }
            }
        } else {
            let place = match player.world.heal {
                Some(place) => place,
                None => self.data.spawn,
            };
            player.location = place.0;
            player.character.position = place.1;
            player.trainer.heal();
        }
    }
}

} // verus!

verus! {

use crate::map::WildPokemon;
use crate::map::WildType;
use crate::player::BattleEntry;
use crate::player::engaged;
use crate::player::set_out;
use crate::player::WildEncounter;
use crate::tile::is_wild;
use crate::tile::wild_at;

/// The chance of an encounter of a kind, out of 255.
pub open spec fn spec_chance(chances: WildChances, kind: WildType) -> u8 {
    match kind {
        WildType::Land => chances.land,
        WildType::Water => chances.water,
    }
}

/// The battle against the monster that was drawn: no battle where the
/// roll failed or nothing can be met; else one against the species at the
/// place that was picked, on the level that was drawn.
pub open spec fn spec_wild_entry(
    entries: Seq<WildPokemon>,
    roll: bool,
    pick: u32,
    level: u32,
) -> Option<BattleEntry> {
    if roll && pick < entries.len() && level <= u8::MAX {
        Some(
            BattleEntry {
                wild: Some(WildEncounter { species: entries[pick as int].species, level: level as u8 }),
                trainer: None,
                active: 1,
            },
        )
    } else {
        None
    }
}

/// Whether a battle is one that can begin in the wild among `entries`: it
/// is against one of their species, on a level of its range.
pub open spec fn wild_battle(entries: Seq<WildPokemon>, battle: BattleEntry) -> bool {
    &&& battle.trainer.is_none()
    &&& battle.active == 1
    &&& battle.wild.is_some()
    &&& exists|i: int|
        0 <= i < entries.len() && (#[trigger] entries[i]).species == battle.wild.unwrap().species
            && (entries[i].min_level <= battle.wild.unwrap().level <= entries[i].max_level
            || battle.wild.unwrap().level == entries[i].min_level)
}

pub fn wild_entry(entries: &Vec<WildPokemon>, roll: bool, pick: u32, level: u32) -> (r: Option<
    BattleEntry,
>)
    ensures
        r == spec_wild_entry(entries@, roll, pick, level),
{
    if roll && (pick as usize) < entries.len() && level <= 255 {
        Some(
            BattleEntry {
                wild: Some(WildEncounter { species: entries[pick as usize].species, level: level as u8 }),
                trainer: None,
                active: 1,
            },
        )
    } else {
        None
    }
}

/// Whether `roll`, `pick` and `level` are draws that can come up for a
/// chance of `chance` in 255 among `entries`: the roll succeeds where the
/// chance is the whole and fails where it is nothing, the place is one of
/// a species, and the level is one of its range, or the lower end where
/// the range is empty.
pub open spec fn drawn(
    chance: u8,
    entries: Seq<WildPokemon>,
    roll: bool,
    pick: u32,
    level: u32,
) -> bool {
    &&& chance == 255 ==> roll
    &&& chance == 0 ==> !roll
    &&& pick < entries.len()
    &&& if entries[pick as int].min_level <= entries[pick as int].max_level {
        entries[pick as int].min_level <= level <= entries[pick as int].max_level
    } else {
        level == entries[pick as int].min_level
    }
}

/// Draws whether a wild monster is met, and which: the roll for the chance
/// of the kind of encounter, the place of a species among `entries`, and a
/// level of its range. The battle is the one that `wild_entry` makes of
/// these draws. So a battle that comes of it is one that can begin among
/// `entries`; none comes where the chance is nothing or there is nobody to
/// meet; and one does come where the chance is the whole and there is
/// somebody.
pub fn generate_wild(
    chances: &WildChances,
    kind: WildType,
    entries: &Vec<WildPokemon>,
    randoms: &mut WorldRandoms,
) -> (r: Option<BattleEntry>)
    ensures
        entries@.len() == 0 ==> r.is_none(),
        entries@.len() > 0 ==> exists|roll: bool, pick: u32, level: u32|
            drawn(spec_chance(*chances, kind), entries@, roll, pick, level) && r
                == #[trigger] spec_wild_entry(entries@, roll, pick, level),
        r.is_some() ==> wild_battle(entries@, r.unwrap()),
        spec_chance(*chances, kind) == 0 ==> r.is_none(),
        spec_chance(*chances, kind) == 255 && entries@.len() > 0 ==> r.is_some(),
{
    let chance: u8 = match kind {
        WildType::Land => chances.land,
        WildType::Water => chances.water,
    };
    if entries.len() == 0 {
        return None;
    }
    let last: usize = entries.len() - 1;
    let high: u32 = if last > u32::MAX as usize {
        u32::MAX
    } else {
        last as u32
    };
    let roll: bool = randoms.wild_roll(chance);
    let pick: u32 = randoms.wild_pick(0, high);
    let species = entries[pick as usize];
    let level: u32 = randoms.wild_pick(species.min_level as u32, species.max_level as u32);
    let r = wild_entry(entries, roll, pick, level);
    assert(drawn(chance, entries@, roll, pick, level) && r == spec_wild_entry(
        entries@,
        roll,
        pick,
        level,
    ));
    r
}

/// Whether a wild monster may be met where the player stands: encounters
/// are on, the tile is one for them, and the map knows whom to meet in the
/// way the player moves.
pub open spec fn wild_possible(
    maps: Map<Location, WorldMap>,
    tiles: Seq<PaletteTileData>,
    player: PlayerCharacter,
) -> bool {
    &&& maps.contains_key(player.location)
    &&& player.world.wild_encounters
    &&& wild_list(maps, tiles, player).is_some()
}

/// Whom the player may meet where it stands.
pub open spec fn wild_list(
    maps: Map<Location, WorldMap>,
    tiles: Seq<PaletteTileData>,
    player: PlayerCharacter,
) -> Option<Vec<WildPokemon>> {
    let map = maps[player.location];
    let kind = wild_kind(player);
    match map.spec_tile(player.character.position.coords) {
        Some(tile) => if is_wild(tiles, map.palettes, tile) {
            match map.wild {
                Some(entries) => entries.spec_get(kind),
                None => None,
            }
        } else {
            None
        },
        None => None,
    }
}

/// Whether the character at place `i` challenges the player.
pub open spec fn challenges(map: WorldMap, player: PlayerCharacter, i: int) -> bool {
    map.npcs@[i].trainer.is_some() && player.challenged_by(
        map.id,
        map.npcs@[i].id,
        map.npcs@[i].trainer.unwrap(),
        map.npcs@[i].character.position,
    ).is_some()
}

/// The place of the first character that challenges the player, from
/// place `from` on, or the number of characters where none does.
pub open spec fn first_challenger(map: WorldMap, player: PlayerCharacter, from: int) -> int
    decreases map.npcs@.len() - from,
{
    if from < 0 || from >= map.npcs@.len() {
        map.npcs@.len() as int
    } else if challenges(map, player, from) {
        from
    } else {
        first_challenger(map, player, from + 1)
    }
}

/// The character after it set out for the player, `distance` tiles ahead.
pub open spec fn approaching(before: Npc, after: Npc, distance: u8) -> bool {
    &&& after == (Npc { character: after.character, ..before })
    &&& set_out(before.character, after.character, distance)
}

/// The player after the trainers of its map looked out for it: where one
/// challenges it, the first that does is engaged with the player and has
/// set out for it, and the player is frozen.
pub open spec fn looked_out(
    map_before: WorldMap,
    map_after: WorldMap,
    before: PlayerCharacter,
    after: PlayerCharacter,
) -> bool {
    let first = first_challenger(map_before, before, 0);
    &&& map_after == (WorldMap { npcs: map_after.npcs, ..map_before })
    &&& map_after.npcs@.len() == map_before.npcs@.len()
    &&& if first < map_before.npcs@.len() {
        let distance = before.challenged_by(
            map_before.id,
            map_before.npcs@[first].id,
            map_before.npcs@[first].trainer.unwrap(),
            map_before.npcs@[first].character.position,
        ).unwrap();
        &&& forall|i: int|
            0 <= i < map_before.npcs@.len() && i != first ==> #[trigger] map_after.npcs@[i]
                == map_before.npcs@[i]
        &&& approaching(map_before.npcs@[first], map_after.npcs@[first], distance)
        &&& engaged(before, after, map_before.npcs@[first].id)
    } else {
        map_after.npcs@ =~= map_before.npcs@ && after == before
    }
}

/// Lets a character look out for the player, if it is a trainer.
pub fn challenge(player: &mut PlayerCharacter, map: &Location, npc: &mut Npc) -> (r: bool)
    ensures
        r == (old(npc).trainer.is_some() && old(player).challenged_by(
            *map,
            old(npc).id,
            old(npc).trainer.unwrap(),
            old(npc).character.position,
        ).is_some()),
        !r ==> *final(player) == *old(player) && *final(npc) == *old(npc),
        r ==> approaching(
            *old(npc),
            *final(npc),
            old(player).challenged_by(
                *map,
                old(npc).id,
                old(npc).trainer.unwrap(),
                old(npc).character.position,
            ).unwrap(),
        ) && engaged(*old(player), *final(player), old(npc).id),
{
    let id: NpcId = npc.id;
    match npc.trainer.as_ref() {
        Some(trainer) => player.find_battle(map, &id, trainer, &mut npc.character),
        None => false,
    }
}

/// Lets the trainers of a map look out for the player, in their order.
pub fn look_out(map: &mut WorldMap, player: &mut PlayerCharacter)
    ensures
        looked_out(*old(map), *final(map), *old(player), *final(player)),
{
    let id = map.id;
    let mut i: usize = 0;
    while i < map.npcs.len()
        invariant
            i <= map.npcs@.len(),
            id == old(map).id,
            *map == (WorldMap { npcs: map.npcs, ..*old(map) }),
            map.npcs@ =~= old(map).npcs@,
            *player == *old(player),
            first_challenger(*old(map), *old(player), 0) == first_challenger(
                *old(map),
                *old(player),
                i as int,
            ),
        decreases map.npcs@.len() - i,
    {
        let found = challenge(player, &id, &mut map.npcs[i]);
        if found {
            assert(map.npcs@.len() == old(map).npcs@.len());
            return ;
        }
        i += 1;
    }
}

} // verus!

verus! {

use crate::character::NpcInteract;

/// The kind of encounter that the player may have: in the water when it
/// swims, else on land.
pub open spec fn wild_kind(player: PlayerCharacter) -> WildType {
    if player.character.movement == Movement::Swimming {
        WildType::Water
    } else {
        WildType::Land
    }
}

/// The request for a battle, if there is one.
pub open spec fn battle_asked(battle: Option<BattleEntry>) -> Seq<WorldAction> {
    match battle {
        Some(battle) => seq![WorldAction::Battle(battle)],
        None => Seq::empty(),
    }
}

/// Whether `after` is `before` with the notice that the player stands on a
/// tile and, behind it, the battle that comes of these draws among
/// `entries`, and the draws are ones that can come up.
pub open spec fn wild_drawn(
    before: Seq<WorldAction>,
    after: Seq<WorldAction>,
    chance: u8,
    entries: Seq<WildPokemon>,
    roll: bool,
    pick: u32,
    level: u32,
) -> bool {
    &&& drawn(chance, entries, roll, pick, level)
    &&& after == before.push(WorldAction::OnTile) + battle_asked(
        spec_wild_entry(entries, roll, pick, level),
    )
}

/// Whether `after` is `before` with what stepping onto a tile asks for
/// behind it: the notice that the player stands on a tile, and, where a
/// wild monster may be met there and there is somebody to meet, the battle
/// that comes of draws that can come up; nothing else.
pub open spec fn tile_actions(
    before: Seq<WorldAction>,
    after: Seq<WorldAction>,
    maps: Map<Location, WorldMap>,
    tiles: Seq<PaletteTileData>,
    chances: WildChances,
    player: PlayerCharacter,
) -> bool {
    &&& before.len() + 1 <= after.len() <= before.len() + 2
    &&& after.subrange(0, before.len() as int) == before
    &&& after[before.len() as int] == WorldAction::OnTile
    &&& if wild_possible(maps, tiles, player) && wild_list(maps, tiles, player).unwrap()@.len()
        > 0 {
        exists|roll: bool, pick: u32, level: u32| #[trigger]
            wild_drawn(
                before,
                after,
                spec_chance(chances, wild_kind(player)),
                wild_list(maps, tiles, player).unwrap()@,
                roll,
                pick,
                level,
            )
    } else {
        after == before.push(WorldAction::OnTile)
    }
}

/// The battle against the trainer that a character is, if it is one that
/// the player has not beaten.
pub open spec fn trainer_battle(
    battled: Seq<TrainerEntry>,
    location: Location,
    npc: Npc,
) -> Option<BattleEntry> {
    if npc.trainer.is_some() && !battled.contains(TrainerEntry { location, id: npc.id }) {
        Some(
            BattleEntry {
                wild: None,
                trainer: Some(TrainerEntry { location, id: npc.id }),
                active: 1,
            },
        )
    } else {
        None
    }
}

/// A copy of the pages: the same lines with the same text.
pub fn clone_pages(pages: &Vec<Vec<String>>) -> (r: Vec<Vec<String>>)
    ensures
        r.deep_view() == pages.deep_view(),
{
    let mut r: Vec<Vec<String>> = Vec::new();
    let mut i: usize = 0;
    while i < pages.len()
        invariant
            i <= pages@.len(),
            r@.len() == i,
            forall|k: int| 0 <= k < i ==> (#[trigger] r@[k]).deep_view() == pages@[k].deep_view(),
        decreases pages@.len() - i,
    {
        let mut page: Vec<String> = Vec::new();
        let mut j: usize = 0;
        while j < pages[i].len()
            invariant
                i < pages@.len(),
                j <= pages@[i as int]@.len(),
                page@.len() == j,
                forall|k: int| 0 <= k < j ==> (#[trigger] page@[k])@ == pages@[i as int]@[k]@,
            decreases pages@[i as int]@.len() - j,
        {
            page.push(pages[i][j].clone());
            j += 1;
        }
        assert(page.deep_view() =~= pages@[i as int].deep_view());
        r.push(page);
        i += 1;
    }
    assert(r.deep_view() =~= pages.deep_view());
    r
}

/// Whether the action is the message with these pages in this colour.
pub open spec fn is_message(action: WorldAction, pages: Vec<Vec<String>>, color: MessageColor) -> bool {
    action matches WorldAction::Message(p, c) && c == color && p.deep_view() == pages.deep_view()
}

/// What the character that the player is engaged with does next.
pub enum Interaction {
    /// Nothing: nobody is engaged with the player, the character is not
    /// on the player's map, it is still on its way, its message is still
    /// being read, or it has nothing to say.
    Idle,
    /// Its message has been read: the talk is over, and a battle begins if
    /// it is a trainer that the player has not beaten.
    Finish(Option<BattleEntry>),
    /// It is a trainer that the player has not beaten, at this place on
    /// the map and of this group: it says what it says before a battle.
    Challenge(int, NpcGroup),
    /// The character at this place on the map says its message.
    Talk(int),
}

pub open spec fn interaction(
    maps: Map<Location, WorldMap>,
    groups: Map<NpcGroupId, NpcGroup>,
    player: PlayerCharacter,
) -> Interaction {
    if player.world.npc_active.is_none() || !maps.contains_key(player.location) {
        Interaction::Idle
    } else {
        let id = player.world.npc_active.unwrap();
        let npcs = maps[player.location].npcs@;
        let index = npc_index(npcs, id);
        if index >= npcs.len() {
            Interaction::Idle
        } else {
            let npc = npcs[index];
            match player.world.polling {
                Some(finished) => if finished {
                    Interaction::Finish(
                        trainer_battle(player.world.battle.battled@, player.location, npc),
                    )
                } else {
                    Interaction::Idle
                },
                None => if npc.character.spec_moving() {
                    Interaction::Idle
                } else if !player.world.battle.spec_battled(player.location, id) && group_of(
                    groups,
                    npc.group,
                ).is_some() && npc.trainer.is_some() {
                    Interaction::Challenge(index, group_of(groups, npc.group).unwrap())
                } else if npc.interact is Message {
                    Interaction::Talk(index)
                } else {
                    Interaction::Idle
                },
            }
        }
    }
}

/// The player after the character it is engaged with did what comes
/// next.
pub open spec fn player_after_interaction(
    maps: Map<Location, WorldMap>,
    before: PlayerCharacter,
    after: PlayerCharacter,
    what: Interaction,
) -> bool {
    match what {
        Interaction::Idle => after == before,
        Interaction::Finish(battle) => after == (PlayerCharacter {
            character: Character { frozen: false, ..before.character },
            world: PlayerWorld {
                npc_active: None,
                polling: None,
                battle: crate::player::PlayerBattleState {
                    battling: match battle {
                        Some(b) => Some(b),
                        None => before.world.battle.battling,
                    },
                    ..before.world.battle
                },
                ..before.world
            },
            ..before
        }),
        Interaction::Challenge(index, _) | Interaction::Talk(index) => after == (PlayerCharacter {
            character: Character {
                position: Position {
                    direction: maps[before.location].npcs@[index].character.position.direction.spec_inverse(),
                    ..before.character.position
                },
                ..before.character
            },
            world: PlayerWorld { polling: Some(false), ..before.world },
            ..before
        }),
    }
}

/// Whether `added` is what the character's doing asks for.
pub open spec fn actions_of_interaction(
    maps: Map<Location, WorldMap>,
    groups: Map<NpcGroupId, NpcGroup>,
    player: PlayerCharacter,
    what: Interaction,
    added: Seq<WorldAction>,
) -> bool {
    match what {
        Interaction::Idle => added.len() == 0,
        Interaction::Finish(battle) => match battle {
            Some(b) => added == seq![WorldAction::Battle(b)],
            None => added.len() == 0,
        },
        Interaction::Challenge(index, group) => {
            let npc = maps[player.location].npcs@[index];
            let music = match group.trainer {
                Some(trainer) => trainer.music,
                None => None,
            };
            match music {
                Some(music) => added.len() == 2 && added[0] == WorldAction::PlayMusic(music)
                    && is_message(added[1], npc.trainer.unwrap().encounter, group.message),
                None => added.len() == 1 && is_message(
                    added[0],
                    npc.trainer.unwrap().encounter,
                    group.message,
                ),
            }
        },
        Interaction::Talk(index) => {
            let npc = maps[player.location].npcs@[index];
            let color = match group_of(groups, npc.group) {
                Some(group) => group.message,
                None => MessageColor::Black,
            };
            &&& added.len() == 1
            &&& npc.interact matches NpcInteract::Message(pages) && is_message(
                added[0],
                pages,
                color,
            )
        },
    }
}

impl WorldMapManager {
    /// Tells that the player stands on a tile: a wild monster may be met,
    /// and the trainers of the map look out for the player.
    pub fn on_tile(&mut self, player: &mut PlayerCharacter)
        ensures
            final(self).data.tiles == old(self).data.tiles,
            final(self).data.npcs == old(self).data.npcs,
            final(self).data.wild == old(self).data.wild,
            final(self).data.spawn == old(self).data.spawn,
            tile_actions(
                old(self).actions@,
                final(self).actions@,
                old(self).data.maps@,
                old(self).data.tiles@,
                old(self).data.wild,
                *old(player),
            ),
            !wild_possible(old(self).data.maps@, old(self).data.tiles@, *old(player))
                ==> final(self).actions@ == old(self).actions@.push(WorldAction::OnTile),
            if old(self).data.maps@.contains_key(old(player).location) {
                &&& final(self).data.maps@.contains_key(old(player).location)
                &&& final(self).data.maps@ == old(self).data.maps@.insert(
                    old(player).location,
                    final(self).data.maps@[old(player).location],
                )
                &&& looked_out(
                    old(self).data.maps@[old(player).location],
                    final(self).data.maps@[old(player).location],
                    *old(player),
                    *final(player),
                )
            } else {
                final(self).data.maps@ == old(self).data.maps@ && *final(player) == *old(player)
            },
    {
        self.actions.push(WorldAction::OnTile);
        let ghost told = self.actions@;
        let ghost maps = old(self).data.maps@;
        let ghost tiles = old(self).data.tiles@;
        assert(told.subrange(0, old(self).actions@.len() as int) =~= old(self).actions@);
        if let Some(map) = self.data.maps.get_mut(&player.location) {
            let ghost mut met = false;
            if player.world.wild_encounters {
                if let Some(current) = map.tile(player.character.position.coords) {
                    if wild_at(&self.data.tiles, &map.palettes, current) {
                        let kind = match player.character.movement {
                            Movement::Swimming => WildType::Water,
                            _ => WildType::Land,
                        };
                        if let Some(entries) = map.wild.as_ref() {
                            if let Some(list) = entries.get(kind) {
                                let found = generate_wild(
                                    &self.data.wild,
                                    kind,
                                    list,
                                    &mut self.randoms,
                                );
                                if let Some(battle) = found {
                                    self.actions.push(WorldAction::Battle(battle));
                                    assert(self.actions@.subrange(
                                        0,
                                        old(self).actions@.len() as int,
                                    ) =~= old(self).actions@);
                                }
                                proof {
                                    met = true;
                                    assert(wild_possible(maps, tiles, *old(player)));
                                    assert(wild_list(maps, tiles, *old(player)) == Some(*list));
                                    if list@.len() > 0 {
                                        let (roll, pick, level) = choose|
                                            roll: bool,
                                            pick: u32,
                                            level: u32,
                                        |
                                            drawn(
                                                spec_chance(old(self).data.wild, kind),
                                                list@,
                                                roll,
                                                pick,
                                                level,
                                            ) && found == #[trigger] spec_wild_entry(
                                                list@,
                                                roll,
                                                pick,
                                                level,
                                            );
                                        assert(self.actions@ =~= old(self).actions@.push(
                                            WorldAction::OnTile,
                                        ) + battle_asked(found));
                                        assert(wild_drawn(
                                            old(self).actions@,
                                            self.actions@,
                                            spec_chance(old(self).data.wild, kind),
                                            list@,
                                            roll,
                                            pick,
                                            level,
                                        ));
                                    }
                                }
                            }
                        }
                    }
                }
            }
            proof {
                if !met {
                    assert(!wild_possible(maps, tiles, *old(player)));
                }
            }
            if player.world.npc_active.is_none() {
                look_out(map, player);
            } else {
                assert(first_challenger(*map, *player, 0) == map.npcs@.len()) by {
                    lemma_no_challenger(*map, *player, 0);
                }
            }
        }
    }

    /// Ends the step of the player that has just been completed: a warp
    /// zone under the player makes its warp wait; else, on a tile of the
    /// map, the player is told to stand on it.
    fn stop_player(&mut self, player: &mut PlayerCharacter)
        ensures
            final(self).data.tiles == old(self).data.tiles,
            final(self).data.npcs == old(self).data.npcs,
            final(self).data.wild == old(self).data.wild,
            final(self).data.spawn == old(self).data.spawn,
            final(player).location == old(player).location,
            final(player).character.position == old(player).character.position,
            old(self).actions@.len() <= final(self).actions@.len(),
            final(self).actions@.subrange(0, old(self).actions@.len() as int) == old(self).actions@,
            maps_kept(old(self).data.maps@, final(self).data.maps@, old(player).location),
            old(self).data.maps@.contains_key(old(player).location) ==> forall|k: int|
                0 <= k < old(self).data.maps@[old(player).location].npcs@.len() && old(
                    self,
                ).data.maps@[old(player).location].npcs@[k].trainer.is_none()
                    ==> #[trigger] final(self).data.maps@[old(player).location].npcs@[k] == old(
                    self,
                ).data.maps@[old(player).location].npcs@[k],
            stopped(
                old(self).data.maps@,
                final(self).data.maps@,
                old(self).data.tiles@,
                old(self).data.wild,
                old(self).actions@,
                final(self).actions@,
                *old(player),
                *final(player),
            ),
    {
        player.character.stop_move();
        let mut on_tile: bool = false;
        if let Some(map) = self.data.maps.get(&player.location) {
            if let Some(destination) = map.warp_at(player.character.position.coords) {
                player.world.warp = Some(*destination);
            } else if map.in_bounds(player.character.position.coords) {
                on_tile = true;
            }
        }
        if on_tile {
            let ghost before = *player;
            self.on_tile(player);
            proof {
                let location = old(player).location;
                lemma_looked_out_kept(
                    old(self).data.maps@[location],
                    self.data.maps@[location],
                    before,
                    *player,
                );
            }
        } else {
            assert(self.actions@.subrange(0, old(self).actions@.len() as int) =~= old(
                self,
            ).actions@);
            proof {
                if old(self).data.maps@.contains_key(old(player).location) {
                    lemma_map_kept_refl(old(self).data.maps@[old(player).location]);
                }
            }
        }
    }

    /// Lets the character that the player is engaged with go on: it waits
    /// until it has arrived and its message has been read, says what it has
    /// to say, and, when that has been read, lets the player go or begins
    /// the battle.
    pub fn update_interactions(&mut self, player: &mut PlayerCharacter)
        ensures
            final(self).data == old(self).data,
            player_after_interaction(
                old(self).data.maps@,
                *old(player),
                *final(player),
                interaction(old(self).data.maps@, old(self).data.npcs@, *old(player)),
            ),
            old(self).actions@.len() <= final(self).actions@.len(),
            final(self).actions@.subrange(0, old(self).actions@.len() as int) == old(self).actions@,
            actions_of_interaction(
                old(self).data.maps@,
                old(self).data.npcs@,
                *old(player),
                interaction(old(self).data.maps@, old(self).data.npcs@, *old(player)),
                final(self).actions@.subrange(
                    old(self).actions@.len() as int,
                    final(self).actions@.len() as int,
                ),
            ),
    {
        let ghost start = self.actions@;
        assert(start.subrange(0, start.len() as int) =~= start);
        let id: NpcId = match player.world.npc_active {
            Some(id) => id,
            None => {
                return ;
            },
        };
        let map = match self.data.maps.get(&player.location) {
            Some(map) => map,
            None => {
                return ;
            },
        };
        let index: usize = find_npc(&map.npcs, id);
        if index >= map.npcs.len() {
            return ;
        }
        let npc = &map.npcs[index];
        match player.world.polling {
            Some(finished) => {
                if finished {
                    if npc.trainer.is_some() && !player.world.battle.battled(&player.location, &id) {
                        let battle = BattleEntry {
                            wild: None,
                            trainer: Some(TrainerEntry { location: player.location, id }),
                            active: 1,
                        };
                        player.world.battle.battling = Some(battle);
                        self.actions.push(WorldAction::Battle(battle));
                        assert(self.actions@.subrange(start.len() as int, self.actions@.len() as int)
                            =~= seq![WorldAction::Battle(battle)]);
                    }
                    if player.character.frozen {
                        player.character.unfreeze();
                    }
                    player.world.npc_active = None;
                    player.world.polling = None;
                    assert(self.actions@.subrange(0, start.len() as int) =~= start);
                }
            },
            None => {
                if !npc.character.moving() {
                    let group = self.data.npcs.get(&npc.group);
                    if !player.world.battle.battled(&player.location, &id) {
                        if let Some(group) = group {
                            if let Some(trainer) = npc.trainer.as_ref() {
                                let music: Option<MusicId> = match group.trainer {
                                    Some(trainer) => trainer.music,
                                    None => None,
                                };
                                if let Some(music) = music {
                                    self.actions.push(WorldAction::PlayMusic(music));
                                }
                                player.character.position.direction =
                                    npc.character.position.direction.inverse();
                                let message = clone_pages(&trainer.encounter);
                                self.actions.push(WorldAction::Message(message, group.message));
                                player.world.polling = Some(false);
                                assert(self.actions@.subrange(0, start.len() as int) =~= start);
                                return ;
                            }
                        }
                    }
                    match &npc.interact {
                        NpcInteract::Message(pages) => {
                            let message = clone_pages(pages);
                            let color = match group {
                                Some(group) => group.message,
                                None => MessageColor::Black,
                            };
                            self.actions.push(WorldAction::Message(message, color));
                            player.world.polling = Some(false);
                            player.character.position.direction =
                                npc.character.position.direction.inverse();
                            assert(self.actions@.subrange(0, start.len() as int) =~= start);
                        },
                        NpcInteract::Script(_) => {},
                        NpcInteract::Nothing => {},
                    }
                }
            },
        }
    }
}

/// While someone is engaged with the player, no trainer challenges it.
pub proof fn lemma_no_challenger(map: WorldMap, player: PlayerCharacter, from: int)
    requires
        player.world.npc_active.is_some(),
        0 <= from,
    ensures
        first_challenger(map, player, from) == map.npcs@.len(),
    decreases map.npcs@.len() - from,
{
    if from < map.npcs@.len() {
        lemma_no_challenger(map, player, from + 1);
    }
}

} // verus!

verus! {

use crate::character::went_by;
use crate::character::lemma_patrol_went_by;
use crate::character::NpcMovement;

/// Microseconds between two decisions of the characters of a map.
pub const NPC_DECISION_PERIOD: i64 = 1_000_000;

/// The player as the characters of its map left it: as it was, or engaged
/// by one of them.
pub open spec fn watched(before: PlayerCharacter, after: PlayerCharacter) -> bool {
    after == before || exists|id: NpcId| engaged(before, after, id)
}

/// A character after it decided what to do: it may look elsewhere, it may
/// have an origin now, and steps may wait behind those that waited.
pub open spec fn decided(before: Npc, after: Npc) -> bool {
    &&& after == (Npc { character: after.character, origin: after.origin, ..before })
    &&& after.character == (Character {
        position: Position {
            direction: after.character.position.direction,
            ..before.character.position
        },
        pathing: after.character.pathing,
        ..before.character
    })
    &&& after.character.pathing.turn == before.character.pathing.turn
    &&& before.character.pathing.queue@.is_prefix_of(after.character.pathing.queue@)
    &&& before.origin.is_some() ==> after.origin == before.origin
}

/// What stays true of a character through what it does when left alone:
/// only a trainer engages the player, and a character that kept to its
/// rectangle still does, unless it has set out for the player.
pub open spec fn kept(before: Npc, after: Npc, end: Deciding) -> bool {
    &&& end.engaged ==> before.trainer.is_some()
    &&& before.patrolling() && !end.engaged ==> after.patrolling()
}

/// A character after a frame: time went by for it, and then, where the
/// characters decide in this frame, it may have decided what to do.
pub open spec fn npc_ticked(before: Npc, after: Npc, delta: u32, decides: bool) -> bool {
    &&& after == (Npc { character: after.character, origin: after.origin, ..before })
    &&& after.character == (Character {
        position: after.character.position,
        pathing: after.character.pathing,
        offset: before.character.moved(delta).2,
        ..before.character
    })
    &&& after.character.position.coords == before.character.moved(delta).0.coords
    &&& after.character.position.elevation == before.character.position.elevation
    &&& after.character.pathing.turn == before.character.pathing.turn
    &&& before.character.moved(delta).1.is_prefix_of(after.character.pathing.queue@)
    &&& before.origin.is_some() ==> after.origin == before.origin
    &&& before.patrolling() && before.trainer.is_none() ==> after.patrolling()
    &&& !decides ==> after.origin == before.origin && went_by(
        before.character,
        after.character,
        delta,
    )
}

/// The countdown to the next decision after `delta` microseconds: it runs
/// down while it is above zero, and starts again with a full period when it
/// is not.
pub open spec fn timer_after(timer: i64, delta: u32) -> int {
    if timer > 0 {
        timer - delta
    } else {
        timer + NPC_DECISION_PERIOD
    }
}

/// The character keeps to its rectangle, and no step waits unless the
/// rectangle is among the first `j` things that it does.
pub open spec fn patrol_mid(npc: Npc, j: int) -> bool {
    &&& npc.patrolling()
    &&& npc.character.pathing.queue@.len() == 0 || exists|k: int|
        0 <= k < j && k < npc.movement@.len() && #[trigger] npc.movement@[k] is Move
}

/// What a character does in one of the things it does.
enum Decision {
    Look(Option<Direction>),
    Move(Coordinate),
}

/// How far a character has come with what it does when left alone: where
/// it looks, its origin, the steps that wait for it, and whether it has
/// engaged the player.
pub struct Deciding {
    pub direction: Direction,
    pub origin: Option<Coordinate>,
    pub queue: Seq<Direction>,
    pub engaged: bool,
}

/// A character before it does anything.
pub open spec fn begins(npc: Npc) -> Deciding {
    Deciding {
        direction: npc.character.position.direction,
        origin: npc.origin,
        queue: npc.character.pathing.queue@,
        engaged: false,
    }
}

/// What one of the things that a character does makes of it, on `map` and
/// with `player` as they were before the character did anything.
///
/// To look: the character looks where `choice` says, if it says anything;
/// then, as a trainer that has not yet engaged the player, it looks out for
/// the player, and where it challenges the player it sets out for it and
/// has engaged it. To move: where the character stands becomes its origin
/// if it has none; and where the tile ahead lies within the area around the
/// origin and admits the character, the step ahead waits for it.
pub open spec fn does(
    map: WorldMap,
    npc: Npc,
    player: PlayerCharacter,
    state: Deciding,
    entry: NpcMovement,
    choice: Option<Direction>,
) -> Deciding {
    let position = npc.character.position;
    match entry {
        NpcMovement::Look(_) => {
            let direction = match choice {
                Some(direction) => direction,
                None => state.direction,
            };
            let sight = if npc.trainer.is_some() && !state.engaged {
                player.challenged_by(
                    map.id,
                    npc.id,
                    npc.trainer.unwrap(),
                    Position { direction, ..position },
                )
            } else {
                None
            };
            match sight {
                Some(distance) => Deciding {
                    direction,
                    origin: state.origin,
                    queue: state.queue + Seq::new((distance - 1) as nat, |i: int| direction),
                    engaged: true,
                },
                None => Deciding { direction, ..state },
            }
        },
        NpcMovement::Move(area) => {
            let anchor = match state.origin {
                Some(origin) => origin,
                None => position.coords,
            };
            let next = position.coords.step(state.direction);
            let code = map.spec_local_movement(next);
            let steps = crate::positions::BoundingBox::spec_centered(anchor, area).spec_contains(
                next,
            ) && code.is_some() && spec_can_move(position.elevation, code.unwrap());
            Deciding {
                origin: Some(anchor),
                queue: if steps {
                    state.queue.push(state.direction)
                } else {
                    state.queue
                },
                ..state
            }
        },
    }
}

/// What the first `j` things that a character does make of it, with the
/// choices that it made where to look.
pub open spec fn done(
    map: WorldMap,
    npc: Npc,
    player: PlayerCharacter,
    choices: Seq<Option<Direction>>,
    j: int,
) -> Deciding
    decreases j,
{
    if j <= 0 {
        begins(npc)
    } else {
        does(
            map,
            npc,
            player,
            done(map, npc, player, choices, j - 1),
            npc.movement@[j - 1],
            choices[j - 1],
        )
    }
}

/// Whether `choices` are choices that a character can make, one for each
/// thing it does: where it looks, one of the directions it may look in,
/// and none exactly where there is no such direction; where it moves,
/// none.
pub open spec fn can_choose(npc: Npc, choices: Seq<Option<Direction>>) -> bool {
    &&& choices.len() == npc.movement@.len()
    &&& forall|j: int|
        0 <= j < choices.len() ==> match npc.movement@[j] {
            NpcMovement::Look(directions) => ((#[trigger] choices[j]).is_none()
                <==> directions@.len() == 0) && (choices[j].is_some() ==> directions@.contains(
                choices[j].unwrap(),
            )),
            NpcMovement::Move(_) => choices[j].is_none(),
        }
}

/// Whether the character at `index` and the player are what all that the
/// character does, with these choices, makes of them.
pub open spec fn acted(
    map: WorldMap,
    map_after: WorldMap,
    player: PlayerCharacter,
    player_after: PlayerCharacter,
    index: int,
    choices: Seq<Option<Direction>>,
) -> bool {
    let npc = map.npcs@[index];
    let after = map_after.npcs@[index];
    let end = done(map, npc, player, choices, npc.movement@.len() as int);
    &&& after == (Npc {
        character: Character {
            position: Position { direction: end.direction, ..npc.character.position },
            pathing: after.character.pathing,
            ..npc.character
        },
        origin: end.origin,
        ..npc
    })
    &&& after.character.pathing.turn == npc.character.pathing.turn
    &&& after.character.pathing.queue@ == end.queue
    &&& if end.engaged {
        engaged(player, player_after, npc.id)
    } else {
        player_after == player
    }
}

/// What a character has done so far does not depend on the choices that
/// are still to come.
pub proof fn lemma_done_so_far(
    map: WorldMap,
    npc: Npc,
    player: PlayerCharacter,
    choices: Seq<Option<Direction>>,
    more: Seq<Option<Direction>>,
    j: int,
)
    requires
        0 <= j <= choices.len() <= more.len(),
        forall|k: int| 0 <= k < choices.len() ==> more[k] == choices[k],
    ensures
        done(map, npc, player, more, j) == done(map, npc, player, choices, j),
    decreases j,
{
    if j > 0 {
        lemma_done_so_far(map, npc, player, choices, more, j - 1);
    }
}

/// Where the characters of a map stand decides alone which of its tiles
/// they block: a map on which they only turned, set out or got an origin
/// has the same movement codes.
pub proof fn lemma_same_codes(map: WorldMap, other: WorldMap, coords: Coordinate)
    requires
        other == (WorldMap { npcs: other.npcs, ..map }),
        other.npcs@.len() == map.npcs@.len(),
        forall|k: int|
            0 <= k < map.npcs@.len() ==> (#[trigger] other.npcs@[k]).character.position.coords
                == map.npcs@[k].character.position.coords,
    ensures
        other.spec_local_movement(coords) == map.spec_local_movement(coords),
{
    if map.occupied(coords) {
        let k = choose|k: int|
            0 <= k < map.npcs@.len() && (#[trigger] map.npcs@[k]).character.position.coords
                == coords;
        assert(other.npcs@[k].character.position.coords == coords);
    }
    if other.occupied(coords) {
        let k = choose|k: int|
            0 <= k < other.npcs@.len() && (#[trigger] other.npcs@[k]).character.position.coords
                == coords;
        assert(map.npcs@[k].character.position.coords == coords);
    }
}

/// Whether the character and the player are, in the middle of what the
/// character does, what `state` says.
pub open spec fn deciding(
    start: Npc,
    now: Npc,
    player: PlayerCharacter,
    player_now: PlayerCharacter,
    state: Deciding,
) -> bool {
    &&& now.character.position.direction == state.direction
    &&& now.origin == state.origin
    &&& now.character.pathing.queue@ == state.queue
    &&& if state.engaged {
        engaged(player, player_now, start.id)
    } else {
        player_now == player
    }
}

/// Lets the character at `index` do each of the things that it does when
/// left alone, in their order: it looks where the draw says, and as a
/// trainer looks out for the player; it takes a step within its rectangle
/// where the tile ahead admits it. The draws are choices that the character
/// can make, and the character and the player are what all that the
/// character does, with these choices, makes of them.
pub fn decide(
    map: &mut WorldMap,
    index: usize,
    player: &mut PlayerCharacter,
    randoms: &mut WorldRandoms,
)
    requires
        index < old(map).npcs@.len(),
        old(map).npcs@[index as int].character.pathing.queue@.len() == 0,
    ensures
        *final(map) == (WorldMap { npcs: final(map).npcs, ..*old(map) }),
        final(map).npcs@.len() == old(map).npcs@.len(),
        forall|k: int|
            0 <= k < old(map).npcs@.len() && k != index ==> #[trigger] final(map).npcs@[k] == old(
                map,
            ).npcs@[k],
        exists|choices: Seq<Option<Direction>>|
            can_choose(old(map).npcs@[index as int], choices) && #[trigger] acted(
                *old(map),
                *final(map),
                *old(player),
                *final(player),
                index as int,
                choices,
            ) && kept(
                old(map).npcs@[index as int],
                final(map).npcs@[index as int],
                done(
                    *old(map),
                    old(map).npcs@[index as int],
                    *old(player),
                    choices,
                    old(map).npcs@[index as int].movement@.len() as int,
                ),
            ),
        decided(old(map).npcs@[index as int], final(map).npcs@[index as int]),
        watched(*old(player), *final(player)),
{
    let ghost start = map.npcs@[index as int];
    let ghost choices: Seq<Option<Direction>> = Seq::empty();
    let id: Location = map.id;
    let count: usize = map.npcs[index].movement.len();
    let mut j: usize = 0;
    while j < count
        invariant
            j <= count,
            index < map.npcs@.len(),
            id == old(map).id,
            start == old(map).npcs@[index as int],
            count == start.movement@.len(),
            *map == (WorldMap { npcs: map.npcs, ..*old(map) }),
            map.npcs@.len() == old(map).npcs@.len(),
            forall|k: int|
                0 <= k < old(map).npcs@.len() && k != index ==> #[trigger] map.npcs@[k] == old(
                    map,
                ).npcs@[k],
            decided(start, map.npcs@[index as int]),
            done(*old(map), start, *old(player), choices, j as int).engaged
                ==> start.trainer.is_some(),
            start.patrolling() && !done(*old(map), start, *old(player), choices, j as int).engaged
                ==> patrol_mid(map.npcs@[index as int], j as int),
            watched(*old(player), *player),
            choices.len() == j,
            forall|k: int|
                0 <= k < j ==> match start.movement@[k] {
                    NpcMovement::Look(directions) => ((#[trigger] choices[k]).is_none()
                        <==> directions@.len() == 0) && (choices[k].is_some()
                        ==> directions@.contains(choices[k].unwrap())),
                    NpcMovement::Move(_) => choices[k].is_none(),
                },
            deciding(
                start,
                map.npcs@[index as int],
                *old(player),
                *player,
                done(*old(map), start, *old(player), choices, j as int),
            ),
        decreases count - j,
    {
        let ghost before = map.npcs@[index as int];
        let ghost seen = *player;
        let ghost state = done(*old(map), start, *old(player), choices, j as int);
        let ghost entry = start.movement@[j as int];
        assert(before.movement == start.movement);
        let decision = match &map.npcs[index].movement[j] {
            NpcMovement::Look(directions) => Decision::Look(randoms.npc_look(directions)),
            NpcMovement::Move(area) => Decision::Move(*area),
        };
        let ghost choice = match decision {
            Decision::Look(choice) => choice,
            Decision::Move(_) => None,
        };
        let ghost grown = choices.push(choice);
        proof {
            lemma_done_so_far(*old(map), start, *old(player), choices, grown, j as int);
            assert(grown[j as int] == choice);
        }
        match decision {
            Decision::Look(choice) => {
                map.npcs[index].look(choice);
                let ghost looked = map.npcs@[index as int];
                let found = challenge(player, &id, &mut map.npcs[index]);
                proof {
                    let after = map.npcs@[index as int];
                    if start.patrolling() && !state.engaged && !found {
                        assert(after == before.after_look(choice));
                        lemma_patrol_look(before, choice, j as int);
                        assert(patrol_mid(after, j + 1));
                    }
                    if found {
                        assert(engaged(seen, *player, looked.id));
                        lemma_watched_once(*old(player), seen, *player, looked.id);
                    }
                    let next = does(*old(map), start, *old(player), state, entry, choice);
                    assert(looked.character.position == (Position {
                        direction: next.direction,
                        ..start.character.position
                    }));
                    if state.engaged {
                        assert(seen.world.npc_active.is_some());
                        assert(!found);
                    } else {
                        assert(seen == *old(player));
                    }
                    assert(after.character.pathing.queue@ =~= next.queue);
                    assert(deciding(start, after, *old(player), *player, next));
                }
            },
            Decision::Move(area) => {
                let next = map.npcs[index].character.position.forwards();
                let code = map.local_movement(next);
                proof {
                    lemma_same_codes(*old(map), *map, next);
                }
                map.npcs[index].try_step(area, code);
                proof {
                    let after = map.npcs@[index as int];
                    if start.patrolling() && !state.engaged {
                        lemma_patrol_step(before, after, area, code, j as int);
                    }
                    let end = does(*old(map), start, *old(player), state, entry, choice);
                    assert(deciding(start, after, *old(player), *player, end));
                }
            },
        }
        proof {
            choices = grown;
        }
        j += 1;
    }
    proof {
        assert(can_choose(start, choices));
        assert(acted(*old(map), *map, *old(player), *player, index as int, choices));
        assert(kept(
            start,
            map.npcs@[index as int],
            done(*old(map), start, *old(player), choices, count as int),
        ));
    }
}

/// Looking elsewhere leaves a character in its rectangle.
pub proof fn lemma_patrol_look(npc: Npc, choice: Option<Direction>, j: int)
    requires
        patrol_mid(npc, j),
    ensures
        patrol_mid(npc.after_look(choice), j + 1),
{
    let after = npc.after_look(choice);
    assert(after.movement == npc.movement);
    if npc.origin.is_some() {
        assert forall|i: int| 0 <= i < after.movement@.len() implies (
        #[trigger] after.movement@[i] matches NpcMovement::Move(area) ==> after.within(
            after.origin.unwrap(),
            area,
        )) by {
            if after.movement@[i] is Move {
                assert(npc.movement@[i] is Move);
                assert(npc.within(npc.origin.unwrap(), npc.movement@[i]->Move_0));
            }
        }
    }
    if npc.character.pathing.queue@.len() != 0 {
        let k = choose|k: int| 0 <= k < j && k < npc.movement@.len() && #[trigger] npc.movement@[k] is Move;
        assert(after.movement@[k] is Move);
    }
}

/// A step that a character takes within its rectangle leaves it in its
/// rectangle.
pub proof fn lemma_patrol_step(
    before: Npc,
    after: Npc,
    area: Coordinate,
    code: Option<MovementId>,
    j: int,
)
    requires
        patrol_mid(before, j),
        0 <= j < before.movement@.len(),
        before.movement@[j] == NpcMovement::Move(area),
        after == (Npc {
            origin: Some(before.anchor()),
            character: Character { pathing: after.character.pathing, ..before.character },
            ..before
        }),
        after.character.pathing.queue@ == if before.steps(area, code) {
            before.character.pathing.queue@.push(before.character.position.direction)
        } else {
            before.character.pathing.queue@
        },
    ensures
        patrol_mid(after, j + 1),
{
    assert(before.movement@[j] is Move);
    if before.character.pathing.queue@.len() != 0 {
        let k = choose|k: int| 0 <= k < j && k < before.movement@.len() && #[trigger] before.movement@[k] is Move;
        assert(k == j);
    }
    assert(before.character.pathing.queue@.len() == 0);
    assert(after.movement@[j] is Move);
    let origin = before.anchor();
    assert forall|i: int| 0 <= i < after.movement@.len() implies (
    #[trigger] after.movement@[i] matches NpcMovement::Move(a) ==> after.within(origin, a)) by {
        if after.movement@[i] is Move {
            assert(before.movement@[i] is Move);
            assert(i == j);
            if before.origin.is_some() {
                assert(before.within(origin, area));
            }
        }
    }
}

/// A player that was left as it was, or engaged, and is then engaged, was
/// left unchanged before: it is engaged only once.
pub proof fn lemma_watched_once(
    first: PlayerCharacter,
    second: PlayerCharacter,
    third: PlayerCharacter,
    id: NpcId,
)
    requires
        watched(first, second),
        engaged(second, third, id),
        second.world.npc_active.is_none(),
    ensures
        watched(first, third),
{
    if second != first {
        let other = choose|other: NpcId| engaged(first, second, other);
        assert(second.world.npc_active == Some(other));
    }
}

/// The characters of `mid` are those of `before` after `delta`
/// microseconds went by for each.
pub open spec fn went(before: WorldMap, mid: WorldMap, delta: u32) -> bool {
    &&& mid == (WorldMap { npcs: mid.npcs, ..before })
    &&& mid.npcs@.len() == before.npcs@.len()
    &&& forall|k: int|
        0 <= k < before.npcs@.len() ==> (#[trigger] mid.npcs@[k]) == (Npc {
            character: mid.npcs@[k].character,
            ..before.npcs@[k]
        }) && went_by(before.npcs@[k].character, mid.npcs@[k].character, delta)
}

/// Whether `after` is what the character `npc` of the map `mid` made of
/// itself when it did, with `choices`, what it does when left alone. It
/// saw the player as the characters before it had left it: as `armed`, or,
/// where `late` says so, as one of them had engaged it, which is how the
/// player still is afterwards. A character that engages the player found
/// it as `armed` and leaves it engaged with itself. A character that kept
/// to its rectangle and has not set out for the player keeps to it.
pub open spec fn turn_with(
    mid: WorldMap,
    npc: Npc,
    after: Npc,
    armed: PlayerCharacter,
    player_after: PlayerCharacter,
    choices: Seq<Option<Direction>>,
    late: bool,
) -> bool {
    let seen = if late {
        player_after
    } else {
        armed
    };
    let end = done(mid, npc, seen, choices, npc.movement@.len() as int);
    &&& can_choose(npc, choices)
    &&& watched(armed, seen)
    &&& after == (Npc {
        character: Character {
            position: Position { direction: end.direction, ..npc.character.position },
            pathing: after.character.pathing,
            ..npc.character
        },
        origin: end.origin,
        ..npc
    })
    &&& after.character.pathing.turn == npc.character.pathing.turn
    &&& after.character.pathing.queue@ == end.queue
    &&& end.engaged ==> !late && engaged(armed, player_after, npc.id)
    &&& kept(npc, after, end)
}

/// What a frame makes of a character for which time has gone by: nothing
/// more; or, in a frame in which the characters decide and where it stood
/// about, what it made of itself with some choices that it can make.
pub open spec fn npc_turn(
    mid: WorldMap,
    npc: Npc,
    after: Npc,
    armed: PlayerCharacter,
    player_after: PlayerCharacter,
    decides: bool,
) -> bool {
    after == npc || (decides && !npc.character.spec_moving() && exists|
        choices: Seq<Option<Direction>>,
        late: bool,
    | #[trigger]
        turn_with(mid, npc, after, armed, player_after, choices, late))
}

/// Whether the character engaged the player in its turn.
pub open spec fn engaged_by(
    mid: WorldMap,
    npc: Npc,
    after: Npc,
    armed: PlayerCharacter,
    player_after: PlayerCharacter,
) -> bool {
    !npc.character.spec_moving() && exists|choices: Seq<Option<Direction>>| #[trigger]
        turn_with(mid, npc, after, armed, player_after, choices, false) && done(
            mid,
            npc,
            armed,
            choices,
            npc.movement@.len() as int,
        ).engaged
}

/// What the turns of the characters of `mid` make of them and of the
/// player: each character is what its turn makes of it, and the player is
/// as it was, `armed`, unless one of the characters engaged it.
pub open spec fn turns(
    mid: WorldMap,
    after: WorldMap,
    armed: PlayerCharacter,
    player_after: PlayerCharacter,
    decides: bool,
) -> bool {
    &&& after.npcs@.len() == mid.npcs@.len()
    &&& forall|k: int|
        0 <= k < mid.npcs@.len() ==> npc_turn(
            mid,
            #[trigger] mid.npcs@[k],
            after.npcs@[k],
            armed,
            player_after,
            decides,
        )
    &&& watched(armed, player_after)
    &&& player_after != armed ==> decides && exists|k: int|
        0 <= k < mid.npcs@.len() && engaged_by(
            mid,
            #[trigger] mid.npcs@[k],
            after.npcs@[k],
            armed,
            player_after,
        )
}

/// The characters of a map after a frame, with the player as the frame
/// found it, `armed`, and as it left it. First time goes by for each
/// character; then, in a frame in which they decide, each that stands
/// about may take its turn, in the order of the map.
pub open spec fn npcs_ticked(
    before: WorldMap,
    after: WorldMap,
    armed: PlayerCharacter,
    player_after: PlayerCharacter,
    delta: u32,
    decides: bool,
) -> bool {
    &&& after == (WorldMap { npcs: after.npcs, ..before })
    &&& after.npcs@.len() == before.npcs@.len()
    &&& forall|k: int|
        0 <= k < before.npcs@.len() ==> npc_ticked(
            #[trigger] before.npcs@[k],
            after.npcs@[k],
            delta,
            decides,
        )
    &&& exists|mid: WorldMap| #[trigger]
        went(before, mid, delta) && turns(mid, after, armed, player_after, decides)
}

/// What a character does when left alone is the same on two maps that
/// differ only in where their characters look, in their origins, and in the
/// steps that wait for them.
pub proof fn lemma_done_same_map(
    map: WorldMap,
    other: WorldMap,
    npc: Npc,
    player: PlayerCharacter,
    choices: Seq<Option<Direction>>,
    j: int,
)
    requires
        other == (WorldMap { npcs: other.npcs, ..map }),
        other.npcs@.len() == map.npcs@.len(),
        forall|k: int|
            0 <= k < map.npcs@.len() ==> (#[trigger] other.npcs@[k]).character.position.coords
                == map.npcs@[k].character.position.coords,
    ensures
        done(other, npc, player, choices, j) == done(map, npc, player, choices, j),
    decreases j,
{
    if j > 0 {
        lemma_done_same_map(map, other, npc, player, choices, j - 1);
        let state = done(map, npc, player, choices, j - 1);
        lemma_same_codes(map, other, npc.character.position.coords.step(state.direction));
    }
}

/// A player that is engaged with someone is not engaged by a character
/// that does what it does when left alone.
pub proof fn lemma_engaged_needs_free(
    map: WorldMap,
    npc: Npc,
    player: PlayerCharacter,
    choices: Seq<Option<Direction>>,
    j: int,
)
    requires
        player.world.npc_active.is_some(),
    ensures
        !done(map, npc, player, choices, j).engaged,
    decreases j,
{
    if j > 0 {
        lemma_engaged_needs_free(map, npc, player, choices, j - 1);
    }
}

/// The turn of a character that found the player as it was holds good
/// however the player is left afterwards.
pub proof fn lemma_turn_holds(
    mid: WorldMap,
    npc: Npc,
    after: Npc,
    armed: PlayerCharacter,
    player_after: PlayerCharacter,
)
    requires
        npc_turn(mid, npc, after, armed, armed, true),
    ensures
        npc_turn(mid, npc, after, armed, player_after, true),
{
    if after != npc {
        let (choices, late) = choose|choices: Seq<Option<Direction>>, late: bool| #[trigger]
            turn_with(mid, npc, after, armed, armed, choices, late);
        let end = done(mid, npc, armed, choices, npc.movement@.len() as int);
        if end.engaged {
            assert(engaged(armed, armed, npc.id));
            lemma_engaged_needs_free(mid, npc, armed, choices, npc.movement@.len() as int);
        }
        assert(turn_with(mid, npc, after, armed, player_after, choices, false));
    }
}

/// Lets `delta` microseconds pass for the characters of a map on which the
/// player is. Each gets ahead with the step it is taking. Then, when the
/// countdown has run out, each character that stands about decides, one
/// time in twelve, to do what it does when left alone; else the countdown
/// runs on.
pub fn tick_npcs(
    map: &mut WorldMap,
    player: &mut PlayerCharacter,
    randoms: &mut WorldRandoms,
    delta: u32,
)
    ensures
        npcs_ticked(
            *old(map),
            *final(map),
            PlayerCharacter {
                world: PlayerWorld {
                    npc_timer: timer_after(old(player).world.npc_timer, delta) as i64,
                    ..old(player).world
                },
                ..*old(player)
            },
            *final(player),
            delta,
            old(player).world.npc_timer <= 0,
        ),
        watched(
            PlayerCharacter {
                world: PlayerWorld {
                    npc_timer: timer_after(old(player).world.npc_timer, delta) as i64,
                    ..old(player).world
                },
                ..*old(player)
            },
            *final(player),
        ),
{
    let ghost origin = *map;
    let count: usize = map.npcs.len();
    let mut i: usize = 0;
    while i < count
        invariant
            i <= count,
            origin == *old(map),
            count == origin.npcs@.len(),
            *map == (WorldMap { npcs: map.npcs, ..origin }),
            map.npcs@.len() == count,
            forall|k: int|
                0 <= k < i ==> (#[trigger] map.npcs@[k]) == (Npc {
                    character: map.npcs@[k].character,
                    ..origin.npcs@[k]
                }) && went_by(origin.npcs@[k].character, map.npcs@[k].character, delta),
            forall|k: int| i <= k < count ==> #[trigger] map.npcs@[k] == origin.npcs@[k],
        decreases count - i,
    {
        map.npcs[i].character.do_move(delta);
        i += 1;
    }
    let ghost mid = *map;
    proof {
        assert forall|k: int| 0 <= k < count implies npc_ticked(
            #[trigger] origin.npcs@[k],
            mid.npcs@[k],
            delta,
            false,
        ) by {
            if origin.npcs@[k].patrolling() {
                lemma_patrol_went_by(origin.npcs@[k], mid.npcs@[k], delta);
            }
        }
        assert(went(origin, mid, delta));
    }
    if player.world.npc_timer > 0 {
        player.world.npc_timer = player.world.npc_timer - delta as i64;
        proof {
            assert(turns(mid, *map, *player, *player, false));
        }
    } else {
        player.world.npc_timer = player.world.npc_timer + NPC_DECISION_PERIOD;
        let ghost armed = *player;
        let mut i: usize = 0;
        while i < count
            invariant
                i <= count,
                count == origin.npcs@.len(),
                mid.npcs@.len() == count,
                *map == (WorldMap { npcs: map.npcs, ..origin }),
                mid == (WorldMap { npcs: mid.npcs, ..origin }),
                map.npcs@.len() == count,
                forall|k: int|
                    0 <= k < count ==> npc_ticked(
                        #[trigger] origin.npcs@[k],
                        mid.npcs@[k],
                        delta,
                        false,
                    ),
                forall|k: int| 0 <= k < i ==> decided(#[trigger] mid.npcs@[k], map.npcs@[k]),
                forall|k: int| i <= k < count ==> #[trigger] map.npcs@[k] == mid.npcs@[k],
                forall|k: int|
                    0 <= k < i ==> npc_turn(
                        mid,
                        #[trigger] mid.npcs@[k],
                        map.npcs@[k],
                        armed,
                        *player,
                        true,
                    ),
                watched(armed, *player),
                *player != armed ==> exists|k: int|
                    0 <= k < i && engaged_by(
                        mid,
                        #[trigger] mid.npcs@[k],
                        map.npcs@[k],
                        armed,
                        *player,
                    ),
            decreases count - i,
        {
            let ghost seen = *player;
            let ghost round = *map;
            if !map.npcs[i].character.moving() && randoms.npc_acts() {
                decide(map, i, player, randoms);
                proof {
                    let npc = mid.npcs@[i as int];
                    let after = map.npcs@[i as int];
                    let turns_made = npc.movement@.len() as int;
                    let choices = choose|choices: Seq<Option<Direction>>|
                        can_choose(npc, choices) && #[trigger] acted(
                            round,
                            *map,
                            seen,
                            *player,
                            i as int,
                            choices,
                        ) && kept(npc, after, done(round, npc, seen, choices, turns_made));
                    assert forall|k: int| 0 <= k < count implies (
                    #[trigger] round.npcs@[k]).character.position.coords
                        == mid.npcs@[k].character.position.coords by {
                        if k < i {
                            assert(decided(mid.npcs@[k], round.npcs@[k]));
                        }
                    }
                    lemma_done_same_map(mid, round, npc, seen, choices, turns_made);
                    let end = done(mid, npc, seen, choices, turns_made);
                    if seen == armed {
                        assert(turn_with(mid, npc, after, armed, *player, choices, false));
                        if *player != seen {
                            assert(end.engaged);
                            assert(engaged_by(mid, npc, after, armed, *player));
                            assert forall|k: int| 0 <= k < i implies npc_turn(
                                mid,
                                #[trigger] mid.npcs@[k],
                                map.npcs@[k],
                                armed,
                                *player,
                                true,
                            ) by {
                                assert(map.npcs@[k] == round.npcs@[k]);
                                lemma_turn_holds(
                                    mid,
                                    mid.npcs@[k],
                                    round.npcs@[k],
                                    armed,
                                    *player,
                                );
                            }
                        }
                    } else {
                        let other = choose|other: NpcId| engaged(armed, seen, other);
                        lemma_engaged_needs_free(mid, npc, seen, choices, turns_made);
                        assert(*player == seen);
                        assert(turn_with(mid, npc, after, armed, *player, choices, true));
                        let first = choose|k: int|
                            0 <= k < i && engaged_by(
                                mid,
                                #[trigger] mid.npcs@[k],
                                round.npcs@[k],
                                armed,
                                seen,
                            );
                        assert(map.npcs@[first] == round.npcs@[first]);
                        assert(engaged_by(
                            mid,
                            mid.npcs@[first],
                            map.npcs@[first],
                            armed,
                            *player,
                        ));
                    }
                    assert(npc_turn(mid, npc, after, armed, *player, true));
                    assert forall|k: int| 0 <= k < i + 1 implies npc_turn(
                        mid,
                        #[trigger] mid.npcs@[k],
                        map.npcs@[k],
                        armed,
                        *player,
                        true,
                    ) by {
                        if k < i {
                            assert(map.npcs@[k] == round.npcs@[k]);
                        }
                    }
                }
            }
            i += 1;
        }
        proof {
            assert forall|k: int| 0 <= k < count implies npc_ticked(
                #[trigger] origin.npcs@[k],
                map.npcs@[k],
                delta,
                true,
            ) by {
                assert(npc_ticked(origin.npcs@[k], mid.npcs@[k], delta, false));
                assert(decided(mid.npcs@[k], map.npcs@[k]));
                if origin.npcs@[k].patrolling() && origin.npcs@[k].trainer.is_none() {
                    lemma_turn_keeps_patrol(
                        mid,
                        mid.npcs@[k],
                        map.npcs@[k],
                        armed,
                        *player,
                    );
                }
            }
            assert(turns(mid, *map, armed, *player, true));
        }
    }
}

/// A character that kept to its rectangle keeps to it through its turn,
/// unless it engaged the player; and only a trainer does that.
pub proof fn lemma_turn_keeps_patrol(
    mid: WorldMap,
    npc: Npc,
    after: Npc,
    armed: PlayerCharacter,
    player_after: PlayerCharacter,
)
    requires
        npc_turn(mid, npc, after, armed, player_after, true),
        npc.patrolling(),
        npc.trainer.is_none() || player_after.world.npc_active != Some(npc.id),
    ensures
        after.patrolling(),
{
    if after != npc {
        let (choices, late) = choose|choices: Seq<Option<Direction>>, late: bool| #[trigger]
            turn_with(mid, npc, after, armed, player_after, choices, late);
    }
}

/// The rectangle holds through a frame for every character that has not
/// set out for the player in it: a character of the player's map that kept
/// to its rectangle before the frame keeps to it afterwards, unless it is
/// the one that the player is engaged with.
pub proof fn lemma_patrol_frame(
    before: WorldMap,
    after: WorldMap,
    armed: PlayerCharacter,
    player_after: PlayerCharacter,
    delta: u32,
    decides: bool,
    k: int,
)
    requires
        npcs_ticked(before, after, armed, player_after, delta, decides),
        0 <= k < before.npcs@.len(),
        before.npcs@[k].patrolling(),
        player_after.world.npc_active != Some(before.npcs@[k].id),
    ensures
        after.npcs@[k].patrolling(),
        before.npcs@[k].origin.is_some() ==> after.npcs@[k].origin == before.npcs@[k].origin,
{
    let mid = choose|mid: WorldMap| #[trigger]
        went(before, mid, delta) && turns(mid, after, armed, player_after, decides);
    lemma_patrol_went_by(before.npcs@[k], mid.npcs@[k], delta);
    assert(npc_turn(mid, mid.npcs@[k], after.npcs@[k], armed, player_after, decides));
    assert(npc_ticked(before.npcs@[k], after.npcs@[k], delta, decides));
    if decides {
        lemma_turn_keeps_patrol(mid, mid.npcs@[k], after.npcs@[k], armed, player_after);
    }
}

impl WorldMapManager {
    /// Lets `delta` microseconds pass for the characters of the player's
    /// map, if the map is known.
    pub fn move_npcs(&mut self, player: &mut PlayerCharacter, delta: u32)
        ensures
            final(self).data.tiles == old(self).data.tiles,
            final(self).data.npcs == old(self).data.npcs,
            final(self).data.wild == old(self).data.wild,
            final(self).data.spawn == old(self).data.spawn,
            final(self).actions == old(self).actions,
            npcs_moved(
                old(self).data.maps@,
                final(self).data.maps@,
                *old(player),
                *final(player),
                delta,
            ),
    {
        if let Some(map) = self.data.maps.get_mut(&player.location) {
            tick_npcs(map, player, &mut self.randoms, delta);
        }
    }
}

} // verus!

verus! {

/// What stays of a character whatever happens on its map: who it is, what
/// it does when left alone, whether it is a trainer, its origin once it has
/// one, and, as it is no trainer that may set out for the player, that it
/// keeps to its rectangle if it did.
pub open spec fn npc_kept(before: Npc, after: Npc) -> bool {
    &&& after.id == before.id
    &&& after.movement == before.movement
    &&& after.interact == before.interact
    &&& after.trainer == before.trainer
    &&& after.group == before.group
    &&& before.origin.is_some() ==> after.origin == before.origin
    &&& before.patrolling() && before.trainer.is_none() ==> after.patrolling()
}

/// What stays of a map whatever happens on it: everything but what its
/// characters do.
pub open spec fn map_kept(before: WorldMap, after: WorldMap) -> bool {
    &&& after == (WorldMap { npcs: after.npcs, ..before })
    &&& after.npcs@.len() == before.npcs@.len()
    &&& forall|k: int|
        0 <= k < before.npcs@.len() ==> npc_kept(#[trigger] before.npcs@[k], after.npcs@[k])
}

/// What stays of the maps of a world while the player is on the map at
/// `location`: the same maps are known, every other map is as it was, and
/// the player's map is kept.
pub open spec fn maps_kept(
    before: Map<Location, WorldMap>,
    after: Map<Location, WorldMap>,
    location: Location,
) -> bool {
    &&& forall|k: Location| after.contains_key(k) <==> before.contains_key(k)
    &&& forall|k: Location| before.contains_key(k) && k != location ==> after[k] == before[k]
    &&& before.contains_key(location) ==> map_kept(before[location], after[location])
}

pub proof fn lemma_map_kept_refl(map: WorldMap)
    ensures
        map_kept(map, map),
{
}

pub proof fn lemma_map_kept_trans(a: WorldMap, b: WorldMap, c: WorldMap)
    requires
        map_kept(a, b),
        map_kept(b, c),
    ensures
        map_kept(a, c),
{
    assert forall|k: int| 0 <= k < a.npcs@.len() implies npc_kept(
        #[trigger] a.npcs@[k],
        c.npcs@[k],
    ) by {
        assert(npc_kept(a.npcs@[k], b.npcs@[k]));
        assert(npc_kept(b.npcs@[k], c.npcs@[k]));
    }
}

pub proof fn lemma_maps_kept_trans(
    a: Map<Location, WorldMap>,
    b: Map<Location, WorldMap>,
    c: Map<Location, WorldMap>,
    location: Location,
)
    requires
        maps_kept(a, b, location),
        maps_kept(b, c, location),
    ensures
        maps_kept(a, c, location),
{
    if a.contains_key(location) {
        lemma_map_kept_trans(a[location], b[location], c[location]);
    }
}

/// A map on which the trainers looked out for the player is kept: only a
/// trainer set out.
pub proof fn lemma_looked_out_kept(
    before: WorldMap,
    after: WorldMap,
    player: PlayerCharacter,
    then: PlayerCharacter,
)
    requires
        looked_out(before, after, player, then),
    ensures
        map_kept(before, after),
        forall|k: int|
            0 <= k < before.npcs@.len() && before.npcs@[k].trainer.is_none()
                ==> #[trigger] after.npcs@[k] == before.npcs@[k],
{
    let first = first_challenger(before, player, 0);
    lemma_first_challenger(before, player, 0);
    assert forall|k: int| 0 <= k < before.npcs@.len() implies npc_kept(
        #[trigger] before.npcs@[k],
        after.npcs@[k],
    ) by {
        if first < before.npcs@.len() && k != first {
            assert(after.npcs@[k] == before.npcs@[k]);
        }
    }
}

/// The first challenger, where there is one, challenges the player.
pub proof fn lemma_first_challenger(map: WorldMap, player: PlayerCharacter, from: int)
    requires
        0 <= from,
    ensures
        from <= first_challenger(map, player, from) || first_challenger(map, player, from)
            == map.npcs@.len(),
        first_challenger(map, player, from) <= map.npcs@.len(),
        first_challenger(map, player, from) < map.npcs@.len() ==> challenges(
            map,
            player,
            first_challenger(map, player, from),
        ),
    decreases map.npcs@.len() - from,
{
    if from < map.npcs@.len() && !challenges(map, player, from) {
        lemma_first_challenger(map, player, from + 1);
    }
}

/// A map whose characters lived through a frame is kept.
pub proof fn lemma_ticked_kept(
    before: WorldMap,
    after: WorldMap,
    armed: PlayerCharacter,
    player_after: PlayerCharacter,
    delta: u32,
    decides: bool,
)
    requires
        npcs_ticked(before, after, armed, player_after, delta, decides),
    ensures
        map_kept(before, after),
        forall|k: int|
            0 <= k < before.npcs@.len() ==> (#[trigger] after.npcs@[k]).character.position.coords
                == before.npcs@[k].character.moved(delta).0.coords,
{
    assert forall|k: int| 0 <= k < before.npcs@.len() implies npc_kept(
        #[trigger] before.npcs@[k],
        after.npcs@[k],
    ) && after.npcs@[k].character.position.coords == before.npcs@[k].character.moved(
        delta,
    ).0.coords by {
        assert(npc_ticked(before.npcs@[k], after.npcs@[k], delta, decides));
    }
}

impl WorldMapManager {
    /// Tells that the player has arrived on another map: asks for the
    /// music of the map, and tells that the player stands on a tile.
    pub fn on_warp(&mut self, player: &mut PlayerCharacter)
        ensures
            final(self).data.tiles == old(self).data.tiles,
            final(self).data.npcs == old(self).data.npcs,
            final(self).data.wild == old(self).data.wild,
            final(self).data.spawn == old(self).data.spawn,
            tile_actions(
                old(self).actions@ + music_of(old(self).data.maps@, old(player).location),
                final(self).actions@,
                old(self).data.maps@,
                old(self).data.tiles@,
                old(self).data.wild,
                *old(player),
            ),
            if old(self).data.maps@.contains_key(old(player).location) {
                &&& final(self).data.maps@.contains_key(old(player).location)
                &&& final(self).data.maps@ == old(self).data.maps@.insert(
                    old(player).location,
                    final(self).data.maps@[old(player).location],
                )
                &&& looked_out(
                    old(self).data.maps@[old(player).location],
                    final(self).data.maps@[old(player).location],
                    *old(player),
                    *final(player),
                )
            } else {
                final(self).data.maps@ == old(self).data.maps@ && *final(player) == *old(player)
            },
    {
        self.on_map_change(player);
        self.on_tile(player);
    }

    /// Lets `delta` microseconds of a frame pass: the player gets ahead
    /// with its step and, when the step is completed, arrives on its tile;
    /// the characters of its map get ahead and decide what to do; and the
    /// character that the player is engaged with goes on.
    ///
    /// The frame passes through these steps one after the other, each as
    /// its own function says. Whatever is drawn on the way: the same maps
    /// are known afterwards, every map but the player's is as it was, the
    /// characters of the player's map are who they were and keep to their
    /// rectangles, those that are no trainers stand where their step has
    /// brought them, the player is on its map where its step has brought
    /// it, and the actions asked for before still wait in front of the new
    /// ones.
    pub fn update(&mut self, player: &mut PlayerCharacter, delta: u32)
        ensures
            final(self).data.tiles == old(self).data.tiles,
            final(self).data.npcs == old(self).data.npcs,
            final(self).data.wild == old(self).data.wild,
            final(self).data.spawn == old(self).data.spawn,
            maps_kept(old(self).data.maps@, final(self).data.maps@, old(player).location),
            old(self).data.maps@.contains_key(old(player).location) ==> forall|k: int|
                0 <= k < old(self).data.maps@[old(player).location].npcs@.len() && old(
                    self,
                ).data.maps@[old(player).location].npcs@[k].trainer.is_none() ==> (
                #[trigger] final(self).data.maps@[old(player).location].npcs@[k]).character.position.coords
                    == old(self).data.maps@[old(player).location].npcs@[k].character.moved(
                    delta,
                ).0.coords,
            old(self).actions@.len() <= final(self).actions@.len(),
            final(self).actions@.subrange(0, old(self).actions@.len() as int) == old(self).actions@,
            final(player).location == old(player).location,
            final(player).character.position.coords == old(player).character.moved(delta).0.coords,
            frame_passed(
                old(self).data.maps@,
                final(self).data.maps@,
                old(self).data.tiles@,
                old(self).data.npcs@,
                old(self).data.wild,
                old(self).actions@,
                final(self).actions@,
                *old(player),
                *final(player),
                delta,
            ),
    {
        let ghost location = player.location;
        let ghost maps0 = self.data.maps@;
        let ghost actions0 = self.actions@;
        let completed = player.character.do_move(delta);
        let ghost ahead = *player;
        if completed {
            self.stop_player(player);
        } else {
            proof {
                if maps0.contains_key(location) {
                    lemma_map_kept_refl(maps0[location]);
                }
            }
            assert(self.actions@.subrange(0, old(self).actions@.len() as int) =~= old(
                self,
            ).actions@);
        }
        let ghost maps1 = self.data.maps@;
        let ghost actions1 = self.actions@;
        let ghost timer = player.world.npc_timer;
        let ghost arrived = *player;
        self.move_npcs(player, delta);
        let ghost maps2 = self.data.maps@;
        let ghost ticked = *player;
        proof {
            if maps1.contains_key(location) {
                lemma_ticked_kept(
                    maps1[location],
                    maps2[location],
                    PlayerCharacter {
                        world: PlayerWorld {
                            npc_timer: timer_after(timer, delta) as i64,
                            ..arrived.world
                        },
                        ..arrived
                    },
                    ticked,
                    delta,
                    timer <= 0,
                );
                assert forall|k: int|
                    0 <= k < maps0[location].npcs@.len() && maps0[location].npcs@[k].trainer.is_none() implies (
                #[trigger] maps2[location].npcs@[k]).character.position.coords
                    == maps0[location].npcs@[k].character.moved(delta).0.coords by {
                    assert(maps1[location].npcs@[k] == maps0[location].npcs@[k]);
                }
            }
            assert(maps_kept(maps1, maps2, location));
            lemma_maps_kept_trans(maps0, maps1, maps2, location);
        }
        self.update_interactions(player);
        proof {
            assert(passed_by(
                maps0,
                maps1,
                maps2,
                old(self).data.tiles@,
                old(self).data.npcs@,
                old(self).data.wild,
                actions0,
                actions1,
                self.actions@,
                *old(player),
                ahead,
                arrived,
                ticked,
                *player,
                delta,
            ));
            assert(self.actions@.subrange(0, old(self).actions@.len() as int) =~= old(
                self,
            ).actions@) by {
                assert(self.actions@.subrange(0, actions1.len() as int) == actions1);
                assert forall|i: int| 0 <= i < old(self).actions@.len() implies self.actions@[i]
                    == old(self).actions@[i] by {
                    assert(self.actions@.subrange(0, actions1.len() as int)[i] == self.actions@[i]);
                    assert(actions1.subrange(0, old(self).actions@.len() as int)[i] == actions1[i]);
                }
            }
        }
    }
}

} // verus!

verus! {

/// Whether every connection of `edge` leads to a known map.
pub open spec fn edge_known(maps: Map<Location, WorldMap>, edge: Option<Vec<Connection>>) -> bool {
    edge is Some ==> forall|i: int|
        0 <= i < edge.unwrap()@.len() ==> maps.contains_key((#[trigger] edge.unwrap()@[i]).0)
}

/// Whether the edges of `map` lead only to known maps.
pub open spec fn connected(maps: Map<Location, WorldMap>, map: WorldMap) -> bool {
    map.chunk is Some ==> {
        &&& edge_known(maps, map.chunk.unwrap().up)
        &&& edge_known(maps, map.chunk.unwrap().down)
        &&& edge_known(maps, map.chunk.unwrap().left)
        &&& edge_known(maps, map.chunk.unwrap().right)
    }
}

impl WorldMapData {
    fn knows_edge(&self, edge: &Option<Vec<Connection>>) -> (r: bool)
        ensures
            r == edge_known(self.maps@, *edge),
    {
        match edge {
            Some(list) => {
                let mut i: usize = 0;
                while i < list.len()
                    invariant
                        i <= list@.len(),
                        *edge == Some(*list),
                        forall|j: int|
                            0 <= j < i ==> self.maps@.contains_key((#[trigger] list@[j]).0),
                    decreases list@.len() - i,
                {
                    if !self.maps.contains_key(&list[i].0) {
                        assert(!self.maps@.contains_key(edge.unwrap()@[i as int].0));
                        return false;
                    }
                    i += 1;
                }
                true
            },
            None => true,
        }
    }

    /// Checks that the edges of `map` lead only to maps of this world.
    pub fn links_known(&self, map: &WorldMap) -> (r: bool)
        ensures
            r == connected(self.maps@, *map),
    {
        match map.chunk.as_ref() {
            Some(chunk) => self.knows_edge(&chunk.up) && self.knows_edge(&chunk.down)
                && self.knows_edge(&chunk.left) && self.knows_edge(&chunk.right),
            None => true,
        }
    }
}

} // verus!

verus! {

/// Whether `list` holds the connection to `location` at `offset`.
pub open spec fn holds_link(list: Seq<Connection>, location: Location, offset: CoordinateInt) -> bool {
    exists|i: int| 0 <= i < list.len() && #[trigger] list[i] == Connection(location, offset)
}

/// Whether the map behind `connection`, which is reached from `from` over
/// the edge in `direction`, leads back over its opposite edge, at the
/// opposite offset.
pub open spec fn leads_back(
    maps: Map<Location, WorldMap>,
    from: Location,
    direction: Direction,
    connection: Connection,
) -> bool {
    &&& maps.contains_key(connection.0)
    &&& maps[connection.0].chunk is Some
    &&& maps[connection.0].chunk.unwrap().spec_get(direction.spec_inverse()) is Some
    &&& holds_link(
        maps[connection.0].chunk.unwrap().spec_get(direction.spec_inverse()).unwrap()@,
        from,
        0i32.wrapping_sub(connection.1),
    )
}

/// Whether every connection of the edge of `map` in `direction` is
/// answered by its neighbour.
pub open spec fn edge_mutual(maps: Map<Location, WorldMap>, map: WorldMap, direction: Direction) -> bool {
    map.chunk is Some && map.chunk.unwrap().spec_get(direction) is Some ==> forall|i: int|
        0 <= i < map.chunk.unwrap().spec_get(direction).unwrap()@.len() ==> leads_back(
            maps,
            map.id,
            direction,
            #[trigger] map.chunk.unwrap().spec_get(direction).unwrap()@[i],
        )
}

/// Whether the neighbours of `map` agree with it about their edges: each
/// is known and leads back to the map.
pub open spec fn mutual(maps: Map<Location, WorldMap>, map: WorldMap) -> bool {
    &&& edge_mutual(maps, map, Direction::Up)
    &&& edge_mutual(maps, map, Direction::Down)
    &&& edge_mutual(maps, map, Direction::Left)
    &&& edge_mutual(maps, map, Direction::Right)
}

fn list_holds_link(list: &Vec<Connection>, location: Location, offset: CoordinateInt) -> (r: bool)
    ensures
        r == holds_link(list@, location, offset),
{
    let mut i: usize = 0;
    while i < list.len()
        invariant
            i <= list@.len(),
            forall|j: int| 0 <= j < i ==> #[trigger] list@[j] != Connection(location, offset),
        decreases list@.len() - i,
    {
        if list[i].0 == location && list[i].1 == offset {
            assert(list@[i as int] == Connection(location, offset));
            return true;
        }
        i += 1;
    }
    false
}

impl WorldMapData {
    fn link_leads_back(&self, from: Location, direction: Direction, connection: Connection) -> (r:
        bool)
        ensures
            r == leads_back(self.maps@, from, direction, connection),
    {
        match self.maps.get(&connection.0) {
            Some(neighbour) => match neighbour.chunk.as_ref() {
                Some(chunk) => match chunk.get(direction.inverse()) {
                    Some(list) => list_holds_link(list, from, 0i32.wrapping_sub(connection.1)),
                    None => false,
                },
                None => false,
            },
            None => false,
        }
    }

    fn edge_leads_back(&self, map: &WorldMap, direction: Direction) -> (r: bool)
        ensures
            r == edge_mutual(self.maps@, *map, direction),
    {
        let chunk = match map.chunk.as_ref() {
            Some(chunk) => chunk,
            None => {
                return true;
            },
        };
        let list = match chunk.get(direction) {
            Some(list) => list,
            None => {
                return true;
            },
        };
        let mut i: usize = 0;
        while i < list.len()
            invariant
                i <= list@.len(),
                map.chunk == Some(*chunk),
                chunk.spec_get(direction) == Some(*list),
                forall|j: int|
                    0 <= j < i ==> leads_back(self.maps@, map.id, direction, #[trigger] list@[j]),
            decreases list@.len() - i,
        {
            if !self.link_leads_back(map.id, direction, list[i]) {
                assert(!leads_back(
                    self.maps@,
                    map.id,
                    direction,
                    map.chunk.unwrap().spec_get(direction).unwrap()@[i as int],
                ));
                return false;
            }
            i += 1;
        }
        true
    }

    /// Checks that the neighbours of `map` agree with it about their
    /// edges.
    pub fn links_mutual(&self, map: &WorldMap) -> (r: bool)
        ensures
            r == mutual(self.maps@, *map),
    {
        self.edge_leads_back(map, Direction::Up) && self.edge_leads_back(map, Direction::Down)
            && self.edge_leads_back(map, Direction::Left) && self.edge_leads_back(
            map,
            Direction::Right,
        )
    }

    /// Takes a map into the world, under its own location, and hands back
    /// the map that stood there before.
    pub fn add_map(&mut self, map: WorldMap) -> (r: Option<WorldMap>)
        ensures
            final(self).maps@ == old(self).maps@.insert(map.id, map),
            final(self).tiles == old(self).tiles,
            final(self).npcs == old(self).npcs,
            final(self).wild == old(self).wild,
            final(self).spawn == old(self).spawn,
            match r {
                Some(before) => old(self).maps@.contains_key(map.id) && old(self).maps@[map.id]
                    == before,
                None => !old(self).maps@.contains_key(map.id),
            },
    {
        let id = map.id;
        self.maps.insert(id, map)
    }
}

} // verus!

verus! {

/// What telling the player that it stands on a tile does: the notice is
/// asked for, with at most one battle in the wild behind it, and the
/// trainers of the player's map look out for the player.
pub open spec fn told_tile(
    maps: Map<Location, WorldMap>,
    maps_after: Map<Location, WorldMap>,
    tiles: Seq<PaletteTileData>,
    chances: WildChances,
    actions: Seq<WorldAction>,
    actions_after: Seq<WorldAction>,
    before: PlayerCharacter,
    after: PlayerCharacter,
) -> bool {
    &&& tile_actions(actions, actions_after, maps, tiles, chances, before)
    &&& !wild_possible(maps, tiles, before) ==> actions_after == actions.push(WorldAction::OnTile)
    &&& if maps.contains_key(before.location) {
        &&& maps_after.contains_key(before.location)
        &&& maps_after == maps.insert(before.location, maps_after[before.location])
        &&& looked_out(maps[before.location], maps_after[before.location], before, after)
    } else {
        maps_after == maps && after == before
    }
}

/// What the end of a step of the player does: the step in progress is
/// over; then a warp zone under the player makes its warp wait, and
/// otherwise, on a tile of its map, the player is told that it stands on
/// it.
pub open spec fn stopped(
    maps: Map<Location, WorldMap>,
    maps_after: Map<Location, WorldMap>,
    tiles: Seq<PaletteTileData>,
    chances: WildChances,
    actions: Seq<WorldAction>,
    actions_after: Seq<WorldAction>,
    before: PlayerCharacter,
    after: PlayerCharacter,
) -> bool {
    let halted = PlayerCharacter {
        character: Character { offset: 0, ..before.character },
        ..before
    };
    let coords = before.character.position.coords;
    if maps.contains_key(before.location) && maps[before.location].spec_warp_at(coords).is_some() {
        &&& maps_after == maps
        &&& actions_after == actions
        &&& after == (PlayerCharacter {
            world: PlayerWorld {
                warp: maps[before.location].spec_warp_at(coords),
                ..halted.world
            },
            ..halted
        })
    } else if maps.contains_key(before.location) && maps[before.location].spec_in_bounds(coords) {
        told_tile(maps, maps_after, tiles, chances, actions, actions_after, halted, after)
    } else {
        maps_after == maps && actions_after == actions && after == halted
    }
}

/// What a frame does to the characters of the player's map and, through
/// them, to the player: on a known map, what `npcs_ticked` says, with the
/// player's countdown run on; on an unknown map, nothing.
pub open spec fn npcs_moved(
    maps: Map<Location, WorldMap>,
    maps_after: Map<Location, WorldMap>,
    before: PlayerCharacter,
    after: PlayerCharacter,
    delta: u32,
) -> bool {
    if maps.contains_key(before.location) {
        &&& maps_after.contains_key(before.location)
        &&& maps_after == maps.insert(before.location, maps_after[before.location])
        &&& npcs_ticked(
            maps[before.location],
            maps_after[before.location],
            PlayerCharacter {
                world: PlayerWorld {
                    npc_timer: timer_after(before.world.npc_timer, delta) as i64,
                    ..before.world
                },
                ..before
            },
            after,
            delta,
            before.world.npc_timer <= 0,
        )
        &&& watched(
            PlayerCharacter {
                world: PlayerWorld {
                    npc_timer: timer_after(before.world.npc_timer, delta) as i64,
                    ..before.world
                },
                ..before
            },
            after,
        )
    } else {
        maps_after == maps && after == before
    }
}

/// What a frame does, step by step: `ahead` is the player after it got
/// ahead with its step, `arrived` the player after the step, if it was
/// completed, had its end, `ticked` the player after the characters of its
/// map had their frame, and `after` the player after the character that it
/// is engaged with went on.
pub open spec fn passed_by(
    maps: Map<Location, WorldMap>,
    maps_arrived: Map<Location, WorldMap>,
    maps_after: Map<Location, WorldMap>,
    tiles: Seq<PaletteTileData>,
    groups: Map<NpcGroupId, NpcGroup>,
    chances: WildChances,
    actions: Seq<WorldAction>,
    actions_arrived: Seq<WorldAction>,
    actions_after: Seq<WorldAction>,
    before: PlayerCharacter,
    ahead: PlayerCharacter,
    arrived: PlayerCharacter,
    ticked: PlayerCharacter,
    after: PlayerCharacter,
    delta: u32,
) -> bool {
    &&& ahead == (PlayerCharacter { character: ahead.character, ..before })
    &&& went_by(before.character, ahead.character, delta)
    &&& if before.character.completes(delta) {
        stopped(maps, maps_arrived, tiles, chances, actions, actions_arrived, ahead, arrived)
    } else {
        maps_arrived == maps && actions_arrived == actions && arrived == ahead
    }
    &&& npcs_moved(maps_arrived, maps_after, arrived, ticked, delta)
    &&& player_after_interaction(
        maps_after,
        ticked,
        after,
        interaction(maps_after, groups, ticked),
    )
    &&& actions_arrived.len() <= actions_after.len()
    &&& actions_after.subrange(0, actions_arrived.len() as int) == actions_arrived
    &&& actions_of_interaction(
        maps_after,
        groups,
        ticked,
        interaction(maps_after, groups, ticked),
        actions_after.subrange(actions_arrived.len() as int, actions_after.len() as int),
    )
}

/// What a frame does: there are states in between through which it passed
/// step by step.
pub open spec fn frame_passed(
    maps: Map<Location, WorldMap>,
    maps_after: Map<Location, WorldMap>,
    tiles: Seq<PaletteTileData>,
    groups: Map<NpcGroupId, NpcGroup>,
    chances: WildChances,
    actions: Seq<WorldAction>,
    actions_after: Seq<WorldAction>,
    before: PlayerCharacter,
    after: PlayerCharacter,
    delta: u32,
) -> bool {
    exists|
        maps_arrived: Map<Location, WorldMap>,
        actions_arrived: Seq<WorldAction>,
        ahead: PlayerCharacter,
        arrived: PlayerCharacter,
        ticked: PlayerCharacter,
    |
        passed_by(
            maps,
            maps_arrived,
            maps_after,
            tiles,
            groups,
            chances,
            actions,
            actions_arrived,
            actions_after,
            before,
            ahead,
            arrived,
            ticked,
            after,
            delta,
        )
}

} // verus!
