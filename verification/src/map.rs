//! One map: a rectangle of tiles and movement codes with its warps, its
//! non-player characters and its links to neighbouring maps, and the
//! questions that it answers about a coordinate.

use vstd::prelude::*;
use crate::character::ItemId;
use crate::character::MusicId;
use crate::character::Npc;
use crate::character::NpcId;
use crate::movement::spec_can_move;
use crate::movement::spec_change_elevation;
use crate::movement::Connection;
use crate::movement::MapMovementResult;
use crate::movement::MovementId;
use crate::movement::CROSSING;
use crate::movement::OBSTACLE;
use crate::movement::WATER;
use crate::positions::BoundingBox;
use crate::positions::Coordinate;
use crate::positions::CoordinateInt;
use crate::positions::Destination;
use crate::positions::Direction;
use crate::positions::Elevation;
use crate::positions::Location;

verus! {

pub type TileId = u16;

pub type MapSize = usize;

pub type PaletteId = u8;

pub type Palettes = [PaletteId; 2];

pub type ObjectId = u32;

/// Where a warp leads.
#[derive(Clone, Copy, Debug, PartialEq, Eq, Hash, Structural)]
pub struct WarpDestination {
    pub location: Location,
    pub position: Destination,
}

/// A zone of a map that sends whoever enters it somewhere else.
#[derive(Clone, Copy, Debug, PartialEq, Eq, Hash, Structural)]
pub struct WarpEntry {
    pub location: BoundingBox,
    pub destination: WarpDestination,
}

/// The links of a map's four edges. An edge without an entry is a hard
/// bound; an edge with an empty list leads nowhere.
#[derive(Clone, Debug)]
pub struct WorldChunk {
    pub up: Option<Vec<Connection>>,
    pub down: Option<Vec<Connection>>,
    pub left: Option<Vec<Connection>>,
    pub right: Option<Vec<Connection>>,
}

/// How bright a map is.
#[derive(Clone, Copy, Debug, PartialEq, Eq, Hash, Structural)]
pub enum Brightness {
    Day,
    Night,
}

impl Default for Brightness {
    fn default() -> (r: Brightness)
        ensures
            r == Brightness::Day,
    {
        Brightness::Day
    }
}

#[derive(Clone, Copy, Debug)]
pub struct WorldMapSettings {
    pub fly_position: Option<Coordinate>,
    pub brightness: Brightness,
}

impl Default for WorldMapSettings {
    fn default() -> (r: WorldMapSettings)
        ensures
            r.fly_position.is_none(),
            r.brightness == Brightness::Day,
    {
        WorldMapSettings { fly_position: None, brightness: Brightness::Day }
    }
}

/// Something that stands on a tile and may be broken.
#[derive(Clone, Copy, Debug, PartialEq, Eq, Hash, Structural)]
pub struct MapObject {
    pub coordinate: Coordinate,
    pub group: ObjectId,
}

/// Something that lies on a tile and may be picked up.
#[derive(Clone, Copy, Debug, PartialEq, Eq, Hash, Structural)]
pub struct MapItem {
    pub coordinate: Coordinate,
    pub item: ItemId,
    pub count: u16,
}

/// The kinds of wild encounter.
#[derive(Clone, Copy, Debug, PartialEq, Eq, Hash, Structural)]
pub enum WildType {
    Land,
    Water,
}

/// One species that may be met, with its range of levels.
#[derive(Clone, Copy, Debug, PartialEq, Eq, Hash, Structural)]
pub struct WildPokemon {
    pub species: u16,
    pub min_level: u8,
    pub max_level: u8,
}

/// Who may be met in a map, by kind of encounter.
#[derive(Clone, Debug)]
pub struct WildEntries {
    pub land: Option<Vec<WildPokemon>>,
    pub water: Option<Vec<WildPokemon>>,
}

impl WildEntries {
    pub open spec fn spec_get(&self, kind: WildType) -> Option<Vec<WildPokemon>> {
        match kind {
            WildType::Land => self.land,
            WildType::Water => self.water,
        }
    }

    pub fn get(&self, kind: WildType) -> (r: Option<&Vec<WildPokemon>>)
        ensures
            match r {
                Some(list) => self.spec_get(kind) == Some(*list),
                None => self.spec_get(kind).is_none(),
            },
    {
        match kind {
            WildType::Land => self.land.as_ref(),
            WildType::Water => self.water.as_ref(),
        }
    }
}

impl WorldChunk {
    /// The connections of the edge in `direction`, if the edge has an entry.
    pub open spec fn spec_get(&self, direction: Direction) -> Option<Vec<Connection>> {
        match direction {
            Direction::Up => self.up,
            Direction::Down => self.down,
            Direction::Left => self.left,
            Direction::Right => self.right,
        }
    }

    pub fn get(&self, direction: Direction) -> (r: Option<&Vec<Connection>>)
        ensures
            match r {
                Some(list) => self.spec_get(direction) == Some(*list),
                None => self.spec_get(direction).is_none(),
            },
    {
        match direction {
            Direction::Up => self.up.as_ref(),
            Direction::Down => self.down.as_ref(),
            Direction::Left => self.left.as_ref(),
            Direction::Right => self.right.as_ref(),
        }
    }

    /// Whether some connection of some edge leads to `location`.
    pub open spec fn links(&self, location: Location) -> bool {
        exists|d: Direction, i: int|
            self.spec_get(d) is Some && 0 <= i < self.spec_get(d).unwrap()@.len()
                && (#[trigger] self.spec_get(d).unwrap()@[i]).0 == location
    }
}

/// One playable map.
#[derive(Clone, Debug)]
pub struct WorldMap {
    pub id: Location,
    pub name: String,
    pub music: MusicId,
    pub width: CoordinateInt,
    pub height: CoordinateInt,
    pub palettes: Palettes,
    /// Row by row, `width` tiles each.
    pub tiles: Vec<TileId>,
    /// Indexed as `tiles`.
    pub movements: Vec<MovementId>,
    /// The tiles shown outside the map.
    pub border: [TileId; 4],
    pub chunk: Option<WorldChunk>,
    pub warps: Vec<WarpEntry>,
    pub wild: Option<WildEntries>,
    pub npcs: Vec<Npc>,
    pub objects: Vec<MapObject>,
    pub items: Vec<MapItem>,
    pub settings: WorldMapSettings,
}

/// Whether `list` holds a connection to `location`.
pub open spec fn connects_to(list: Seq<Connection>, location: Location) -> bool {
    exists|i: int| 0 <= i < list.len() && (#[trigger] list[i]).0 == location
}

fn list_connects_to(list: &Vec<Connection>, location: &Location) -> (r: bool)
    ensures
        r == connects_to(list@, *location),
{
    let mut i: usize = 0;
    while i < list.len()
        invariant
            i <= list@.len(),
            forall|j: int| 0 <= j < i ==> (#[trigger] list@[j]).0 != *location,
        decreases list@.len() - i,
    {
        if list[i].0 == *location {
            return true;
        }
        i += 1;
    }
    false
}

fn edge_connects_to(edge: &Option<Vec<Connection>>, location: &Location) -> (r: bool)
    ensures
        r == (*edge is Some && connects_to(edge.unwrap()@, *location)),
{
    match edge {
        Some(list) => list_connects_to(list, location),
        None => false,
    }
}

impl WorldMap {
    /// The data fits together: the grids have one entry per tile, every warp
    /// zone lies inside the map, and no two characters share an id.
    pub open spec fn wf(&self) -> bool {
        &&& self.width >= 0
        &&& self.height >= 0
        &&& self.tiles@.len() == self.width * self.height
        &&& self.movements@.len() == self.width * self.height
        &&& forall|i: int|
            0 <= i < self.warps@.len() ==> self.zone_inside((#[trigger] self.warps@[i]).location)
        &&& forall|i: int, j: int|
            0 <= i < j < self.npcs@.len() ==> (#[trigger] self.npcs@[i]).id != (
            #[trigger] self.npcs@[j]).id
    }

    /// The zone lies inside the map.
    pub open spec fn zone_inside(&self, zone: BoundingBox) -> bool {
        &&& 0 <= zone.min.x
        &&& zone.max.x < self.width
        &&& 0 <= zone.min.y
        &&& zone.max.y < self.height
    }

    pub open spec fn spec_in_bounds(&self, coords: Coordinate) -> bool {
        0 <= coords.x < self.width && 0 <= coords.y < self.height
    }

    /// The place of a coordinate in the grids.
    pub open spec fn index_of(&self, coords: Coordinate) -> int {
        coords.x + coords.y * self.width
    }

    /// Whether a character of the map stands on `coords`.
    pub open spec fn occupied(&self, coords: Coordinate) -> bool {
        exists|i: int|
            0 <= i < self.npcs@.len() && (#[trigger] self.npcs@[i]).character.position.coords
                == coords
    }

    /// The tile at a coordinate inside the map; nothing outside it, and
    /// nothing where the grid is too short.
    pub open spec fn spec_tile(&self, coords: Coordinate) -> Option<TileId> {
        if self.spec_in_bounds(coords) && 0 <= self.index_of(coords) < self.tiles@.len() {
            Some(self.tiles@[self.index_of(coords)])
        } else {
            None
        }
    }

    /// The code at the place in the grid that `coords` counts to, row by
    /// row, with an obstacle wherever a character stands; nothing where a
    /// coordinate is negative or the place lies outside the grid.
    pub open spec fn spec_unbounded_movement(&self, coords: Coordinate) -> Option<MovementId> {
        if coords.x >= 0 && coords.y >= 0 && 0 <= self.index_of(coords) < self.movements@.len() {
            if self.occupied(coords) {
                Some(OBSTACLE)
            } else {
                Some(self.movements@[self.index_of(coords)])
            }
        } else {
            None
        }
    }

    pub open spec fn spec_local_movement(&self, coords: Coordinate) -> Option<MovementId> {
        if self.spec_in_bounds(coords) {
            self.spec_unbounded_movement(coords)
        } else {
            None
        }
    }

    /// The place of the first warp zone that holds `coords`, or the number
    /// of warps where none does.
    pub open spec fn first_warp(&self, coords: Coordinate) -> int {
        first_zone(self.warps@, coords)
    }

    pub open spec fn spec_warp_at(&self, coords: Coordinate) -> Option<WarpDestination> {
        if self.first_warp(coords) < self.warps@.len() {
            Some(self.warps@[self.first_warp(coords)].destination)
        } else {
            None
        }
    }

    pub open spec fn spec_contains(&self, location: Location) -> bool {
        self.id == location || (self.chunk is Some && self.chunk.unwrap().links(location))
    }

    /// What `chunk_movement` answers, the list of connections as a
    /// sequence.
    pub open spec fn spec_chunk_movement(&self, coords: Coordinate) -> ChunkAnswer {
        match self.chunk {
            Some(chunk) => {
                if coords.x < 0 {
                    edge_answer(chunk.left, Direction::Left, coords.y)
                } else if coords.x >= self.width {
                    edge_answer(chunk.right, Direction::Right, coords.y)
                } else if coords.y < 0 {
                    edge_answer(chunk.up, Direction::Up, coords.x)
                } else if coords.y >= self.height {
                    edge_answer(chunk.down, Direction::Down, coords.x)
                } else {
                    ChunkAnswer::Code(self.spec_unbounded_movement(coords))
                }
            },
            None => {
                if self.spec_in_bounds(coords) {
                    ChunkAnswer::Code(self.spec_unbounded_movement(coords))
                } else {
                    ChunkAnswer::Code(None)
                }
            },
        }
    }

    /// Checks that the data fits together.
    pub fn validate(&self) -> (r: bool)
        ensures
            r == self.wf(),
    {
        if self.width < 0 || self.height < 0 {
            return false;
        }
        proof {
            lemma_product_bound(self.width as int, self.height as int);
        }
        let area: u64 = (self.width as u64) * (self.height as u64);
        if self.tiles.len() as u64 != area || self.movements.len() as u64 != area {
            return false;
        }
        let mut i: usize = 0;
        while i < self.warps.len()
            invariant
                i <= self.warps@.len(),
                forall|k: int| 0 <= k < i ==> self.zone_inside((#[trigger] self.warps@[k]).location),
            decreases self.warps@.len() - i,
        {
            let zone = self.warps[i].location;
            if !(0 <= zone.min.x && zone.max.x < self.width && 0 <= zone.min.y && zone.max.y
                < self.height) {
                return false;
            }
            i += 1;
        }
        let mut a: usize = 0;
        while a < self.npcs.len()
            invariant
                a <= self.npcs@.len(),
                forall|p: int, q: int|
                    0 <= p < q < self.npcs@.len() && p < a ==> (#[trigger] self.npcs@[p]).id != (
                    #[trigger] self.npcs@[q]).id,
            decreases self.npcs@.len() - a,
        {
            let mut b: usize = a + 1;
            while b < self.npcs.len()
                invariant
                    a < b <= self.npcs@.len(),
                    forall|q: int| a < q < b ==> self.npcs@[a as int].id != (#[trigger] self.npcs@[q]).id,
                decreases self.npcs@.len() - b,
            {
                if self.npcs[a].id == self.npcs[b].id {
                    return false;
                }
                b += 1;
            }
            a += 1;
        }
        true
    }

    #[verifier::when_used_as_spec(spec_in_bounds)]
    pub fn in_bounds(&self, coords: Coordinate) -> (r: bool)
        ensures
            r == self.spec_in_bounds(coords),
    {
        !(coords.x < 0 || coords.x >= self.width || coords.y < 0 || coords.y >= self.height)
    }

    #[verifier::when_used_as_spec(spec_tile)]
    pub fn tile(&self, coords: Coordinate) -> (r: Option<TileId>)
        ensures
            r == self.spec_tile(coords),
    {
        if !self.in_bounds(coords) {
            return None;
        }
        proof {
            lemma_product_bound(coords.y as int, self.width as int);
        }
        let index: i128 = coords.x as i128 + (coords.y as i128) * (self.width as i128);
        if index < 0 || index >= self.tiles.len() as i128 {
            return None;
        }
        Some(self.tiles[index as usize])
    }

    #[verifier::when_used_as_spec(spec_local_movement)]
    pub fn local_movement(&self, coords: Coordinate) -> (r: Option<MovementId>)
        ensures
            r == self.spec_local_movement(coords),
    {
        if self.in_bounds(coords) {
            self.unbounded_movement(coords)
        } else {
            None
        }
    }

    /// Whether a character of the map stands on `coords`.
    pub fn npc_at(&self, coords: Coordinate) -> (r: bool)
        ensures
            r == self.occupied(coords),
    {
        let mut i: usize = 0;
        while i < self.npcs.len()
            invariant
                i <= self.npcs@.len(),
                forall|j: int|
                    0 <= j < i ==> (#[trigger] self.npcs@[j]).character.position.coords != coords,
            decreases self.npcs@.len() - i,
        {
            if self.npcs[i].character.position.coords == coords {
                return true;
            }
            i += 1;
        }
        false
    }

    #[verifier::when_used_as_spec(spec_unbounded_movement)]
    pub fn unbounded_movement(&self, coords: Coordinate) -> (r: Option<MovementId>)
        ensures
            r == self.spec_unbounded_movement(coords),
    {
        if coords.x < 0 || coords.y < 0 {
            return None;
        }
        proof {
            lemma_product_bound(coords.y as int, self.width as int);
        }
        let index: i128 = coords.x as i128 + (coords.y as i128) * (self.width as i128);
        assert(index == self.index_of(coords));
        if index < 0 || index >= self.movements.len() as i128 {
            return None;
        }
        let code: MovementId = self.movements[index as usize];
        if self.npc_at(coords) {
            Some(OBSTACLE)
        } else {
            Some(code)
        }
    }

    pub fn chunk_movement(&self, coords: Coordinate) -> (r: MapMovementResult<'_>)
        ensures
            answer_of(r) == self.spec_chunk_movement(coords),
    {
        if let Some(chunk) = self.chunk.as_ref() {
            if coords.x < 0 {
                return edge_result(&chunk.left, Direction::Left, coords.y);
            }
            if coords.x >= self.width {
                return edge_result(&chunk.right, Direction::Right, coords.y);
            }
            if coords.y < 0 {
                return edge_result(&chunk.up, Direction::Up, coords.x);
            }
            if coords.y >= self.height {
                return edge_result(&chunk.down, Direction::Down, coords.x);
            }
        } else if !self.in_bounds(coords) {
            return MapMovementResult::none();
        }
        MapMovementResult::from_code(self.unbounded_movement(coords))
    }

    pub fn warp_at(&self, coords: Coordinate) -> (r: Option<&WarpDestination>)
        ensures
            match r {
                Some(destination) => self.spec_warp_at(coords) == Some(*destination),
                None => self.spec_warp_at(coords).is_none(),
            },
    {
        let mut i: usize = 0;
        assert(self.warps@.subrange(0, self.warps@.len() as int) =~= self.warps@);
        while i < self.warps.len()
            invariant
                i <= self.warps@.len(),
                first_zone(self.warps@, coords) == i + first_zone(
                    self.warps@.subrange(i as int, self.warps@.len() as int),
                    coords,
                ),
            decreases self.warps@.len() - i,
        {
            let ghost rest = self.warps@.subrange(i as int, self.warps@.len() as int);
            assert(rest[0] == self.warps@[i as int]);
            assert(rest.subrange(1, rest.len() as int) =~= self.warps@.subrange(
                i + 1,
                self.warps@.len() as int,
            ));
            if self.warps[i].location.in_bounds(&coords) {
                return Some(&self.warps[i].destination);
            }
            i += 1;
        }
        None
    }

    pub fn contains(&self, location: &Location) -> (r: bool)
        ensures
            r == self.spec_contains(*location),
    {
        if self.id == *location {
            return true;
        }
        match self.chunk.as_ref() {
            Some(chunk) => {
                let r = edge_connects_to(&chunk.up, location) || edge_connects_to(
                    &chunk.down,
                    location,
                ) || edge_connects_to(&chunk.left, location) || edge_connects_to(
                    &chunk.right,
                    location,
                );
                proof {
                    if r {
                        let d = if chunk.up is Some && connects_to(chunk.up.unwrap()@, *location) {
                            Direction::Up
                        } else if chunk.down is Some && connects_to(
                            chunk.down.unwrap()@,
                            *location,
                        ) {
                            Direction::Down
                        } else if chunk.left is Some && connects_to(
                            chunk.left.unwrap()@,
                            *location,
                        ) {
                            Direction::Left
                        } else {
                            Direction::Right
                        };
                        let list = chunk.spec_get(d).unwrap()@;
                        let i = choose|i: int| 0 <= i < list.len() && (#[trigger] list[i]).0
                            == *location;
                        assert(chunk.spec_get(d).unwrap()@[i].0 == *location);
                    } else {
                        assert forall|d: Direction, i: int|
                            chunk.spec_get(d) is Some && 0 <= i < chunk.spec_get(d).unwrap()@.len()
                            implies (#[trigger] chunk.spec_get(d).unwrap()@[i]).0
                            != *location by {
                            assert(!connects_to(chunk.spec_get(d).unwrap()@, *location));
                        }
                    }
                }
                r
            },
            None => false,
        }
    }

    /// The first object on `coords`, if there is one.
    pub fn object_at(&self, coords: &Coordinate) -> (r: Option<MapObject>)
        ensures
            r == first_object(self.objects@, *coords),
    {
        let mut i: usize = 0;
        assert(self.objects@.subrange(0, self.objects@.len() as int) =~= self.objects@);
        while i < self.objects.len()
            invariant
                i <= self.objects@.len(),
                first_object(self.objects@, *coords) == first_object(
                    self.objects@.subrange(i as int, self.objects@.len() as int),
                    *coords,
                ),
            decreases self.objects@.len() - i,
        {
            let ghost rest = self.objects@.subrange(i as int, self.objects@.len() as int);
            assert(rest[0] == self.objects@[i as int]);
            assert(rest.subrange(1, rest.len() as int) =~= self.objects@.subrange(
                i + 1,
                self.objects@.len() as int,
            ));
            if self.objects[i].coordinate == *coords {
                return Some(self.objects[i]);
            }
            i += 1;
        }
        None
    }

    /// The first item on `coords`, if there is one.
    pub fn item_at(&self, coords: &Coordinate) -> (r: Option<MapItem>)
        ensures
            r == first_item(self.items@, *coords),
    {
        let mut i: usize = 0;
        assert(self.items@.subrange(0, self.items@.len() as int) =~= self.items@);
        while i < self.items.len()
            invariant
                i <= self.items@.len(),
                first_item(self.items@, *coords) == first_item(
                    self.items@.subrange(i as int, self.items@.len() as int),
                    *coords,
                ),
            decreases self.items@.len() - i,
        {
            let ghost rest = self.items@.subrange(i as int, self.items@.len() as int);
            assert(rest[0] == self.items@[i as int]);
            assert(rest.subrange(1, rest.len() as int) =~= self.items@.subrange(
                i + 1,
                self.items@.len() as int,
            ));
            if self.items[i].coordinate == *coords {
                return Some(self.items[i]);
            }
            i += 1;
        }
        None
    }

    /// Whether a mover on `elevation` may enter a tile with `code`.
    pub fn can_move(elevation: Elevation, code: MovementId) -> (r: bool)
        ensures
            r == spec_can_move(elevation, code),
    {
        match elevation {
            0 | 1 => code % 4 == 0,
            elevation => (code % 4 == 0 && code / 4 == elevation) || code == CROSSING || code
                == WATER,
        }
    }

    /// Sets the elevation of a mover that enters a tile with `code`.
    pub fn change_elevation(elevation: &mut Elevation, code: MovementId)
        ensures
            *final(elevation) == spec_change_elevation(*old(elevation), code),
    {
        if code % 4 == 0 && code != CROSSING {
            *elevation = code / 4;
        }
    }
}

/// The first of `objects` that stands on `coords`.
pub open spec fn first_object(objects: Seq<MapObject>, coords: Coordinate) -> Option<MapObject>
    decreases objects.len(),
{
    if objects.len() == 0 {
        None
    } else if objects[0].coordinate == coords {
        Some(objects[0])
    } else {
        first_object(objects.subrange(1, objects.len() as int), coords)
    }
}

/// The first of `items` that lies on `coords`.
pub open spec fn first_item(items: Seq<MapItem>, coords: Coordinate) -> Option<MapItem>
    decreases items.len(),
{
    if items.len() == 0 {
        None
    } else if items[0].coordinate == coords {
        Some(items[0])
    } else {
        first_item(items.subrange(1, items.len() as int), coords)
    }
}

/// What a map answers about a coordinate, the connections as a sequence.
pub enum ChunkAnswer {
    Code(Option<MovementId>),
    Edge(Direction, CoordinateInt, Seq<Connection>),
}

/// The answer that a result stands for.
pub open spec fn answer_of(result: MapMovementResult<'_>) -> ChunkAnswer {
    match result {
        MapMovementResult::Option(code) => ChunkAnswer::Code(code),
        MapMovementResult::Chunk(direction, offset, list) => ChunkAnswer::Edge(
            direction,
            offset,
            list@,
        ),
    }
}

/// The answer for a coordinate beyond an edge.
pub open spec fn edge_answer(
    edge: Option<Vec<Connection>>,
    direction: Direction,
    offset: CoordinateInt,
) -> ChunkAnswer {
    match edge {
        Some(list) => ChunkAnswer::Edge(direction, offset, list@),
        None => ChunkAnswer::Code(None),
    }
}

fn edge_result<'a>(
    edge: &'a Option<Vec<Connection>>,
    direction: Direction,
    offset: CoordinateInt,
) -> (r: MapMovementResult<'a>)
    ensures
        answer_of(r) == edge_answer(*edge, direction, offset),
{
    match edge {
        Some(list) => MapMovementResult::from_connection(Some((direction, offset, list.as_slice()))),
        None => MapMovementResult::from_connection(None),
    }
}

/// The place of the first zone of `warps` that holds `coords`, or the
/// length of `warps` where none does.
pub open spec fn first_zone(warps: Seq<WarpEntry>, coords: Coordinate) -> int
    decreases warps.len(),
{
    if warps.len() == 0 {
        0
    } else if warps[0].location.spec_contains(coords) {
        0
    } else {
        1 + first_zone(warps.subrange(1, warps.len() as int), coords)
    }
}

/// In a map whose data fits together, every coordinate inside the map has
/// a tile and a movement code.
pub proof fn lemma_grid_total(map: WorldMap, coords: Coordinate)
    requires
        map.wf(),
        map.spec_in_bounds(coords),
    ensures
        map.spec_tile(coords) == Some(map.tiles@[map.index_of(coords)]),
        map.spec_local_movement(coords).is_some(),
        !map.occupied(coords) ==> map.spec_local_movement(coords) == Some(
            map.movements@[map.index_of(coords)],
        ),
{
    lemma_index_in_grid(coords.x as int, coords.y as int, map.width as int, map.height as int);
}

/// A coordinate inside a grid counts to a place inside the grid.
pub proof fn lemma_index_in_grid(x: int, y: int, width: int, height: int)
    requires
        0 <= x < width,
        0 <= y < height,
    ensures
        0 <= y * width,
        0 <= x + y * width < width * height,
{
    assert(y * width <= (height - 1) * width) by (nonlinear_arith)
        requires
            0 <= y <= height - 1,
            0 <= width,
    ;
    assert((height - 1) * width == width * height - width) by (nonlinear_arith);
    assert(y * width >= 0) by (nonlinear_arith)
        requires
            0 <= y,
            0 <= width,
    ;
}

/// The product of two 32-bit numbers has at most 62 bits.
pub proof fn lemma_product_bound(a: int, b: int)
    requires
        -0x8000_0000 <= a <= 0x8000_0000,
        -0x8000_0000 <= b <= 0x8000_0000,
    ensures
        -0x4000_0000_0000_0000 <= a * b <= 0x4000_0000_0000_0000,
        a >= 0 && b >= 0 ==> a * b >= 0,
{
    assert(-0x4000_0000_0000_0000 <= a * b <= 0x4000_0000_0000_0000) by (nonlinear_arith)
        requires
            -0x8000_0000 <= a <= 0x8000_0000,
            -0x8000_0000 <= b <= 0x8000_0000,
    ;
    assert(a >= 0 && b >= 0 ==> a * b >= 0) by (nonlinear_arith);
}

} // verus!
