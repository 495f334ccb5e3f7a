//! Movement codes: one small number per tile that packs an obstacle flag
//! and an elevation level, and the rules by which a mover may enter a tile.
//!
//! Bit layout of a code: bits 0 and 1 are obstacle flags (a code with either
//! of them set can never be entered); the bits from 2 upwards hold the
//! elevation field. Field `0` is the crossing, field `1` is the water level,
//! fields `2` to `5` are the four height levels. An elevation is the field of
//! the code that set it; elevation `0` means that the mover has none.

use vstd::prelude::*;
use crate::positions::Direction;
use crate::positions::Elevation;
use crate::positions::Location;

verus! {

pub type MovementId = u8;

/// Offset along the edge at which a map is left.
pub type ChunkOffset = i32;

pub const CROSSING: MovementId = 0x0;

pub const OBSTACLE: MovementId = 0x1;

/// Height level 0 is used for water.
pub const WATER: MovementId = 0x4;

/// Height level 0 obstacle.
pub const WATER_OBSTACLE: MovementId = 0x5;

pub const HL1: MovementId = 0x8;

pub const HL1_OBSTACLE: MovementId = 0x9;

pub const HL2: MovementId = 0xC;

pub const HL2_OBSTACLE: MovementId = 0xD;

pub const HL3: MovementId = 0x10;

pub const HL3_OBSTACLE: MovementId = 0x11;

pub const HL4: MovementId = 0x14;

pub const HL4_OBSTACLE: MovementId = 0x15;

/// What a movement code stands for.
#[derive(Clone, Copy, Debug, PartialEq, Eq, Hash, Structural)]
pub enum TerrainClass {
    /// Passable from every elevation.
    Crossing,
    /// Blocked, with no elevation.
    Obstacle,
    Water,
    WaterObstacle,
    /// A height level from `1` upwards, blocked or not.
    Elevation(u8, bool),
}

/// The link of a map's edge to a neighbouring map: the neighbour and the
/// offset of its origin along the shared edge.
#[derive(Clone, Copy, Debug, PartialEq, Eq, Hash, Structural)]
pub struct Connection(pub Location, pub ChunkOffset);

/// What a map answers when asked for the movement code at a coordinate.
pub enum MapMovementResult<'a> {
    /// The code of the tile, or `None` where no movement is possible.
    Option(Option<MovementId>),
    /// The coordinate lies beyond an edge with connections: the direction
    /// of the edge, the offset along it, and the candidate neighbours.
    Chunk(Direction, ChunkOffset, &'a [Connection]),
}

/// No obstacle flag is set in `code`.
pub open spec fn unblocked(code: MovementId) -> bool {
    code % 4 == 0
}

/// The elevation field of `code`.
pub open spec fn elevation_field(code: MovementId) -> Elevation {
    code / 4
}

/// Whether a mover on elevation `elevation` may enter a tile with `code`:
/// never where the tile is blocked; always where the mover has no elevation
/// or is on the water level; else where the tile is a crossing, water, or
/// on the mover's own level.
pub open spec fn spec_can_move(elevation: Elevation, code: MovementId) -> bool {
    unblocked(code) && (elevation <= 1 || code == CROSSING || code == WATER
        || elevation_field(code) == elevation)
}

/// The elevation of a mover after it entered a tile with `code`: the code's
/// elevation field where the tile is unblocked and no crossing, else the
/// elevation it had.
pub open spec fn spec_change_elevation(elevation: Elevation, code: MovementId) -> Elevation {
    if unblocked(code) && code != CROSSING {
        elevation_field(code)
    } else {
        elevation
    }
}

/// Whether a route may lead over a tile with `code`: the obstacle rule
/// alone, whatever the elevation.
pub open spec fn spec_can_walk(code: MovementId) -> bool {
    unblocked(code)
}

/// What `code` stands for.
pub open spec fn spec_classify(code: MovementId) -> TerrainClass {
    if code == CROSSING {
        TerrainClass::Crossing
    } else if code / 4 == 0 {
        TerrainClass::Obstacle
    } else if code == WATER {
        TerrainClass::Water
    } else if code / 4 == 1 {
        TerrainClass::WaterObstacle
    } else {
        TerrainClass::Elevation((code / 4 - 1) as u8, code % 4 != 0)
    }
}

impl<'a> MapMovementResult<'a> {
    /// No movement is possible.
    pub fn none() -> (r: MapMovementResult<'a>)
        ensures
            r == MapMovementResult::<'a>::Option(None),
    {
        MapMovementResult::Option(None)
    }

    pub fn from_code(id: Option<MovementId>) -> (r: MapMovementResult<'a>)
        ensures
            r == MapMovementResult::<'a>::Option(id),
    {
        MapMovementResult::Option(id)
    }

    pub fn from_connection(
        connection: Option<(Direction, ChunkOffset, &'a [Connection])>,
    ) -> (r: MapMovementResult<'a>)
        ensures
            r == match connection {
                Some((direction, offset, list)) => MapMovementResult::Chunk(direction, offset, list),
                None => MapMovementResult::Option(None),
            },
    {
        match connection {
            Some((direction, offset, list)) => MapMovementResult::Chunk(direction, offset, list),
            None => MapMovementResult::Option(None),
        }
    }
}

#[verifier::when_used_as_spec(spec_can_walk)]
pub fn can_walk(code: MovementId) -> (r: bool)
    ensures
        r == spec_can_walk(code),
{
    code % 4 == 0
}

#[verifier::when_used_as_spec(spec_classify)]
pub fn classify(code: MovementId) -> (r: TerrainClass)
    ensures
        r == spec_classify(code),
{
    let field: u8 = code / 4;
    let blocked: bool = code % 4 != 0;
    if field == 0 {
        if blocked {
            TerrainClass::Obstacle
        } else {
            TerrainClass::Crossing
        }
    } else if field == 1 {
        if blocked {
            TerrainClass::WaterObstacle
        } else {
            TerrainClass::Water
        }
    } else {
        TerrainClass::Elevation(field - 1, blocked)
    }
}

/// The canonical code of a terrain class, if it has one: levels above `62`
/// do not fit in a code.
pub fn encode(class: TerrainClass) -> (r: Option<MovementId>)
    ensures
        match r {
            Some(code) => spec_classify(code) == class && code % 4 <= 1,
            None => class matches TerrainClass::Elevation(level, _) && (level > 62 || level == 0),
        },
{
    match class {
        TerrainClass::Crossing => Some(CROSSING),
        TerrainClass::Obstacle => Some(OBSTACLE),
        TerrainClass::Water => Some(WATER),
        TerrainClass::WaterObstacle => Some(WATER_OBSTACLE),
        TerrainClass::Elevation(level, blocked) => {
            if level == 0 || level > 62 {
                None
            } else {
                let base: u8 = (level + 1) * 4;
                Some(if blocked { base + 1 } else { base })
            }
        },
    }
}

/// Entering is decided by the tile and the elevation alone: a blocked tile
/// can never be entered, a crossing always, and the same question has the
/// same answer.
pub proof fn lemma_can_move_rules(elevation: Elevation, code: MovementId)
    ensures
        !unblocked(code) ==> !spec_can_move(elevation, code),
        spec_can_move(elevation, CROSSING),
        unblocked(code) && elevation_field(code) == elevation ==> spec_can_move(elevation, code),
        spec_change_elevation(elevation, CROSSING) == elevation,
        !unblocked(code) ==> spec_change_elevation(elevation, code) == elevation,
{
}

} // verus!
