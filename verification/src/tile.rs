//! What the tiles of a palette mean to whoever walks over them.

use vstd::prelude::*;
use crate::map::PaletteId;
use crate::map::Palettes;
use crate::map::TileId;
use crate::positions::Direction;

verus! {

/// The kinds of tile that a warp may lie on.
#[derive(Clone, Copy, Debug, PartialEq, Eq, Hash, Structural)]
pub enum WarpTile {
    Door,
    Stair,
    Other,
}

/// The meaning of the tiles of one palette.
#[derive(Clone, Debug)]
pub struct PaletteTileData {
    pub palette: PaletteId,
    /// Tiles on which wild monsters are met.
    pub wild: Vec<TileId>,
    /// Tiles that are jumped over when stepped onto in each direction.
    pub cliffs_up: Vec<TileId>,
    pub cliffs_down: Vec<TileId>,
    pub cliffs_left: Vec<TileId>,
    pub cliffs_right: Vec<TileId>,
    /// Tiles over which the player talks to whoever stands behind them.
    pub forwarding: Vec<TileId>,
    /// Tiles on which a warp lies, each with its kind.
    pub warp: Vec<(TileId, WarpTile)>,
}

/// Whether `palette` is one of `palettes`.
pub open spec fn palette_used(palettes: Palettes, palette: PaletteId) -> bool {
    palettes@[0] == palette || palettes@[1] == palette
}

pub fn uses_palette(palettes: &Palettes, palette: PaletteId) -> (r: bool)
    ensures
        r == palette_used(*palettes, palette),
{
    palettes[0] == palette || palettes[1] == palette
}

pub fn holds_tile(list: &Vec<TileId>, tile: TileId) -> (r: bool)
    ensures
        r == list@.contains(tile),
{
    let mut i: usize = 0;
    while i < list.len()
        invariant
            i <= list@.len(),
            forall|j: int| 0 <= j < i ==> list@[j] != tile,
        decreases list@.len() - i,
    {
        if list[i] == tile {
            return true;
        }
        i += 1;
    }
    false
}

impl PaletteTileData {
    pub open spec fn spec_cliffs(&self, direction: Direction) -> Seq<TileId> {
        match direction {
            Direction::Up => self.cliffs_up@,
            Direction::Down => self.cliffs_down@,
            Direction::Left => self.cliffs_left@,
            Direction::Right => self.cliffs_right@,
        }
    }

    pub fn cliffs(&self, direction: Direction) -> (r: &Vec<TileId>)
        ensures
            r@ == self.spec_cliffs(direction),
    {
        match direction {
            Direction::Up => &self.cliffs_up,
            Direction::Down => &self.cliffs_down,
            Direction::Left => &self.cliffs_left,
            Direction::Right => &self.cliffs_right,
        }
    }

    /// The kind of the warp tile `tile`: that of the first entry for it.
    pub open spec fn spec_warp_kind(&self, tile: TileId) -> Option<WarpTile> {
        first_kind(self.warp@, tile)
    }

    pub fn warp_kind(&self, tile: TileId) -> (r: Option<WarpTile>)
        ensures
            r == self.spec_warp_kind(tile),
    {
        let mut i: usize = 0;
        assert(self.warp@.subrange(0, self.warp@.len() as int) =~= self.warp@);
        while i < self.warp.len()
            invariant
                i <= self.warp@.len(),
                first_kind(self.warp@, tile) == first_kind(
                    self.warp@.subrange(i as int, self.warp@.len() as int),
                    tile,
                ),
            decreases self.warp@.len() - i,
        {
            let ghost rest = self.warp@.subrange(i as int, self.warp@.len() as int);
            assert(rest[0] == self.warp@[i as int]);
            assert(rest.subrange(1, rest.len() as int) =~= self.warp@.subrange(
                i + 1,
                self.warp@.len() as int,
            ));
            if self.warp[i].0 == tile {
                return Some(self.warp[i].1);
            }
            i += 1;
        }
        None
    }
}

/// The kind that the first entry for `tile` gives.
pub open spec fn first_kind(entries: Seq<(TileId, WarpTile)>, tile: TileId) -> Option<WarpTile>
    decreases entries.len(),
{
    if entries.len() == 0 {
        None
    } else if entries[0].0 == tile {
        Some(entries[0].1)
    } else {
        first_kind(entries.subrange(1, entries.len() as int), tile)
    }
}

/// Whether, in a palette that the map uses, `tile` is a cliff for someone
/// who goes in `direction`.
pub open spec fn is_cliff(
    tiles: Seq<PaletteTileData>,
    palettes: Palettes,
    direction: Direction,
    tile: TileId,
) -> bool {
    exists|i: int|
        0 <= i < tiles.len() && palette_used(palettes, (#[trigger] tiles[i]).palette)
            && tiles[i].spec_cliffs(direction).contains(tile)
}

/// Whether, in a palette that the map uses, `tile` hands talk on.
pub open spec fn is_forwarding(tiles: Seq<PaletteTileData>, palettes: Palettes, tile: TileId) -> bool {
    exists|i: int|
        0 <= i < tiles.len() && palette_used(palettes, (#[trigger] tiles[i]).palette)
            && tiles[i].forwarding@.contains(tile)
}

/// Whether, in a palette that the map uses, wild monsters are met on `tile`.
pub open spec fn is_wild(tiles: Seq<PaletteTileData>, palettes: Palettes, tile: TileId) -> bool {
    exists|i: int|
        0 <= i < tiles.len() && palette_used(palettes, (#[trigger] tiles[i]).palette)
            && tiles[i].wild@.contains(tile)
}

/// The palette and the kind of the warp tile `tile`, from the first palette
/// in `tiles` that the map uses and that knows the tile as one.
pub open spec fn warp_tile_of(tiles: Seq<PaletteTileData>, palettes: Palettes, tile: TileId) -> Option<
    (PaletteId, WarpTile),
>
    decreases tiles.len(),
{
    if tiles.len() == 0 {
        None
    } else if palette_used(palettes, tiles[0].palette) && tiles[0].spec_warp_kind(tile).is_some() {
        Some((tiles[0].palette, tiles[0].spec_warp_kind(tile).unwrap()))
    } else {
        warp_tile_of(tiles.subrange(1, tiles.len() as int), palettes, tile)
    }
}

pub fn cliff_at(
    tiles: &Vec<PaletteTileData>,
    palettes: &Palettes,
    direction: Direction,
    tile: TileId,
) -> (r: bool)
    ensures
        r == is_cliff(tiles@, *palettes, direction, tile),
{
    let mut i: usize = 0;
    while i < tiles.len()
        invariant
            i <= tiles@.len(),
            forall|j: int|
                0 <= j < i ==> !(palette_used(*palettes, (#[trigger] tiles@[j]).palette)
                    && tiles@[j].spec_cliffs(direction).contains(tile)),
        decreases tiles@.len() - i,
    {
        if uses_palette(palettes, tiles[i].palette) && holds_tile(tiles[i].cliffs(direction), tile) {
            return true;
        }
        i += 1;
    }
    false
}

pub fn forwarding_at(tiles: &Vec<PaletteTileData>, palettes: &Palettes, tile: TileId) -> (r: bool)
    ensures
        r == is_forwarding(tiles@, *palettes, tile),
{
    let mut i: usize = 0;
    while i < tiles.len()
        invariant
            i <= tiles@.len(),
            forall|j: int|
                0 <= j < i ==> !(palette_used(*palettes, (#[trigger] tiles@[j]).palette)
                    && tiles@[j].forwarding@.contains(tile)),
        decreases tiles@.len() - i,
    {
        if uses_palette(palettes, tiles[i].palette) && holds_tile(&tiles[i].forwarding, tile) {
            return true;
        }
        i += 1;
    }
    false
}

pub fn wild_at(tiles: &Vec<PaletteTileData>, palettes: &Palettes, tile: TileId) -> (r: bool)
    ensures
        r == is_wild(tiles@, *palettes, tile),
{
    let mut i: usize = 0;
    while i < tiles.len()
        invariant
            i <= tiles@.len(),
            forall|j: int|
                0 <= j < i ==> !(palette_used(*palettes, (#[trigger] tiles@[j]).palette)
                    && tiles@[j].wild@.contains(tile)),
        decreases tiles@.len() - i,
    {
        if uses_palette(palettes, tiles[i].palette) && holds_tile(&tiles[i].wild, tile) {
            return true;
        }
        i += 1;
    }
    false
}

pub fn warp_tile_at(tiles: &Vec<PaletteTileData>, palettes: &Palettes, tile: TileId) -> (r: Option<
    (PaletteId, WarpTile),
>)
    ensures
        r == warp_tile_of(tiles@, *palettes, tile),
{
    let mut i: usize = 0;
    assert(tiles@.subrange(0, tiles@.len() as int) =~= tiles@);
    while i < tiles.len()
        invariant
            i <= tiles@.len(),
            warp_tile_of(tiles@, *palettes, tile) == warp_tile_of(
                tiles@.subrange(i as int, tiles@.len() as int),
                *palettes,
                tile,
            ),
        decreases tiles@.len() - i,
    {
        let ghost rest = tiles@.subrange(i as int, tiles@.len() as int);
        assert(rest[0] == tiles@[i as int]);
        assert(rest.subrange(1, rest.len() as int) =~= tiles@.subrange(i + 1, tiles@.len() as int));
        if uses_palette(palettes, tiles[i].palette) {
            if let Some(kind) = tiles[i].warp_kind(tile) {
                return Some((tiles[i].palette, kind));
            }
        }
        i += 1;
    }
    None
}

} // verus!
