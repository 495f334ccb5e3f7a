//! The transition that covers a warp: a door swings open, the screen fades
//! to black, the player is put where the warp leads, the screen fades back
//! in, and a door swings open and shut behind the player.
//!
//! Time is counted in microseconds. The cover's opacity is counted in
//! units of which `ALPHA_MAX` make full cover, the door's swing in units
//! of which a million make one frame of its animation.

use vstd::prelude::*;
use crate::character::went_by;
use crate::character::Character;
use crate::character::TILE_UNITS;
use crate::manager::warped;
use crate::manager::WorldMapData;
use crate::map::PaletteId;
use crate::map::TileId;
use crate::map::WarpDestination;
use crate::map::WorldMap;
use crate::player::PlayerCharacter;
use crate::player::PlayerWorld;
use crate::positions::Coordinate;
use crate::positions::Location;
use crate::tile::warp_tile_at;
use crate::tile::warp_tile_of;
use crate::tile::PaletteTileData;
use crate::tile::WarpTile;

verus! {

/// Full cover.
pub const ALPHA_MAX: u64 = 2_000_000;

/// How much the cover grows in a microsecond while fading out: full cover
/// takes two fifths of a second.
pub const FADE_OUT_RATE: u64 = 5;

/// How much the cover shrinks in a microsecond while fading in: it takes a
/// third of a second.
pub const FADE_IN_RATE: u64 = 6;

/// The door fully open: just short of four frames.
pub const DOOR_MAX: u64 = 3_990_000;

/// How far the door swings in a microsecond: six frames in a second.
pub const DOOR_RATE: u64 = 6;

/// A door that swings open or shut.
#[derive(Clone, Copy, Debug, PartialEq, Eq, Hash, Structural)]
pub struct Door {
    pub palette: PaletteId,
    pub tile: TileId,
    pub coords: Coordinate,
    pub open: bool,
    pub accumulator: u64,
}

impl Door {
    /// The swing is within its range, and a door that is not yet open has
    /// not swung all the way.
    pub open spec fn wf(&self) -> bool {
        self.accumulator <= DOOR_MAX && (!self.open ==> self.accumulator < DOOR_MAX)
    }

    pub fn new(palette: PaletteId, tile: TileId, coords: Coordinate) -> (r: Door)
        ensures
            r == (Door { palette, tile, coords, open: false, accumulator: 0 }),
            r.wf(),
    {
        Door { palette, tile, coords, open: false, accumulator: 0 }
    }

    /// The frame of the door's animation that is to be shown, `0` to `3`.
    pub fn frame(&self) -> (r: u8)
        requires
            self.wf(),
        ensures
            r == self.accumulator / 1_000_000,
            r <= 3,
    {
        (self.accumulator / 1_000_000) as u8
    }
}

/// The transition of one warp.
#[derive(Clone, Copy, Debug)]
pub struct WarpTransition {
    pub alive: bool,
    pub door: Option<Door>,
    /// The opacity of the cover, `0` to `ALPHA_MAX`.
    pub alpha: u64,
    /// The cover is full or shrinking.
    pub faded: bool,
    /// The player has been put where the warp leads.
    pub warped: bool,
    /// Where the warp led, and whether the player walks on from there.
    pub warp: Option<(Coordinate, bool)>,
    /// Whether the player's input was frozen before the transition began.
    pub freeze: bool,
}

/// How far a transition has come. The numbers fall as it goes on.
pub open spec fn stage(t: WarpTransition) -> nat {
    if !t.alive {
        0
    } else if t.faded {
        6
    } else {
        match t.door {
            Some(door) => if t.warped {
                if door.open {
                    4
                } else {
                    5
                }
            } else {
                if door.open {
                    8
                } else {
                    9
                }
            },
            None => if t.warped {
                2
            } else {
                7
            },
        }
    }
}

/// What is left of the steps that wait for a character, in units of its
/// progress.
pub open spec fn steps_left(character: Character) -> nat {
    if character.pathing.queue@.len() == 0 || character.offset >= TILE_UNITS {
        (character.pathing.queue@.len() * TILE_UNITS) as nat
    } else {
        (character.pathing.queue@.len() * TILE_UNITS - character.offset) as nat
    }
}

/// What is left to do in the stage that a transition is in.
pub open spec fn left_in_stage(t: WarpTransition, character: Character) -> nat {
    if !t.alive {
        0
    } else if t.faded {
        (t.alpha + 1) as nat
    } else {
        match t.door {
            Some(door) => if door.open {
                steps_left(character) + door.accumulator as nat
            } else {
                (DOOR_MAX - door.accumulator) as nat
            },
            None => if t.warped {
                0
            } else {
                (ALPHA_MAX - t.alpha) as nat
            },
        }
    }
}

impl WarpTransition {
    /// The cover and the door are within their ranges, and a transition
    /// that has put the player somewhere knows where.
    pub open spec fn wf(&self) -> bool {
        &&& self.alpha <= ALPHA_MAX
        &&& self.warped ==> self.warp.is_some()
        &&& self.door.is_some() ==> self.door.unwrap().wf()
    }

    /// Nothing goes on.
    pub open spec fn idle(&self) -> bool {
        !self.alive
    }

    pub fn new() -> (r: WarpTransition)
        ensures
            r == (WarpTransition {
                alive: false,
                door: None,
                alpha: 0,
                faded: false,
                warped: false,
                warp: None,
                freeze: false,
            }),
            r.wf(),
            r.idle(),
    {
        WarpTransition {
            alive: false,
            door: None,
            alpha: 0,
            faded: false,
            warped: false,
            warp: None,
            freeze: false,
        }
    }

    pub fn alive(&self) -> (r: bool)
        ensures
            r == self.alive,
    {
        self.alive
    }

    /// Begins: nothing covers the screen, and the player has not been put
    /// anywhere.
    pub fn spawn(&mut self)
        ensures
            *final(self) == (WarpTransition {
                alive: true,
                alpha: 0,
                faded: false,
                warped: false,
                ..*old(self)
            }),
    {
        self.alive = true;
        self.reset();
    }

    pub fn despawn(&mut self)
        ensures
            *final(self) == (WarpTransition { alive: false, ..*old(self) }),
    {
        self.alive = false;
    }

    pub fn reset(&mut self)
        ensures
            *final(self) == (WarpTransition {
                alpha: 0,
                faded: false,
                warped: false,
                ..*old(self)
            }),
    {
        self.alpha = 0;
        self.faded = false;
        self.warped = false;
    }

    /// Begins the transition of a warp that lies on a door: the door is
    /// shut and begins to swing, and the player's input is frozen. On any
    /// other tile, and while a transition is going on, nothing happens.
    pub fn queue(
        &mut self,
        world: &WorldMapData,
        player: &mut PlayerCharacter,
        palette: PaletteId,
        tile: TileId,
        coords: Coordinate,
    )
        ensures
            if !old(self).alive && door_tile(world.tiles@, palette, tile) {
                &&& *final(self) == (WarpTransition {
                    alive: true,
                    door: Some(Door { palette, tile, coords, open: false, accumulator: 0 }),
                    alpha: 0,
                    faded: false,
                    warped: false,
                    freeze: old(player).input_frozen,
                    ..*old(self)
                })
                &&& *final(player) == (PlayerCharacter { input_frozen: true, ..*old(player) })
            } else {
                *final(self) == *old(self) && *final(player) == *old(player)
            },
            old(self).wf() ==> final(self).wf(),
    {
        if self.alive {
            return ;
        }
        let mut i: usize = 0;
        let tiles = &world.tiles;
        assert(tiles@.subrange(0, tiles@.len() as int) =~= tiles@);
        while i < tiles.len()
            invariant
                i <= tiles@.len(),
                tiles@ == world.tiles@,
                !old(self).alive,
                *self == *old(self),
                *player == *old(player),
                door_tile(tiles@, palette, tile) == door_tile(
                    tiles@.subrange(i as int, tiles@.len() as int),
                    palette,
                    tile,
                ),
            decreases tiles@.len() - i,
        {
            let ghost rest = tiles@.subrange(i as int, tiles@.len() as int);
            assert(rest[0] == tiles@[i as int]);
            assert(rest.subrange(1, rest.len() as int) =~= tiles@.subrange(i + 1, tiles@.len() as int));
            if tiles[i].palette == palette {
                if let Some(kind) = tiles[i].warp_kind(tile) {
                    match kind {
                        WarpTile::Door => {
                            self.door = Some(Door::new(palette, tile, coords));
                            self.freeze = player.input_frozen;
                            player.input_frozen = true;
                            self.spawn();
                        },
                        _ => {},
                    }
                }
                return ;
            }
            i += 1;
        }
    }

    /// Lets `delta` microseconds pass. The result is `Some(true)` in the
    /// moment in which the player is put where the warp leads: the music
    /// of the new map is to be played.
    pub fn update(&mut self, world: &WorldMapData, player: &mut PlayerCharacter, delta: u32) -> (r:
        Option<bool>)
        requires
            old(self).wf(),
        ensures
            final(self).wf(),
            updated(
                *old(self),
                *final(self),
                *old(player),
                *final(player),
                world.maps@,
                world.tiles@,
                delta,
                r,
            ),
    {
        if self.faded {
            let sub: u64 = FADE_IN_RATE * (delta as u64);
            if sub > self.alpha {
                self.alpha = 0;
                self.faded = false;
                if self.warped {
                    if let Some(warp) = self.warp {
                        let coords = warp.0;
                        if let Some(map) = world.maps.get(&player.location) {
                            if let Some(tile) = map.tile(coords) {
                                match warp_tile_at(&world.tiles, &map.palettes, tile) {
                                    Some((palette, kind)) => {
                                        match kind {
                                            WarpTile::Door => {
                                                player.character.hidden = true;
                                                self.door = Some(Door::new(palette, tile, coords));
                                            },
                                            WarpTile::Stair | WarpTile::Other => {
                                                player.character.hidden = false;
                                                let direction = player.character.position.direction;
                                                player.character.pathing.queue.push(direction);
                                            },
                                        }
                                    },
                                    None => {
                                        player.character.hidden = false;
                                    },
                                }
                            }
                        }
                    }
                }
            } else {
                self.alpha = self.alpha - sub;
            }
            return None;
        }
        match self.door {
            Some(door) => {
                let swing: u64 = DOOR_RATE * (delta as u64);
                if door.open {
                    if !player.character.moving() {
                        if door.accumulator == DOOR_MAX && !self.warped {
                            player.character.hidden = true;
                        }
                        if swing >= door.accumulator {
                            self.door = None;
                        } else {
                            self.door = Some(
                                Door { accumulator: door.accumulator - swing, ..door },
                            );
                        }
                    }
                } else if door.accumulator < DOOR_MAX {
                    if swing >= DOOR_MAX - door.accumulator {
                        let walks_on: bool = match self.warp {
                            Some(warp) => warp.1,
                            None => false,
                        };
                        if !self.warped || walks_on {
                            let direction = player.character.position.direction;
                            player.character.pathing.queue.push(direction);
                        }
                        self.door = Some(Door { accumulator: DOOR_MAX, open: true, ..door });
                        if self.warped {
                            player.character.hidden = false;
                        }
                    } else {
                        self.door = Some(Door { accumulator: door.accumulator + swing, ..door });
                    }
                }
                None
            },
            None => {
                if self.warped {
                    self.despawn();
                    player.character.unfreeze();
                    player.input_frozen = self.freeze;
                    None
                } else {
                    let add: u64 = FADE_OUT_RATE * (delta as u64);
                    if self.alpha >= ALPHA_MAX || add >= ALPHA_MAX - self.alpha {
                        self.alpha = ALPHA_MAX;
                        self.faded = true;
                        if let Some(warp) = player.world.warp {
                            player.world.warp = None;
                            player.character.hidden = false;
                            world.warp(player, warp);
                            self.warp = Some((warp.position.coords, false));
                            self.warped = true;
                            return Some(true);
                        }
                    } else {
                        self.alpha = self.alpha + add;
                    }
                    None
                }
            },
        }
    }
}

/// Whether the first entry for `palette` knows `tile` as a door.
pub open spec fn door_tile(tiles: Seq<PaletteTileData>, palette: PaletteId, tile: TileId) -> bool
    decreases tiles.len(),
{
    if tiles.len() == 0 {
        false
    } else if tiles[0].palette == palette {
        tiles[0].spec_warp_kind(tile) == Some(WarpTile::Door)
    } else {
        door_tile(tiles.subrange(1, tiles.len() as int), palette, tile)
    }
}

/// The kind of tile that the player arrived on, with its palette and the
/// tile: nothing where the player's map is unknown, the coordinate lies
/// outside it, or the tile is no warp tile.
pub open spec fn arrival(
    maps: Map<Location, WorldMap>,
    tiles: Seq<PaletteTileData>,
    location: Location,
    coords: Coordinate,
) -> Option<(PaletteId, TileId, WarpTile)> {
    if maps.contains_key(location) && maps[location].spec_tile(coords).is_some() {
        let tile = maps[location].spec_tile(coords).unwrap();
        match warp_tile_of(tiles, maps[location].palettes, tile) {
            Some((palette, kind)) => Some((palette, tile, kind)),
            None => None,
        }
    } else {
        None
    }
}

/// Whether the player arrived on a tile at all.
pub open spec fn arrived_on_tile(
    maps: Map<Location, WorldMap>,
    location: Location,
    coords: Coordinate,
) -> bool {
    maps.contains_key(location) && maps[location].spec_tile(coords).is_some()
}

/// The player with one more step ahead waiting and shown or hidden as
/// told.
pub open spec fn walks_on(before: PlayerCharacter, after: PlayerCharacter, hidden: bool) -> bool {
    &&& after == (PlayerCharacter {
        character: Character { pathing: after.character.pathing, hidden, ..before.character },
        ..before
    })
    &&& after.character.pathing.turn == before.character.pathing.turn
    &&& after.character.pathing.queue@ == before.character.pathing.queue@.push(
        before.character.position.direction,
    )
}

/// The player shown or hidden as told.
pub open spec fn shown(before: PlayerCharacter, hidden: bool) -> PlayerCharacter {
    PlayerCharacter { character: Character { hidden, ..before.character }, ..before }
}

/// What `delta` microseconds do to a transition and to the player.
pub open spec fn updated(
    t: WarpTransition,
    next: WarpTransition,
    p: PlayerCharacter,
    after: PlayerCharacter,
    maps: Map<Location, WorldMap>,
    tiles: Seq<PaletteTileData>,
    delta: u32,
    r: Option<bool>,
) -> bool {
    if t.faded {
        // The cover shrinks. When it is gone, the tile on which the player
        // arrived decides: behind a door the player stays hidden and the
        // door begins to swing; on any other warp tile the player walks on.
        &&& r.is_none()
        &&& if FADE_IN_RATE * delta > t.alpha {
            if t.warped && t.warp.is_some() && arrived_on_tile(maps, p.location, t.warp.unwrap().0) {
                match arrival(maps, tiles, p.location, t.warp.unwrap().0) {
                    Some((palette, tile, kind)) => if kind == WarpTile::Door {
                        &&& next == (WarpTransition {
                            alpha: 0,
                            faded: false,
                            door: Some(
                                Door {
                                    palette,
                                    tile,
                                    coords: t.warp.unwrap().0,
                                    open: false,
                                    accumulator: 0,
                                },
                            ),
                            ..t
                        })
                        &&& after == shown(p, true)
                    } else {
                        &&& next == (WarpTransition { alpha: 0, faded: false, ..t })
                        &&& walks_on(p, after, false)
                    },
                    None => {
                        &&& next == (WarpTransition { alpha: 0, faded: false, ..t })
                        &&& after == shown(p, false)
                    },
                }
            } else {
                next == (WarpTransition { alpha: 0, faded: false, ..t }) && after == p
            }
        } else {
            next == (WarpTransition { alpha: (t.alpha - FADE_IN_RATE * delta) as u64, ..t }) && after
                == p
        }
    } else {
        match t.door {
            Some(door) => {
                &&& r.is_none()
                &&& if door.open {
                    // The open door waits for the player to pass, hides a
                    // player that goes in, and swings shut.
                    if p.character.spec_moving() {
                        next == t && after == p
                    } else {
                        &&& after == if door.accumulator == DOOR_MAX && !t.warped {
                            shown(p, true)
                        } else {
                            p
                        }
                        &&& next == (WarpTransition {
                            door: if DOOR_RATE * delta >= door.accumulator {
                                None
                            } else {
                                Some(
                                    Door {
                                        accumulator: (door.accumulator - DOOR_RATE * delta) as u64,
                                        ..door
                                    },
                                )
                            },
                            ..t
                        })
                    }
                } else if door.accumulator < DOOR_MAX {
                    // The door swings open. When it is open, a player that
                    // goes in walks through it, and a player that comes out
                    // is shown.
                    if DOOR_RATE * delta >= DOOR_MAX - door.accumulator {
                        &&& next == (WarpTransition {
                            door: Some(Door { accumulator: DOOR_MAX, open: true, ..door }),
                            ..t
                        })
                        &&& if !t.warped || (t.warp.is_some() && t.warp.unwrap().1) {
                            walks_on(p, after, if t.warped {
                                false
                            } else {
                                p.character.hidden
                            })
                        } else {
                            after == shown(p, false)
                        }
                    } else {
                        &&& next == (WarpTransition {
                            door: Some(
                                Door {
                                    accumulator: (door.accumulator + DOOR_RATE * delta) as u64,
                                    ..door
                                },
                            ),
                            ..t
                        })
                        &&& after == p
                    }
                } else {
                    next == t && after == p
                }
            },
            None => if t.warped {
                // All is done: the player can move again.
                &&& r.is_none()
                &&& next == (WarpTransition { alive: false, ..t })
                &&& after == (PlayerCharacter {
                    character: Character { frozen: false, ..p.character },
                    input_frozen: t.freeze,
                    ..p
                })
            } else if t.alpha >= ALPHA_MAX || FADE_OUT_RATE * delta >= ALPHA_MAX - t.alpha {
                // The cover is full: the warp that waits is carried out.
                match p.world.warp {
                    Some(destination) => {
                        &&& r == Some(true)
                        &&& next == (WarpTransition {
                            alpha: ALPHA_MAX,
                            faded: true,
                            warped: true,
                            warp: Some((destination.position.coords, false)),
                            ..t
                        })
                        &&& relocated(p, after, maps, destination)
                    },
                    None => {
                        &&& r.is_none()
                        &&& next == (WarpTransition { alpha: ALPHA_MAX, faded: true, ..t })
                        &&& after == p
                    },
                }
            } else {
                &&& r.is_none()
                &&& next == (WarpTransition { alpha: (t.alpha + FADE_OUT_RATE * delta) as u64, ..t })
                &&& after == p
            },
        }
    }
}

/// The player after the warp that waited was carried out: no warp waits,
/// the player is shown, and it is where the warp leads if that map is
/// known.
pub open spec fn relocated(
    p: PlayerCharacter,
    after: PlayerCharacter,
    maps: Map<Location, WorldMap>,
    destination: WarpDestination,
) -> bool {
    let taken = PlayerCharacter {
        world: PlayerWorld { warp: None, ..p.world },
        character: Character { hidden: false, ..p.character },
        ..p
    };
    if maps.contains_key(destination.location) {
        warped(taken, after, destination)
    } else {
        after == taken
    }
}

/// The cover stays between nothing and full cover, and the door between
/// shut and fully open, whatever the transition goes through.
pub proof fn lemma_transition_ranges(t: WarpTransition)
    requires
        t.wf(),
    ensures
        0 <= t.alpha <= ALPHA_MAX,
        t.door.is_some() ==> 0 <= t.door.unwrap().accumulator <= DOOR_MAX,
{
}

/// A transition is on its way with the player: while the player has not
/// been put anywhere, a warp waits for it.
pub open spec fn on_its_way(t: WarpTransition, p: PlayerCharacter) -> bool {
    &&& t.wf()
    &&& t.alive
    &&& !t.warped ==> p.world.warp.is_some() && !t.faded
    &&& p.character.offset < TILE_UNITS
}

/// A transition that is on its way comes to its end: in every frame of a
/// length above zero, in which first the player gets ahead with its step
/// and then the transition goes on, either the stage of the transition
/// falls, or the stage stays and what is left to do in it shrinks. As
/// both are natural numbers, this cannot go on for ever: the transition is
/// idle after finitely many frames.
pub proof fn lemma_transition_ends(
    t: WarpTransition,
    next: WarpTransition,
    p: PlayerCharacter,
    ahead: PlayerCharacter,
    after: PlayerCharacter,
    maps: Map<Location, WorldMap>,
    tiles: Seq<PaletteTileData>,
    delta: u32,
    r: Option<bool>,
)
    requires
        delta > 0,
        on_its_way(t, p),
        ahead == (PlayerCharacter { character: ahead.character, ..p }),
        went_by(p.character, ahead.character, delta),
        updated(t, next, ahead, after, maps, tiles, delta, r),
        next.wf(),
    ensures
        stage(next) < stage(t) || (stage(next) == stage(t) && left_in_stage(next, after.character)
            < left_in_stage(t, p.character)),
        next.alive ==> on_its_way(next, after),
        !next.alive ==> next.door.is_none(),
{
    let c = p.character;
    let c1 = ahead.character;
    let queue = c.pathing.queue@;
    assert(c.movement.spec_speed() >= 60);
    assert(crate::character::advance(c.movement.spec_speed(), delta) >= 60) by (nonlinear_arith)
        requires
            c.movement.spec_speed() >= 60,
            delta >= 1,
    ;
    if queue.len() > 0 {
        if c.completes(delta) {
            assert(c1.pathing.queue@.len() == queue.len() - 1);
            assert((queue.len() - 1) * TILE_UNITS == queue.len() * TILE_UNITS - TILE_UNITS)
                by (nonlinear_arith);
        }
        assert(steps_left(c1) < steps_left(c));
    } else {
        assert(steps_left(c1) == 0 && steps_left(c) == 0);
    }
}

/// One frame of a transition: first the player gets ahead with its step,
/// as `ahead`, then the transition goes on, with the result `r`.
pub open spec fn framed(
    t: WarpTransition,
    next: WarpTransition,
    p: PlayerCharacter,
    ahead: PlayerCharacter,
    after: PlayerCharacter,
    maps: Map<Location, WorldMap>,
    tiles: Seq<PaletteTileData>,
    delta: u32,
    r: Option<bool>,
) -> bool {
    &&& ahead == (PlayerCharacter { character: ahead.character, ..p })
    &&& went_by(p.character, ahead.character, delta)
    &&& updated(t, next, ahead, after, maps, tiles, delta, r)
    &&& next.wf()
}

/// Whether `states` is a run of a transition with the player: the state
/// after each frame in which the transition is alive is what the frame
/// makes of the state before it.
pub open spec fn runs(
    states: spec_fn(nat) -> (WarpTransition, PlayerCharacter),
    maps: Map<Location, WorldMap>,
    tiles: Seq<PaletteTileData>,
    delta: u32,
) -> bool {
    forall|i: nat|
        (#[trigger] states(i)).0.alive ==> exists|ahead: PlayerCharacter, r: Option<bool>| #[trigger]
            framed(
                states(i).0,
                states(i + 1).0,
                states(i).1,
                ahead,
                states(i + 1).1,
                maps,
                tiles,
                delta,
                r,
            )
}

/// From frame `i` on, a run in which the transition is on its way comes to
/// a frame after which the transition is idle.
pub proof fn lemma_run_ends_from(
    states: spec_fn(nat) -> (WarpTransition, PlayerCharacter),
    maps: Map<Location, WorldMap>,
    tiles: Seq<PaletteTileData>,
    delta: u32,
    i: nat,
)
    requires
        delta > 0,
        runs(states, maps, tiles, delta),
        on_its_way(states(i).0, states(i).1),
    ensures
        exists|n: nat| n > i && !(#[trigger] states(n)).0.alive && states(n).0.door.is_none(),
    decreases stage(states(i).0), left_in_stage(states(i).0, states(i).1.character),
{
    let t = states(i).0;
    let p = states(i).1;
    let next = states(i + 1).0;
    let after = states(i + 1).1;
    let (ahead, r) = choose|ahead: PlayerCharacter, r: Option<bool>| #[trigger]
        framed(t, next, p, ahead, after, maps, tiles, delta, r);
    lemma_transition_ends(t, next, p, ahead, after, maps, tiles, delta, r);
    if next.alive {
        lemma_run_ends_from(states, maps, tiles, delta, i + 1);
        let n = choose|n: nat| n > i + 1 && !(#[trigger] states(n)).0.alive && states(
            n,
        ).0.door.is_none();
        assert(n > i && !states(n).0.alive && states(n).0.door.is_none());
    } else {
        let n: nat = i + 1;
        assert(n > i && !states(n).0.alive && states(n).0.door.is_none());
    }
}

/// A transition that is on its way is idle after finitely many frames:
/// in every run with frames of one length above zero there is a number of
/// frames after which the transition is not alive and no door swings.
pub proof fn lemma_transition_returns_to_idle(
    states: spec_fn(nat) -> (WarpTransition, PlayerCharacter),
    maps: Map<Location, WorldMap>,
    tiles: Seq<PaletteTileData>,
    delta: u32,
)
    requires
        delta > 0,
        runs(states, maps, tiles, delta),
        on_its_way(states(0).0, states(0).1),
    ensures
        exists|n: nat| !(#[trigger] states(n)).0.alive && states(n).0.door.is_none(),
{
    lemma_run_ends_from(states, maps, tiles, delta, 0);
    let n = choose|n: nat| n > 0 && !(#[trigger] states(n)).0.alive && states(n).0.door.is_none();
    assert(!states(n).0.alive && states(n).0.door.is_none());
}

} // verus!
