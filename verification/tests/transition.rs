use worldlib::character::Character;
use worldlib::groups::Groups;
use worldlib::manager::WildChances;
use worldlib::manager::WorldMapData;
use worldlib::map::WarpDestination;
use worldlib::map::WorldMap;
use worldlib::map::WorldMapSettings;
use worldlib::maps::Maps;
use worldlib::player::PlayerCharacter;
use worldlib::positions::Coordinate;
use worldlib::positions::Destination;
use worldlib::positions::Direction;
use worldlib::positions::Location;
use worldlib::positions::Position;
use worldlib::tile::PaletteTileData;
use worldlib::tile::WarpTile;
use worldlib::transition::Door;
use worldlib::transition::WarpTransition;
use worldlib::transition::ALPHA_MAX;
use worldlib::transition::DOOR_MAX;

const DOOR_TILE: u16 = 40;
const STAIR_TILE: u16 = 41;

fn room(id: u128, door_at: Option<(i32, i32, u16)>) -> WorldMap {
    let mut tiles = vec![0u16; 16];
    if let Some((x, y, tile)) = door_at {
        tiles[(x + y * 4) as usize] = tile;
    }
    WorldMap {
        id: Location::new(id),
        name: String::from("room"),
        music: id,
        width: 4,
        height: 4,
        palettes: [0, 1],
        tiles,
        movements: vec![0; 16],
        border: [0; 4],
        chunk: None,
        warps: Vec::new(),
        wild: None,
        npcs: Vec::new(),
        objects: Vec::new(),
        items: Vec::new(),
        settings: WorldMapSettings::default(),
    }
}

fn house(destination_tile: Option<u16>) -> WorldMapData {
    let mut maps = Maps::new();
    maps.insert(Location::new(1), room(1, Some((3, 3, DOOR_TILE))));
    maps.insert(Location::new(2), room(2, destination_tile.map(|t| (1, 1, t))));
    WorldMapData {
        maps,
        tiles: vec![PaletteTileData {
            palette: 0,
            wild: Vec::new(),
            cliffs_up: Vec::new(),
            cliffs_down: Vec::new(),
            cliffs_left: Vec::new(),
            cliffs_right: Vec::new(),
            forwarding: Vec::new(),
            warp: vec![(DOOR_TILE, WarpTile::Door), (STAIR_TILE, WarpTile::Stair)],
        }],
        npcs: Groups::new(),
        wild: WildChances { land: 0, water: 0 },
        spawn: (Location::new(1), Position::default()),
    }
}

fn traveller() -> PlayerCharacter {
    let mut player = PlayerCharacter::new(
        Location::new(1),
        Position { coords: Coordinate::new(3, 2), direction: Direction::Down, elevation: 0 },
    );
    player.world.warp = Some(WarpDestination {
        location: Location::new(2),
        position: Destination { coords: Coordinate::new(1, 1), direction: None },
    });
    player
}

fn in_range(t: &WarpTransition) {
    assert!(t.alpha <= ALPHA_MAX);
    if let Some(door) = t.door {
        assert!(door.accumulator <= DOOR_MAX);
    }
}

fn run_to_the_end(
    t: &mut WarpTransition,
    world: &WorldMapData,
    player: &mut PlayerCharacter,
    delta: u32,
) -> (usize, usize) {
    let mut frames = 0;
    let mut relocations = 0;
    while t.alive() {
        player.character.do_move(delta);
        if t.update(world, player, delta) == Some(true) {
            relocations += 1;
        }
        in_range(t);
        frames += 1;
        assert!(frames < 20_000_000, "the transition does not end");
    }
    (frames, relocations)
}

#[test]
fn transition_starts_idle() {
    let t = WarpTransition::new();
    assert!(!t.alive());
    assert_eq!(t.alpha, 0);
    assert!(t.door.is_none());
    assert!(!t.faded);
    assert!(!t.warped);
}

#[test]
fn queue_begins_only_on_a_door() {
    let world = house(None);
    let mut player = traveller();
    let mut t = WarpTransition::new();
    t.queue(&world, &mut player, 0, STAIR_TILE, Coordinate::new(3, 3));
    assert!(!t.alive());
    assert!(!player.input_frozen);
    t.queue(&world, &mut player, 1, DOOR_TILE, Coordinate::new(3, 3));
    assert!(!t.alive());
    t.queue(&world, &mut player, 0, DOOR_TILE, Coordinate::new(3, 3));
    assert!(t.alive());
    assert!(player.input_frozen);
    assert!(!t.freeze);
    assert_eq!(t.door, Some(Door::new(0, DOOR_TILE, Coordinate::new(3, 3))));
}

#[test]
fn door_swings_open_at_six_frames_a_second() {
    let world = house(None);
    let mut player = traveller();
    let mut t = WarpTransition::new();
    t.queue(&world, &mut player, 0, DOOR_TILE, Coordinate::new(3, 3));
    assert_eq!(t.update(&world, &mut player, 100_000), None);
    assert_eq!(t.door.unwrap().accumulator, 600_000);
    assert_eq!(t.door.unwrap().frame(), 0);
    assert!(!t.door.unwrap().open);
    for _ in 0..5 {
        t.update(&world, &mut player, 100_000);
    }
    assert_eq!(t.door.unwrap().accumulator, 3_600_000);
    assert_eq!(t.door.unwrap().frame(), 3);
    assert!(player.character.pathing.queue.is_empty());
    // the next frame would pass the end: the door is open, and the player walks in
    t.update(&world, &mut player, 100_000);
    assert_eq!(t.door.unwrap().accumulator, DOOR_MAX);
    assert!(t.door.unwrap().open);
    assert_eq!(player.character.pathing.queue, vec![Direction::Down]);
    // the open door waits for the player
    t.update(&world, &mut player, 100_000);
    assert_eq!(t.door.unwrap().accumulator, DOOR_MAX);
    assert!(!player.character.hidden);
}

#[test]
fn entrance_through_a_door_runs_to_its_end() {
    for delta in [1u32, 7, 1_000, 16_667, 100_000, 1_000_000, u32::MAX] {
        let world = house(Some(DOOR_TILE));
        let mut player = traveller();
        let mut t = WarpTransition::new();
        t.queue(&world, &mut player, 0, DOOR_TILE, Coordinate::new(3, 3));
        let (_, relocations) = run_to_the_end(&mut t, &world, &mut player, delta);
        assert_eq!(relocations, 1);
        assert_eq!(player.location, Location::new(2));
        assert_eq!(player.character.position.coords, Coordinate::new(1, 1));
        assert!(!player.input_frozen);
        assert!(!player.character.hidden);
        assert!(player.world.warp.is_none());
        assert!(t.door.is_none());
        assert_eq!(t.alpha, 0);
    }
}

#[test]
fn arrival_on_a_stair_walks_on() {
    let world = house(Some(STAIR_TILE));
    let mut player = traveller();
    let mut t = WarpTransition::new();
    t.queue(&world, &mut player, 0, DOOR_TILE, Coordinate::new(3, 3));
    run_to_the_end(&mut t, &world, &mut player, 50_000);
    assert_eq!(player.location, Location::new(2));
    // one step on from (1, 1), still waiting or taken
    let ahead = Coordinate::new(1, 2);
    let there = player.character.position.coords;
    assert!(there == ahead || player.character.pathing.queue == vec![Direction::Down]);
}

#[test]
fn fade_out_fills_in_two_fifths_of_a_second() {
    let world = house(None);
    let mut player = traveller();
    let mut t = WarpTransition::new();
    t.spawn();
    assert_eq!(t.update(&world, &mut player, 100_000), None);
    assert_eq!(t.alpha, 500_000);
    assert_eq!(t.update(&world, &mut player, 200_000), None);
    assert_eq!(t.alpha, 1_500_000);
    // the fourth tenth fills the cover: the player is put where the warp leads
    assert_eq!(t.update(&world, &mut player, 100_000), Some(true));
    assert_eq!(t.alpha, ALPHA_MAX);
    assert!(t.faded);
    assert!(t.warped);
    assert_eq!(t.warp, Some((Coordinate::new(1, 1), false)));
    assert_eq!(player.location, Location::new(2));
    assert_eq!(player.character.position.coords, Coordinate::new(1, 1));
    // fading in takes a third of a second
    assert_eq!(t.update(&world, &mut player, 100_000), None);
    assert_eq!(t.alpha, 1_400_000);
    t.update(&world, &mut player, 233_333);
    assert_eq!(t.alpha, 2);
    t.update(&world, &mut player, 1);
    assert_eq!(t.alpha, 0);
    assert!(!t.faded);
}

#[test]
fn warp_to_an_unknown_map_leaves_the_player() {
    let world = house(None);
    let mut player = traveller();
    player.world.warp = Some(WarpDestination {
        location: Location::new(99),
        position: Destination { coords: Coordinate::new(1, 1), direction: None },
    });
    let mut t = WarpTransition::new();
    t.spawn();
    assert_eq!(t.update(&world, &mut player, 400_000), Some(true));
    assert_eq!(player.location, Location::new(1));
    assert_eq!(player.character.position.coords, Coordinate::new(3, 2));
    assert!(player.world.warp.is_none());
    let mut frames = 0;
    while t.alive() {
        t.update(&world, &mut player, 16_667);
        in_range(&t);
        frames += 1;
        assert!(frames < 1000);
    }
}

#[test]
fn reset_and_despawn_keep_the_rest() {
    let mut t = WarpTransition::new();
    t.alpha = 77;
    t.faded = true;
    t.warped = true;
    t.freeze = true;
    t.spawn();
    assert!(t.alive);
    assert_eq!(t.alpha, 0);
    assert!(!t.faded && !t.warped);
    assert!(t.freeze);
    t.despawn();
    assert!(!t.alive);
    let c = Character::new(Position::default());
    assert!(!c.moving());
}
