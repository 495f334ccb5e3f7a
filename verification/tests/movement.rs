use worldlib::map::Brightness;
use worldlib::map::MapItem;
use worldlib::map::MapObject;
use worldlib::map::WarpDestination;
use worldlib::map::WarpEntry;
use worldlib::map::WorldChunk;
use worldlib::map::WorldMap;
use worldlib::map::WorldMapSettings;
use worldlib::character::Character;
use worldlib::character::Npc;
use worldlib::character::NpcInteract;
use worldlib::movement::can_walk;
use worldlib::movement::classify;
use worldlib::movement::encode;
use worldlib::movement::Connection;
use worldlib::movement::MapMovementResult;
use worldlib::movement::TerrainClass;
use worldlib::movement::CROSSING;
use worldlib::movement::HL1;
use worldlib::movement::HL1_OBSTACLE;
use worldlib::movement::HL2;
use worldlib::movement::HL3;
use worldlib::movement::HL4;
use worldlib::movement::OBSTACLE;
use worldlib::movement::WATER;
use worldlib::movement::WATER_OBSTACLE;
use worldlib::positions::BoundingBox;
use worldlib::positions::Coordinate;
use worldlib::positions::Destination;
use worldlib::positions::Direction;
use worldlib::positions::Location;
use worldlib::positions::Position;

fn plain_map(id: u128, width: i32, height: i32, movements: Vec<u8>) -> WorldMap {
    let tiles: Vec<u16> = (0..movements.len()).map(|i| i as u16).collect();
    WorldMap {
        id: Location::new(id),
        name: String::from("map"),
        music: 1,
        width,
        height,
        palettes: [0, 1],
        tiles,
        movements,
        border: [0; 4],
        chunk: None,
        warps: Vec::new(),
        wild: None,
        npcs: Vec::new(),
        objects: Vec::new(),
        items: Vec::new(),
        settings: WorldMapSettings::default(),
    }
}

fn standing_npc(id: u128, x: i32, y: i32) -> Npc {
    Npc {
        id,
        character: Character::new(Position {
            coords: Coordinate::new(x, y),
            direction: Direction::Down,
            elevation: 0,
        }),
        origin: None,
        movement: Vec::new(),
        interact: NpcInteract::Nothing,
        trainer: None,
        group: 0,
    }
}

#[test]
fn can_move_is_a_function_of_its_arguments() {
    for elevation in 0..=255u8 {
        for code in 0..=255u8 {
            let first = WorldMap::can_move(elevation, code);
            let second = WorldMap::can_move(elevation, code);
            assert_eq!(first, second);
        }
    }
}

#[test]
fn can_move_follows_the_rules() {
    // an obstacle is never passable
    for elevation in 0..=255u8 {
        assert!(!WorldMap::can_move(elevation, OBSTACLE));
        assert!(!WorldMap::can_move(elevation, WATER_OBSTACLE));
        assert!(!WorldMap::can_move(elevation, HL1_OBSTACLE));
        // a crossing always is
        assert!(WorldMap::can_move(elevation, CROSSING));
    }
    // the own level is passable, another is not
    assert!(WorldMap::can_move(2, HL1));
    assert!(!WorldMap::can_move(2, HL2));
    assert!(WorldMap::can_move(3, HL2));
    assert!(!WorldMap::can_move(3, HL1));
    assert!(WorldMap::can_move(4, HL3));
    assert!(WorldMap::can_move(5, HL4));
    // without an elevation, and from the water level, every open tile is
    assert!(WorldMap::can_move(0, HL3));
    assert!(WorldMap::can_move(1, HL2));
    // water is passable as far as the elevation goes
    assert!(WorldMap::can_move(3, WATER));
    // an elevation that no code has matches no level
    assert!(!WorldMap::can_move(66, HL1));
}

#[test]
fn change_elevation_only_on_levels() {
    let mut elevation = 3u8;
    WorldMap::change_elevation(&mut elevation, CROSSING);
    assert_eq!(elevation, 3);
    WorldMap::change_elevation(&mut elevation, OBSTACLE);
    assert_eq!(elevation, 3);
    WorldMap::change_elevation(&mut elevation, HL1_OBSTACLE);
    assert_eq!(elevation, 3);
    WorldMap::change_elevation(&mut elevation, HL1);
    assert_eq!(elevation, 2);
    WorldMap::change_elevation(&mut elevation, WATER);
    assert_eq!(elevation, 1);
    WorldMap::change_elevation(&mut elevation, HL4);
    assert_eq!(elevation, 5);
}

#[test]
fn terrain_classes_round_trip() {
    assert_eq!(classify(CROSSING), TerrainClass::Crossing);
    assert_eq!(classify(OBSTACLE), TerrainClass::Obstacle);
    assert_eq!(classify(WATER), TerrainClass::Water);
    assert_eq!(classify(WATER_OBSTACLE), TerrainClass::WaterObstacle);
    assert_eq!(classify(HL1), TerrainClass::Elevation(1, false));
    assert_eq!(classify(HL1_OBSTACLE), TerrainClass::Elevation(1, true));
    assert_eq!(classify(HL4), TerrainClass::Elevation(4, false));
    assert_eq!(encode(TerrainClass::Crossing), Some(CROSSING));
    assert_eq!(encode(TerrainClass::Water), Some(WATER));
    assert_eq!(encode(TerrainClass::Elevation(2, false)), Some(HL2));
    assert_eq!(encode(TerrainClass::Elevation(3, true)), Some(0x11));
    assert_eq!(encode(TerrainClass::Elevation(0, false)), None);
    assert_eq!(encode(TerrainClass::Elevation(63, false)), None);
    for code in [CROSSING, OBSTACLE, WATER, WATER_OBSTACLE, HL1, HL2, HL3, HL4, 0x15] {
        assert_eq!(encode(classify(code)), Some(code));
    }
    assert!(can_walk(HL2));
    assert!(!can_walk(OBSTACLE));
}

#[test]
fn map_bounds_are_strict() {
    let map = plain_map(1, 3, 2, vec![0; 6]);
    assert!(map.validate());
    assert!(map.in_bounds(Coordinate::new(0, 0)));
    assert!(map.in_bounds(Coordinate::new(2, 1)));
    assert!(!map.in_bounds(Coordinate::new(3, 1)));
    assert!(!map.in_bounds(Coordinate::new(2, 2)));
    assert!(!map.in_bounds(Coordinate::new(-1, 0)));
    assert!(!map.in_bounds(Coordinate::new(0, -1)));
}

#[test]
fn map_lookups_are_row_major() {
    let map = plain_map(1, 3, 2, vec![0, 1, 4, 8, 12, 16]);
    assert_eq!(map.tile(Coordinate::new(0, 0)), Some(0));
    assert_eq!(map.tile(Coordinate::new(2, 0)), Some(2));
    assert_eq!(map.tile(Coordinate::new(0, 1)), Some(3));
    assert_eq!(map.tile(Coordinate::new(2, 1)), Some(5));
    assert_eq!(map.tile(Coordinate::new(3, 0)), None);
    assert_eq!(map.local_movement(Coordinate::new(1, 0)), Some(1));
    assert_eq!(map.local_movement(Coordinate::new(1, 1)), Some(12));
    assert_eq!(map.local_movement(Coordinate::new(3, 0)), None);
    assert_eq!(map.local_movement(Coordinate::new(-1, 0)), None);
    // the unbounded lookup counts on into the next row
    assert_eq!(map.unbounded_movement(Coordinate::new(3, 0)), Some(8));
    assert_eq!(map.unbounded_movement(Coordinate::new(0, 2)), None);
    assert_eq!(map.unbounded_movement(Coordinate::new(-1, 1)), None);
}

#[test]
fn map_npcs_are_obstacles() {
    let mut map = plain_map(1, 3, 2, vec![0; 6]);
    map.npcs.push(standing_npc(1, 1, 1));
    assert!(map.npc_at(Coordinate::new(1, 1)));
    assert!(!map.npc_at(Coordinate::new(0, 1)));
    assert_eq!(map.local_movement(Coordinate::new(1, 1)), Some(OBSTACLE));
    assert_eq!(map.local_movement(Coordinate::new(0, 1)), Some(0));
    // the grid itself is as it was
    assert_eq!(map.movements, vec![0; 6]);
}

#[test]
fn map_without_chunk_has_hard_bounds() {
    let map = plain_map(1, 2, 2, vec![0, 4, 8, 1]);
    for c in [Coordinate::new(-1, 0), Coordinate::new(2, 0), Coordinate::new(0, -1), Coordinate::new(0, 2)] {
        assert!(matches!(map.chunk_movement(c), MapMovementResult::Option(None)));
    }
    assert!(matches!(map.chunk_movement(Coordinate::new(1, 0)), MapMovementResult::Option(Some(4))));
    assert!(matches!(map.chunk_movement(Coordinate::new(1, 1)), MapMovementResult::Option(Some(1))));
}

#[test]
fn map_with_chunk_hands_out_the_edge() {
    let mut map = plain_map(1, 2, 2, vec![0, 4, 8, 1]);
    let right = vec![Connection(Location::new(2), 0), Connection(Location::new(3), 5)];
    map.chunk = Some(WorldChunk { up: None, down: Some(Vec::new()), left: None, right: Some(right.clone()) });
    match map.chunk_movement(Coordinate::new(2, 1)) {
        MapMovementResult::Chunk(direction, offset, list) => {
            assert_eq!(direction, Direction::Right);
            assert_eq!(offset, 1);
            assert_eq!(list, right.as_slice());
        }
        MapMovementResult::Option(_) => panic!("the edge has connections"),
    }
    match map.chunk_movement(Coordinate::new(1, 2)) {
        MapMovementResult::Chunk(direction, offset, list) => {
            assert_eq!(direction, Direction::Down);
            assert_eq!(offset, 1);
            assert!(list.is_empty());
        }
        MapMovementResult::Option(_) => panic!("the edge has an entry"),
    }
    // an edge without an entry is a hard bound
    assert!(matches!(map.chunk_movement(Coordinate::new(-1, 0)), MapMovementResult::Option(None)));
    assert!(matches!(map.chunk_movement(Coordinate::new(0, -1)), MapMovementResult::Option(None)));
    assert!(matches!(map.chunk_movement(Coordinate::new(0, 1)), MapMovementResult::Option(Some(8))));
    assert!(map.contains(&Location::new(1)));
    assert!(map.contains(&Location::new(3)));
    assert!(!map.contains(&Location::new(4)));
}

#[test]
fn map_warp_at_takes_the_first_zone() {
    let mut map = plain_map(1, 5, 5, vec![0; 25]);
    let to_b = WarpDestination {
        location: Location::new(2),
        position: Destination { coords: Coordinate::new(1, 1), direction: None },
    };
    let to_c = WarpDestination {
        location: Location::new(3),
        position: Destination { coords: Coordinate::new(2, 2), direction: Some(Direction::Up) },
    };
    map.warps.push(WarpEntry {
        location: BoundingBox { min: Coordinate::new(3, 3), max: Coordinate::new(3, 3) },
        destination: to_b,
    });
    map.warps.push(WarpEntry {
        location: BoundingBox { min: Coordinate::new(3, 3), max: Coordinate::new(4, 4) },
        destination: to_c,
    });
    assert!(map.validate());
    assert_eq!(map.warp_at(Coordinate::new(3, 3)), Some(&to_b));
    assert_eq!(map.warp_at(Coordinate::new(4, 4)), Some(&to_c));
    assert_eq!(map.warp_at(Coordinate::new(2, 3)), None);
}

#[test]
fn map_validate_rejects_what_does_not_fit() {
    assert!(!plain_map(1, 3, 2, vec![0; 5]).validate());
    assert!(!plain_map(1, -1, 2, Vec::new()).validate());
    let mut short_tiles = plain_map(1, 2, 2, vec![0; 4]);
    short_tiles.tiles.pop();
    assert!(!short_tiles.validate());
    let mut outside = plain_map(1, 2, 2, vec![0; 4]);
    outside.warps.push(WarpEntry {
        location: BoundingBox { min: Coordinate::new(1, 1), max: Coordinate::new(2, 1) },
        destination: WarpDestination {
            location: Location::new(2),
            position: Destination { coords: Coordinate::new(0, 0), direction: None },
        },
    });
    assert!(!outside.validate());
    let mut twins = plain_map(1, 2, 2, vec![0; 4]);
    twins.npcs.push(standing_npc(9, 0, 0));
    twins.npcs.push(standing_npc(9, 1, 1));
    assert!(!twins.validate());
    assert!(plain_map(1, 0, 0, Vec::new()).validate());
}

#[test]
fn map_objects_and_items_first_match() {
    let mut map = plain_map(1, 3, 3, vec![0; 9]);
    let tree = MapObject { coordinate: Coordinate::new(1, 1), group: 5 };
    map.objects.push(MapObject { coordinate: Coordinate::new(0, 0), group: 4 });
    map.objects.push(tree);
    map.objects.push(MapObject { coordinate: Coordinate::new(1, 1), group: 6 });
    let ball = MapItem { coordinate: Coordinate::new(2, 2), item: 77, count: 3 };
    map.items.push(ball);
    assert_eq!(map.object_at(&Coordinate::new(1, 1)), Some(tree));
    assert_eq!(map.object_at(&Coordinate::new(2, 1)), None);
    assert_eq!(map.item_at(&Coordinate::new(2, 2)), Some(ball));
    assert_eq!(map.item_at(&Coordinate::new(1, 1)), None);
    assert_eq!(Brightness::default(), Brightness::Day);
}
