use worldlib::actions::InputEvent;
use worldlib::actions::MessageColor;
use worldlib::actions::WorldAction;
use worldlib::character::Character;
use worldlib::character::Movement;
use worldlib::character::Npc;
use worldlib::character::NpcInteract;
use worldlib::character::NpcMovement;
use worldlib::character::PartyPokemon;
use worldlib::character::Trainer;
use worldlib::character::TrainerDisable;
use worldlib::groups::Groups;
use worldlib::manager::GroupTrainer;
use worldlib::manager::NpcGroup;
use worldlib::manager::WildChances;
use worldlib::manager::WorldMapData;
use worldlib::manager::WorldMapManager;
use worldlib::manager::CUT;
use worldlib::manager::SURF;
use worldlib::manager::TREE;
use worldlib::map::MapItem;
use worldlib::map::MapObject;
use worldlib::map::WarpDestination;
use worldlib::map::WarpEntry;
use worldlib::map::WildEntries;
use worldlib::map::WildPokemon;
use worldlib::map::WorldChunk;
use worldlib::map::WorldMap;
use worldlib::map::WorldMapSettings;
use worldlib::maps::Maps;
use worldlib::movement::Connection;
use worldlib::movement::HL1;
use worldlib::movement::OBSTACLE;
use worldlib::movement::WATER;
use worldlib::player::BattleEntry;
use worldlib::player::ItemStack;
use worldlib::player::PlayerCharacter;
use worldlib::player::TrainerEntry;
use worldlib::positions::BoundingBox;
use worldlib::positions::Coordinate;
use worldlib::positions::Destination;
use worldlib::positions::Direction;
use worldlib::positions::Location;
use worldlib::positions::Position;
use worldlib::tile::PaletteTileData;
use worldlib::tile::WarpTile;
use worldlib::transition::WarpTransition;

const A: u128 = 0xA;
const B: u128 = 0xB;
const C: u128 = 0xC;

fn field(id: u128, width: i32, height: i32) -> WorldMap {
    let n = (width * height) as usize;
    WorldMap {
        id: Location::new(id),
        name: String::from("field"),
        music: id + 100,
        width,
        height,
        palettes: [0, 1],
        tiles: vec![0; n],
        movements: vec![0; n],
        border: [0; 4],
        chunk: None,
        warps: Vec::new(),
        wild: None,
        npcs: Vec::new(),
        objects: Vec::new(),
        items: Vec::new(),
        settings: WorldMapSettings::default(),
    }
}

fn set_code(map: &mut WorldMap, x: i32, y: i32, code: u8) {
    let i = (x + y * map.width) as usize;
    map.movements[i] = code;
}

fn set_tile(map: &mut WorldMap, x: i32, y: i32, tile: u16) {
    let i = (x + y * map.width) as usize;
    map.tiles[i] = tile;
}

fn palette() -> PaletteTileData {
    PaletteTileData {
        palette: 0,
        wild: vec![7],
        cliffs_up: Vec::new(),
        cliffs_down: vec![9],
        cliffs_left: Vec::new(),
        cliffs_right: Vec::new(),
        forwarding: vec![8],
        warp: vec![(40, WarpTile::Door)],
    }
}

fn world_of(maps: Vec<WorldMap>) -> WorldMapManager {
    let mut all = Maps::new();
    for map in maps {
        all.insert(map.id, map);
    }
    let mut groups = Groups::new();
    groups.insert(1, NpcGroup { id: 1, message: MessageColor::Blue, trainer: Some(GroupTrainer { music: Some(55) }) });
    groups.insert(2, NpcGroup { id: 2, message: MessageColor::Red, trainer: None });
    WorldMapManager::new(WorldMapData {
        maps: all,
        tiles: vec![palette()],
        npcs: groups,
        wild: WildChances { land: 255, water: 0 },
        spawn: (Location::new(A), Position { coords: Coordinate::new(0, 0), direction: Direction::Up, elevation: 0 }),
    })
}

fn player_at(map: u128, x: i32, y: i32) -> PlayerCharacter {
    PlayerCharacter::new(
        Location::new(map),
        Position { coords: Coordinate::new(x, y), direction: Direction::Down, elevation: 0 },
    )
}

fn member(moves: Vec<u128>) -> PartyPokemon {
    PartyPokemon { moves, hp: 3, max_hp: 20 }
}

fn villager(id: u128, x: i32, y: i32) -> Npc {
    Npc {
        id,
        character: Character::new(Position {
            coords: Coordinate::new(x, y),
            direction: Direction::Down,
            elevation: 0,
        }),
        origin: None,
        movement: Vec::new(),
        interact: NpcInteract::Message(vec![vec![String::from("Hello!"), String::from("Nice day.")]]),
        trainer: None,
        group: 2,
    }
}

fn trainer(id: u128, x: i32, y: i32, facing: Direction, range: u8) -> Npc {
    let mut npc = villager(id, x, y);
    npc.character.position.direction = facing;
    npc.interact = NpcInteract::Nothing;
    npc.group = 1;
    npc.trainer = Some(Trainer {
        tracking: Some(range),
        encounter: vec![vec![String::from("Fight me!")]],
        disable: TrainerDisable::DisableSelf,
        party: vec![member(Vec::new())],
    });
    npc
}

fn kinds(actions: &[WorldAction]) -> Vec<&'static str> {
    actions
        .iter()
        .map(|a| match a {
            WorldAction::PlayMusic(_) => "music",
            WorldAction::PlayerJump => "jump",
            WorldAction::BeginWarpTransition(_) => "warp",
            WorldAction::BreakObject(_) => "break",
            WorldAction::Battle(_) => "battle",
            WorldAction::Message(_, _) => "message",
            WorldAction::OnTile => "tile",
        })
        .collect()
}

#[test]
fn water_without_surf_is_not_entered() {
    let mut map = field(A, 8, 8);
    set_code(&mut map, 5, 6, WATER);
    let mut world = world_of(vec![map]);
    let mut player = player_at(A, 5, 5);
    world.try_move(&mut player, Direction::Down);
    assert!(player.character.pathing.queue.is_empty());
    assert_eq!(player.character.position.elevation, 0);
    assert_eq!(player.character.position.coords, Coordinate::new(5, 5));
    assert_eq!(player.character.movement, Movement::Walking);
    assert!(player.world.warp.is_none());
    assert!(world.take_actions().is_empty());
}

#[test]
fn water_with_surf_is_swum() {
    let mut map = field(A, 8, 8);
    set_code(&mut map, 5, 6, WATER);
    let mut world = world_of(vec![map]);
    let mut player = player_at(A, 5, 5);
    player.trainer.party.push(member(vec![3, SURF]));
    world.try_move(&mut player, Direction::Down);
    assert_eq!(player.character.pathing.queue, vec![Direction::Down]);
    assert_eq!(player.character.movement, Movement::Swimming);
    assert_eq!(player.character.position.elevation, 1);
    // back on land the player walks again
    player.character.pathing.clear();
    world.try_move(&mut player, Direction::Up);
    assert_eq!(player.character.movement, Movement::Walking);
    assert_eq!(player.character.position.elevation, 1);
    assert_eq!(player.character.position.direction, Direction::Up);
}

#[test]
fn step_onto_a_warp_zone_begins_the_transition() {
    let mut a = field(A, 8, 8);
    a.warps.push(WarpEntry {
        location: BoundingBox { min: Coordinate::new(3, 3), max: Coordinate::new(3, 3) },
        destination: WarpDestination {
            location: Location::new(B),
            position: Destination { coords: Coordinate::new(1, 1), direction: None },
        },
    });
    let mut world = world_of(vec![a, field(B, 4, 4)]);
    let mut player = player_at(A, 3, 2);
    world.try_move(&mut player, Direction::Down);
    let actions = world.take_actions();
    assert_eq!(actions.len(), 1);
    assert!(matches!(actions[0], WorldAction::BeginWarpTransition(c) if c == Coordinate::new(3, 3)));
    assert!(player.character.pathing.queue.is_empty());
    assert_eq!(player.location, Location::new(A));
    let pending = player.world.warp.expect("the warp waits");
    assert_eq!(pending.location, Location::new(B));
    // the cover fades out; when it is full the player is on the other map
    let mut transition = WarpTransition::new();
    transition.spawn();
    let mut moved = false;
    for _ in 0..1000 {
        if transition.update(&world.data, &mut player, 16_667) == Some(true) {
            moved = true;
            break;
        }
        assert_eq!(player.location, Location::new(A));
    }
    assert!(moved);
    assert_eq!(player.location, Location::new(B));
    assert_eq!(player.character.position.coords, Coordinate::new(1, 1));
    world.on_warp(&mut player);
    let after = world.take_actions();
    assert!(matches!(after[0], WorldAction::PlayMusic(m) if m == B + 100));
    assert!(matches!(after[1], WorldAction::OnTile));
}

#[test]
fn try_move_queues_a_legal_step() {
    let mut map = field(A, 4, 4);
    set_code(&mut map, 1, 0, HL1);
    set_code(&mut map, 0, 1, OBSTACLE);
    let mut world = world_of(vec![map]);
    let mut player = player_at(A, 0, 0);
    world.try_move(&mut player, Direction::Down);
    assert!(player.character.pathing.queue.is_empty());
    assert_eq!(player.character.position.direction, Direction::Down);
    world.try_move(&mut player, Direction::Right);
    assert_eq!(player.character.pathing.queue, vec![Direction::Right]);
    assert_eq!(player.character.position.elevation, 2);
    // out of the map there is no way
    player.character.pathing.clear();
    world.try_move(&mut player, Direction::Up);
    assert!(player.character.pathing.queue.is_empty());
    // but for who walks through everything
    player.character.noclip = true;
    world.try_move(&mut player, Direction::Up);
    assert_eq!(player.character.pathing.queue, vec![Direction::Up]);
    assert!(world.take_actions().is_empty());
}

#[test]
fn try_move_on_an_unknown_map_only_turns() {
    let mut world = world_of(vec![field(A, 4, 4)]);
    let mut player = player_at(C, 1, 1);
    world.try_move(&mut player, Direction::Left);
    assert_eq!(player.character.position.direction, Direction::Left);
    assert!(player.character.pathing.queue.is_empty());
    assert!(world.take_actions().is_empty());
}

#[test]
fn cliff_asks_for_a_jump() {
    let mut map = field(A, 4, 4);
    set_tile(&mut map, 1, 2, 9);
    let mut world = world_of(vec![map]);
    let mut player = player_at(A, 1, 1);
    world.input(&mut player, InputEvent::Move(Direction::Down));
    assert_eq!(kinds(&world.take_actions()), vec!["jump"]);
    assert!(player.character.pathing.queue.is_empty());
    // from below the same tile is a plain tile
    let mut other = player_at(A, 1, 3);
    world.input(&mut other, InputEvent::Move(Direction::Up));
    assert!(world.take_actions().is_empty());
    assert_eq!(other.character.pathing.queue, vec![Direction::Up]);
}

#[test]
fn connection_takes_the_first_that_offers_a_tile() {
    let mut a = field(A, 3, 3);
    a.chunk = Some(WorldChunk {
        up: None,
        down: None,
        left: None,
        right: Some(vec![Connection(Location::new(B), 0), Connection(Location::new(C), 0)]),
    });
    let mut b = field(B, 2, 3);
    set_code(&mut b, 0, 1, OBSTACLE);
    let c = field(C, 2, 3);
    let world = world_of(vec![a, b, c]);
    let list = [Connection(Location::new(B), 0), Connection(Location::new(C), 0)];
    // both offer a tile at this offset: the first wins, though it is blocked
    let found = world.data.connection_movement(Direction::Right, 1, &list);
    assert_eq!(found, Some((Location::new(B), Coordinate::new(-1, 1), OBSTACLE)));
    let turned = [Connection(Location::new(C), 0), Connection(Location::new(B), 0)];
    let found = world.data.connection_movement(Direction::Right, 1, &turned);
    assert_eq!(found, Some((Location::new(C), Coordinate::new(-1, 1), 0)));
    // past the first, the second is taken; past both, none
    let shifted = [Connection(Location::new(B), 5), Connection(Location::new(C), 0)];
    let found = world.data.connection_movement(Direction::Right, 1, &shifted);
    assert_eq!(found, Some((Location::new(C), Coordinate::new(-1, 1), 0)));
    assert_eq!(world.data.connection_movement(Direction::Right, 7, &list), None);
    // an unknown neighbour is passed over
    let unknown = [Connection(Location::new(99), 0), Connection(Location::new(C), 1)];
    let found = world.data.connection_movement(Direction::Right, 2, &unknown);
    assert_eq!(found, Some((Location::new(C), Coordinate::new(-1, 1), 0)));
    assert_eq!(world.data.connection_movement(Direction::Right, 1, &[]), None);
}

#[test]
fn connection_enters_from_every_side() {
    let world = world_of(vec![field(B, 4, 3)]);
    let list = [Connection(Location::new(B), 0)];
    let up = world.data.connection_movement(Direction::Up, 2, &list).unwrap();
    assert_eq!(up.1, Coordinate::new(2, 3));
    let down = world.data.connection_movement(Direction::Down, 2, &list).unwrap();
    assert_eq!(down.1, Coordinate::new(2, -1));
    let left = world.data.connection_movement(Direction::Left, 1, &list).unwrap();
    assert_eq!(left.1, Coordinate::new(4, 1));
    let right = world.data.connection_movement(Direction::Right, 1, &list).unwrap();
    assert_eq!(right.1, Coordinate::new(-1, 1));
}

#[test]
fn crossing_an_edge_changes_the_map() {
    let mut a = field(A, 3, 3);
    a.chunk = Some(WorldChunk {
        up: None,
        down: None,
        left: None,
        right: Some(vec![Connection(Location::new(B), 1)]),
    });
    let mut world = world_of(vec![a, field(B, 2, 2)]);
    let mut player = player_at(A, 2, 1);
    world.try_move(&mut player, Direction::Right);
    assert_eq!(player.location, Location::new(B));
    assert_eq!(player.character.position.coords, Coordinate::new(-1, 0));
    assert_eq!(player.character.pathing.queue, vec![Direction::Right]);
    let actions = world.take_actions();
    assert_eq!(actions.len(), 1);
    assert!(matches!(actions[0], WorldAction::PlayMusic(m) if m == B + 100));
    // the step leads onto the neighbour's edge
    assert!(player.character.do_move(1_000_000));
    assert_eq!(player.character.position.coords, Coordinate::new(0, 0));
    // where the neighbour does not reach, the edge is closed
    let mut low = player_at(A, 2, 0);
    world.try_move(&mut low, Direction::Right);
    assert_eq!(low.location, Location::new(A));
    assert!(low.character.pathing.queue.is_empty());
}

#[test]
fn warp_needs_a_known_map() {
    let mut world = world_of(vec![field(A, 3, 3), field(B, 3, 3)]);
    let mut player = player_at(A, 1, 1);
    player.character.pathing.queue.push(Direction::Up);
    let unknown = WarpDestination {
        location: Location::new(C),
        position: Destination { coords: Coordinate::new(2, 2), direction: Some(Direction::Left) },
    };
    assert!(!world.warp(&mut player, unknown));
    assert_eq!(player.location, Location::new(A));
    assert_eq!(player.character.position.coords, Coordinate::new(1, 1));
    assert_eq!(player.character.pathing.queue, vec![Direction::Up]);
    let known = WarpDestination { location: Location::new(B), ..unknown };
    assert!(world.warp(&mut player, known));
    assert_eq!(player.location, Location::new(B));
    assert_eq!(player.character.position.coords, Coordinate::new(2, 2));
    assert_eq!(player.character.position.direction, Direction::Left);
    assert!(player.character.pathing.queue.is_empty());
    assert!(world.contains(&Location::new(B)));
    assert!(!world.contains(&Location::new(C)));
    assert_eq!(world.get(&Location::new(A)).map(|m| m.width), Some(3));
    assert!(world.get(&Location::new(C)).is_none());
}

#[test]
fn interact_engages_the_first_character_ahead() {
    let mut map = field(A, 5, 5);
    let mut silent = villager(1, 2, 3);
    silent.interact = NpcInteract::Nothing;
    map.npcs.push(silent);
    map.npcs.push(villager(2, 2, 3));
    map.npcs.push(villager(3, 2, 3));
    let mut world = world_of(vec![map]);
    let mut player = player_at(A, 2, 2);
    world.input(&mut player, InputEvent::Interact);
    assert_eq!(player.world.npc_active, Some(2));
    let map = world.get(&Location::new(A)).unwrap();
    assert_eq!(map.npcs[1].character.position.direction, Direction::Up);
    assert_eq!(map.npcs[0].character.position.direction, Direction::Down);
    assert_eq!(map.npcs[2].character.position.direction, Direction::Down);
    // the talk: the message is sent, and the player waits until it is read
    world.update_interactions(&mut player);
    let actions = world.take_actions();
    assert_eq!(actions.len(), 1);
    match &actions[0] {
        WorldAction::Message(pages, color) => {
            assert_eq!(pages, &vec![vec![String::from("Hello!"), String::from("Nice day.")]]);
            assert_eq!(*color, MessageColor::Red);
        }
        _ => panic!("a message was due"),
    }
    assert_eq!(player.world.polling, Some(false));
    world.update_interactions(&mut player);
    assert!(world.take_actions().is_empty());
    player.world.polling = Some(true);
    world.update_interactions(&mut player);
    assert_eq!(player.world.npc_active, None);
    assert_eq!(player.world.polling, None);
    assert!(world.take_actions().is_empty());
}

#[test]
fn interact_reaches_over_a_counter() {
    let mut map = field(A, 5, 5);
    set_tile(&mut map, 2, 1, 8);
    map.npcs.push(villager(4, 2, 3));
    let mut world = world_of(vec![map]);
    let mut player = player_at(A, 2, 1);
    world.try_interact(&mut player);
    assert_eq!(player.world.npc_active, Some(4));
    let far = player_at(A, 2, 0);
    let mut far = far;
    world.try_interact(&mut far);
    assert_eq!(far.world.npc_active, None);
}

#[test]
fn interact_breaks_and_collects() {
    let mut map = field(A, 5, 5);
    map.objects.push(MapObject { coordinate: Coordinate::new(1, 2), group: TREE });
    map.items.push(MapItem { coordinate: Coordinate::new(3, 2), item: 500, count: 2 });
    let mut world = world_of(vec![map]);
    let mut player = player_at(A, 1, 1);
    world.try_interact(&mut player);
    assert!(world.take_actions().is_empty());
    assert!(player.world.objects.is_empty());
    player.trainer.party.push(member(vec![CUT]));
    world.try_interact(&mut player);
    let actions = world.take_actions();
    assert!(matches!(actions[..], [WorldAction::BreakObject(c)] if c == Coordinate::new(1, 2)));
    assert_eq!(player.world.objects, vec![(Location::new(A), Coordinate::new(1, 2))]);
    let mut finder = player_at(A, 3, 1);
    finder.trainer.bag.items.push(ItemStack { item: 500, count: 65_534 });
    world.try_interact(&mut finder);
    assert_eq!(finder.world.objects, vec![(Location::new(A), Coordinate::new(3, 2))]);
    assert_eq!(finder.trainer.bag.items, vec![ItemStack { item: 500, count: u16::MAX }]);
    let mut other = player_at(A, 3, 1);
    world.try_interact(&mut other);
    assert_eq!(other.trainer.bag.items, vec![ItemStack { item: 500, count: 2 }]);
}

#[test]
fn trainer_sees_the_player_and_battles() {
    let mut map = field(A, 6, 6);
    map.npcs.push(trainer(7, 1, 1, Direction::Right, 3));
    let mut world = world_of(vec![map]);
    let mut player = player_at(A, 4, 1);
    world.on_tile(&mut player);
    assert_eq!(kinds(&world.take_actions()), vec!["tile"]);
    assert_eq!(player.world.npc_active, Some(7));
    assert!(player.character.frozen);
    let queue = world.get(&Location::new(A)).unwrap().npcs[0].character.pathing.queue.clone();
    assert_eq!(queue, vec![Direction::Right, Direction::Right]);
    // while the trainer walks nothing is said
    world.update_interactions(&mut player);
    assert!(world.take_actions().is_empty());
    for _ in 0..4 {
        world.move_npcs(&mut player, 200_000);
    }
    let npc = &world.get(&Location::new(A)).unwrap().npcs[0];
    assert_eq!(npc.character.position.coords, Coordinate::new(3, 1));
    assert!(!npc.character.moving());
    world.update_interactions(&mut player);
    let actions = world.take_actions();
    assert_eq!(kinds(&actions), vec!["music", "message"]);
    assert!(matches!(actions[0], WorldAction::PlayMusic(55)));
    assert!(matches!(&actions[1], WorldAction::Message(pages, MessageColor::Blue) if pages[0][0] == "Fight me!"));
    assert_eq!(player.character.position.direction, Direction::Left);
    player.world.polling = Some(true);
    world.update_interactions(&mut player);
    let entry = BattleEntry {
        wild: None,
        trainer: Some(TrainerEntry { location: Location::new(A), id: 7 }),
        active: 1,
    };
    let actions = world.take_actions();
    assert!(matches!(actions[..], [WorldAction::Battle(b)] if b == entry));
    assert_eq!(player.world.battle.battling, Some(entry));
    assert!(!player.character.frozen);
    // after the win the trainer is beaten and looks out no more
    world.post_battle(&mut player, true);
    assert!(player.world.battle.battled(&Location::new(A), &7));
    assert!(player.world.battle.battling.is_none());
    world.on_tile(&mut player);
    assert_eq!(player.world.npc_active, None);
}

#[test]
fn trainer_does_not_see_past_its_range() {
    let mut map = field(A, 8, 8);
    map.npcs.push(trainer(7, 1, 1, Direction::Right, 2));
    map.npcs.push(trainer(8, 5, 5, Direction::Up, 5));
    let mut world = world_of(vec![map]);
    for (x, y) in [(4, 1), (1, 3), (0, 1), (4, 5), (5, 6)] {
        let mut player = player_at(A, x, y);
        world.on_tile(&mut player);
        assert_eq!(player.world.npc_active, None);
    }
    let mut seen = player_at(A, 5, 2);
    world.on_tile(&mut seen);
    assert_eq!(seen.world.npc_active, Some(8));
}

#[test]
fn post_battle_win_disables_the_named() {
    let mut map = field(A, 6, 6);
    let mut boss = trainer(1, 0, 0, Direction::Down, 1);
    boss.trainer.as_mut().unwrap().disable = TrainerDisable::Many(vec![2, 3]);
    map.npcs.push(boss);
    let mut world = world_of(vec![map]);
    let mut player = player_at(A, 3, 3);
    player.character.frozen = true;
    player.world.battle.battling = Some(BattleEntry {
        wild: None,
        trainer: Some(TrainerEntry { location: Location::new(A), id: 1 }),
        active: 1,
    });
    world.post_battle(&mut player, true);
    assert!(!player.character.frozen);
    for id in [1u128, 2, 3] {
        assert!(player.world.battle.battled(&Location::new(A), &id));
    }
    assert!(!player.world.battle.battled(&Location::new(A), &4));
    assert!(!player.world.battle.battled(&Location::new(B), &1));
    assert_eq!(player.world.battle.battled.len(), 3);
}

#[test]
fn post_battle_loss_heals_at_the_last_place() {
    let mut world = world_of(vec![field(A, 6, 6), field(B, 6, 6)]);
    let mut player = player_at(B, 3, 3);
    player.trainer.party.push(member(vec![1]));
    player.trainer.party.push(PartyPokemon { moves: Vec::new(), hp: 0, max_hp: 31 });
    world.post_battle(&mut player, false);
    assert_eq!(player.location, Location::new(A));
    assert_eq!(player.character.position.coords, Coordinate::new(0, 0));
    assert_eq!(player.character.position.direction, Direction::Up);
    assert_eq!(player.trainer.party[0].hp, 20);
    assert_eq!(player.trainer.party[1].hp, 31);
    let healed = Position { coords: Coordinate::new(4, 4), direction: Direction::Left, elevation: 2 };
    player.world.heal = Some((Location::new(B), healed));
    world.post_battle(&mut player, false);
    assert_eq!(player.location, Location::new(B));
    assert_eq!(player.character.position, healed);
}

#[test]
fn wild_monsters_are_met_on_their_tiles() {
    let mut map = field(A, 4, 4);
    set_tile(&mut map, 1, 1, 7);
    map.wild = Some(WildEntries {
        land: Some(vec![
            WildPokemon { species: 16, min_level: 2, max_level: 5 },
            WildPokemon { species: 19, min_level: 3, max_level: 3 },
        ]),
        water: Some(vec![WildPokemon { species: 129, min_level: 5, max_level: 5 }]),
    });
    let mut world = world_of(vec![map]);
    world.seed(42);
    let mut player = player_at(A, 1, 1);
    for _ in 0..50 {
        world.on_tile(&mut player);
        let actions = world.take_actions();
        // the chance on land is the whole
        assert_eq!(kinds(&actions), vec!["tile", "battle"]);
        match actions[1] {
            WorldAction::Battle(b) => {
                let met = b.wild.expect("a wild monster");
                assert!(b.trainer.is_none());
                match met.species {
                    16 => assert!((2..=5).contains(&met.level)),
                    19 => assert_eq!(met.level, 3),
                    _ => panic!("nobody else lives here"),
                }
            }
            _ => panic!("a battle was due"),
        }
    }
    // in the water the chance is nothing
    player.character.movement = Movement::Swimming;
    world.on_tile(&mut player);
    assert_eq!(kinds(&world.take_actions()), vec!["tile"]);
    // off the grass nothing is met
    player.character.movement = Movement::Walking;
    player.character.position.coords = Coordinate::new(2, 2);
    world.on_tile(&mut player);
    assert_eq!(kinds(&world.take_actions()), vec!["tile"]);
    // nor when encounters are off
    player.character.position.coords = Coordinate::new(1, 1);
    player.world.wild_encounters = false;
    world.on_tile(&mut player);
    assert_eq!(kinds(&world.take_actions()), vec!["tile"]);
}

#[test]
fn patrol_stays_in_its_square() {
    for seed in [0u64, 1, 2, 3, 99, 12345] {
        let mut map = field(A, 20, 20);
        let mut walker = villager(1, 10, 10);
        walker.movement = vec![
            NpcMovement::Look(vec![Direction::Up, Direction::Down, Direction::Left, Direction::Right]),
            NpcMovement::Move(Coordinate::new(1, 1)),
        ];
        map.npcs.push(walker);
        let mut world = world_of(vec![map]);
        world.seed(seed);
        let mut player = player_at(A, 0, 0);
        let mut visited = std::collections::BTreeSet::new();
        for _ in 0..40_000 {
            world.move_npcs(&mut player, 500_000);
            let npc = &world.get(&Location::new(A)).unwrap().npcs[0];
            let c = npc.character.position.coords;
            assert!((9..=11).contains(&c.x) && (9..=11).contains(&c.y), "left the square at {:?}", c);
            assert_eq!(npc.origin.unwrap_or(Coordinate::new(10, 10)), Coordinate::new(10, 10));
            visited.insert((c.x, c.y));
        }
        assert!(visited.len() > 1, "the walker never moved");
    }
}

#[test]
fn characters_decide_once_a_second() {
    let mut map = field(A, 5, 5);
    let mut looker = villager(1, 2, 2);
    looker.movement = vec![NpcMovement::Look(vec![Direction::Left])];
    map.npcs.push(looker);
    let mut world = world_of(vec![map]);
    let mut player = player_at(A, 0, 0);
    world.move_npcs(&mut player, 300_000);
    assert_eq!(player.world.npc_timer, 1_000_000);
    world.move_npcs(&mut player, 300_000);
    assert_eq!(player.world.npc_timer, 700_000);
    world.move_npcs(&mut player, 800_000);
    assert_eq!(player.world.npc_timer, -100_000);
    world.move_npcs(&mut player, 300_000);
    assert_eq!(player.world.npc_timer, 900_000);
    // on an unknown map nothing runs
    let mut lost = player_at(C, 0, 0);
    world.move_npcs(&mut lost, 300_000);
    assert_eq!(lost.world.npc_timer, 0);
    // sooner or later the character looks where it can
    let mut looked = false;
    for _ in 0..20_000 {
        world.move_npcs(&mut player, 1_000_000);
        if world.get(&Location::new(A)).unwrap().npcs[0].character.position.direction == Direction::Left {
            looked = true;
            break;
        }
    }
    assert!(looked);
}

#[test]
fn update_moves_the_player_and_tells_the_tile() {
    let mut map = field(A, 5, 5);
    map.warps.push(WarpEntry {
        location: BoundingBox { min: Coordinate::new(0, 2), max: Coordinate::new(0, 2) },
        destination: WarpDestination {
            location: Location::new(B),
            position: Destination { coords: Coordinate::new(1, 1), direction: None },
        },
    });
    let mut world = world_of(vec![map, field(B, 3, 3)]);
    let mut player = player_at(A, 0, 0);
    player.character.pathing.queue = vec![Direction::Down, Direction::Down];
    // a quarter of a tile each frame
    for _ in 0..3 {
        world.update(&mut player, 66_667);
        assert_eq!(player.character.position.coords, Coordinate::new(0, 0));
        assert!(world.take_actions().is_empty());
    }
    world.update(&mut player, 66_667);
    assert_eq!(player.character.position.coords, Coordinate::new(0, 1));
    assert_eq!(kinds(&world.take_actions()), vec!["tile"]);
    // the second step ends on the warp zone: no tile is told, the warp waits
    for _ in 0..4 {
        world.update(&mut player, 66_667);
    }
    assert_eq!(player.character.position.coords, Coordinate::new(0, 2));
    assert!(world.take_actions().is_empty());
    assert_eq!(player.world.warp.map(|w| w.location), Some(Location::new(B)));
    assert!(!player.character.moving());
}

#[test]
fn on_change_plays_the_music_of_the_map() {
    let mut world = world_of(vec![field(A, 2, 2)]);
    let other = field(C, 1, 1);
    world.on_change(&other);
    let player = player_at(A, 0, 0);
    world.on_map_change(&player);
    let lost = player_at(B, 0, 0);
    world.on_map_change(&lost);
    let actions = world.take_actions();
    assert_eq!(actions.len(), 2);
    assert!(matches!(actions[0], WorldAction::PlayMusic(m) if m == C + 100));
    assert!(matches!(actions[1], WorldAction::PlayMusic(m) if m == A + 100));
    assert!(world.take_actions().is_empty());
}

#[test]
fn links_of_a_map_must_be_known() {
    let mut a = field(A, 3, 3);
    a.chunk = Some(WorldChunk {
        up: Some(Vec::new()),
        down: None,
        left: Some(vec![Connection(Location::new(B), 0)]),
        right: Some(vec![Connection(Location::new(B), 0), Connection(Location::new(C), 3)]),
    });
    let world = world_of(vec![field(A, 3, 3), field(B, 2, 2)]);
    assert!(!world.data.links_known(&a));
    let whole = world_of(vec![field(B, 2, 2), field(C, 2, 2)]);
    assert!(whole.data.links_known(&a));
    assert!(world.data.links_known(&field(C, 1, 1)));
}

#[test]
fn interact_breaks_before_it_talks() {
    let mut map = field(A, 5, 5);
    map.objects.push(MapObject { coordinate: Coordinate::new(2, 3), group: TREE });
    map.npcs.push(villager(2, 2, 3));
    let mut world = world_of(vec![map]);
    let mut player = player_at(A, 2, 2);
    player.trainer.party.push(member(vec![CUT]));
    world.try_interact(&mut player);
    assert_eq!(kinds(&world.take_actions()), vec!["break"]);
    assert_eq!(player.world.npc_active, None);
    let mut other = player_at(A, 2, 2);
    world.try_interact(&mut other);
    assert_eq!(other.world.npc_active, Some(2));
}

#[test]
fn links_of_neighbours_answer_each_other() {
    let mut a = field(A, 3, 3);
    a.chunk = Some(WorldChunk {
        up: None,
        down: None,
        left: None,
        right: Some(vec![Connection(Location::new(B), 2)]),
    });
    let mut b = field(B, 3, 3);
    b.chunk = Some(WorldChunk {
        up: None,
        down: None,
        left: Some(vec![Connection(Location::new(C), 0), Connection(Location::new(A), -2)]),
        right: None,
    });
    let mut world = world_of(Vec::new());
    assert_eq!(world.data.add_map(a.clone()).map(|m| m.id), None);
    assert!(!world.data.links_mutual(&a));
    world.data.add_map(b.clone());
    assert!(world.data.links_mutual(&a));
    // the neighbour names a third that is unknown
    assert!(!world.data.links_mutual(&b));
    let mut wrong = b.clone();
    wrong.chunk.as_mut().unwrap().left = Some(vec![Connection(Location::new(A), 2)]);
    assert_eq!(world.data.add_map(wrong).map(|m| m.id), Some(Location::new(B)));
    assert!(!world.data.links_mutual(&a));
    assert!(world.data.links_mutual(&field(C, 1, 1)));
}

#[test]
fn trainer_with_a_rectangle_stays_in_it() {
    for seed in [0u64, 5, 77] {
        let mut map = field(A, 20, 20);
        let mut guard = trainer(1, 10, 10, Direction::Down, 2);
        guard.movement = vec![
            NpcMovement::Look(vec![Direction::Up, Direction::Down, Direction::Left, Direction::Right]),
            NpcMovement::Move(Coordinate::new(1, 1)),
        ];
        map.npcs.push(guard);
        let mut world = world_of(vec![map]);
        world.seed(seed);
        // the player stands where the trainer never sees it
        let mut player = player_at(A, 0, 0);
        let mut visited = std::collections::BTreeSet::new();
        for _ in 0..30_000 {
            world.move_npcs(&mut player, 500_000);
            assert_eq!(player.world.npc_active, None);
            let npc = &world.get(&Location::new(A)).unwrap().npcs[0];
            let c = npc.character.position.coords;
            assert!((9..=11).contains(&c.x) && (9..=11).contains(&c.y), "left the square at {:?}", c);
            assert!(npc.character.pathing.queue.len() <= 1);
            visited.insert((c.x, c.y));
        }
        assert!(visited.len() > 1, "the trainer never moved");
    }
}

#[test]
fn deciding_character_takes_the_step_it_faces() {
    let mut map = field(A, 6, 6);
    set_code(&mut map, 3, 2, OBSTACLE);
    let mut walker = villager(1, 2, 2);
    walker.character.position.direction = Direction::Right;
    walker.movement = vec![NpcMovement::Move(Coordinate::new(2, 2))];
    map.npcs.push(walker);
    let mut free = villager(2, 2, 4);
    free.character.position.direction = Direction::Right;
    free.movement = vec![NpcMovement::Move(Coordinate::new(2, 2))];
    map.npcs.push(free);
    let mut world = world_of(vec![map]);
    world.seed(3);
    let mut player = player_at(A, 0, 0);
    let mut stepped = false;
    for _ in 0..20_000 {
        // a frame of no length: steps wait, nobody gets ahead
        world.move_npcs(&mut player, 0);
        player.world.npc_timer = 0;
        let npcs = &world.get(&Location::new(A)).unwrap().npcs;
        // an obstacle lies ahead of the first: it never waits for a step
        assert!(npcs[0].character.pathing.queue.is_empty());
        assert!(npcs[0].origin.is_none() || npcs[0].origin == Some(Coordinate::new(2, 2)));
        assert!(npcs[1].character.pathing.queue.len() <= 1);
        if npcs[1].character.pathing.queue == vec![Direction::Right] {
            assert_eq!(npcs[1].origin, Some(Coordinate::new(2, 4)));
            stepped = true;
        }
    }
    assert!(stepped);
}

#[test]
fn groups_are_found_by_their_ids() {
    let mut groups = Groups::new();
    let red = NpcGroup { id: 2, message: MessageColor::Red, trainer: None };
    assert_eq!(groups.get(&2), None);
    assert_eq!(groups.insert(2, red), None);
    assert_eq!(groups.get(&2), Some(red));
    let blue = NpcGroup { id: 2, message: MessageColor::Blue, trainer: None };
    assert_eq!(groups.insert(2, blue), Some(red));
    assert_eq!(groups.get(&2), Some(blue));
    assert_eq!(groups.get(&3), None);
}
