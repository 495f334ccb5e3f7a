use worldlib::character::Character;
use worldlib::character::Movement;
use worldlib::character::Npc;
use worldlib::character::NpcInteract;
use worldlib::character::PartyPokemon;
use worldlib::character::TILE_UNITS;
use worldlib::player::sees;
use worldlib::player::Bag;
use worldlib::player::ItemStack;
use worldlib::player::PlayerBattleState;
use worldlib::player::PlayerWorld;
use worldlib::positions::Coordinate;
use worldlib::positions::Direction;
use worldlib::positions::Location;
use worldlib::positions::Position;
use worldlib::random::WorldRandoms;

fn standing(x: i32, y: i32, direction: Direction) -> Position {
    Position { coords: Coordinate::new(x, y), direction, elevation: 0 }
}

#[test]
fn walking_takes_a_tile_in_sixteen_sixtieths() {
    let mut c = Character::new(standing(0, 0, Direction::Down));
    assert_eq!(Movement::Walking.speed(), 60);
    assert_eq!(Movement::Running.speed(), 120);
    assert_eq!(Movement::Swimming.speed(), 120);
    assert_eq!(Movement::default(), Movement::Walking);
    c.pathing.queue = vec![Direction::Right, Direction::Up];
    assert!(c.moving());
    assert!(!c.do_move(100_000));
    assert_eq!(c.offset, 6_000_000);
    assert_eq!(c.position.direction, Direction::Right);
    assert_eq!(c.position.coords, Coordinate::new(0, 0));
    assert!(!c.do_move(100_000));
    assert_eq!(c.offset, 12_000_000);
    assert!(c.do_move(100_000));
    assert_eq!(c.offset, 0);
    assert_eq!(c.position.coords, Coordinate::new(1, 0));
    assert_eq!(c.pathing.queue, vec![Direction::Up]);
    // running is twice as fast
    c.movement = Movement::Running;
    assert!(!c.do_move(100_000));
    assert_eq!(c.offset, 12_000_000);
    assert_eq!(c.position.direction, Direction::Up);
    assert!(c.do_move(100_000));
    assert_eq!(c.position.coords, Coordinate::new(1, -1));
    assert!(!c.moving());
    // nothing waits: nothing happens
    assert!(!c.do_move(u32::MAX));
    assert_eq!(c.position.coords, Coordinate::new(1, -1));
    assert_eq!(TILE_UNITS, 16_000_000);
}

#[test]
fn a_frame_of_no_length_moves_nobody() {
    let mut c = Character::new(standing(3, 3, Direction::Down));
    c.pathing.queue.push(Direction::Left);
    for _ in 0..10 {
        assert!(!c.do_move(0));
    }
    assert_eq!(c.offset, 0);
    assert_eq!(c.pathing.queue, vec![Direction::Left]);
    assert_eq!(c.position.coords, Coordinate::new(3, 3));
}

#[test]
fn freeze_drops_the_steps() {
    let mut c = Character::new(standing(0, 0, Direction::Down));
    c.pathing.queue = vec![Direction::Left, Direction::Left];
    c.pathing.turn = Some(Direction::Up);
    c.do_move(10);
    c.freeze();
    assert!(c.frozen);
    assert!(!c.moving());
    assert_eq!(c.offset, 0);
    assert_eq!(c.pathing.turn, None);
    c.unfreeze();
    assert!(!c.frozen);
    c.on_try_move(Direction::Up);
    assert_eq!(c.position.direction, Direction::Up);
    c.offset = 5;
    c.stop_move();
    assert_eq!(c.offset, 0);
}

#[test]
fn sight_runs_straight_ahead() {
    let from = standing(5, 5, Direction::Right);
    assert_eq!(sees(&from, 3, &Coordinate::new(6, 5)), Some(1));
    assert_eq!(sees(&from, 3, &Coordinate::new(8, 5)), Some(3));
    assert_eq!(sees(&from, 3, &Coordinate::new(9, 5)), None);
    assert_eq!(sees(&from, 3, &Coordinate::new(4, 5)), None);
    assert_eq!(sees(&from, 3, &Coordinate::new(5, 5)), None);
    assert_eq!(sees(&from, 3, &Coordinate::new(6, 6)), None);
    assert_eq!(sees(&standing(5, 5, Direction::Up), 2, &Coordinate::new(5, 3)), Some(2));
    assert_eq!(sees(&standing(5, 5, Direction::Down), 2, &Coordinate::new(5, 7)), Some(2));
    assert_eq!(sees(&standing(5, 5, Direction::Left), 255, &Coordinate::new(-100, 5)), Some(105));
    assert_eq!(sees(&standing(i32::MIN, 0, Direction::Right), 255, &Coordinate::new(i32::MAX, 0)), None);
}

#[test]
fn npc_turns_to_who_faces_it() {
    let mut npc = Npc {
        id: 1,
        character: Character::new(standing(2, 3, Direction::Down)),
        origin: None,
        movement: Vec::new(),
        interact: NpcInteract::Nothing,
        trainer: None,
        group: 0,
    };
    assert!(!npc.interact.is_some());
    assert!(NpcInteract::Script(4).is_some());
    assert!(npc.can_interact_from(&standing(1, 3, Direction::Right)));
    assert!(!npc.can_interact_from(&standing(1, 3, Direction::Left)));
    assert!(!npc.interact_from(&standing(0, 3, Direction::Right)));
    assert_eq!(npc.character.position.direction, Direction::Down);
    assert!(npc.interact_from(&standing(1, 3, Direction::Right)));
    assert_eq!(npc.character.position.direction, Direction::Left);
    npc.look(None);
    assert_eq!(npc.character.position.direction, Direction::Left);
    npc.look(Some(Direction::Up));
    assert_eq!(npc.character.position.direction, Direction::Up);
}

#[test]
fn npc_steps_only_inside_its_rectangle() {
    let mut npc = Npc {
        id: 1,
        character: Character::new(standing(10, 10, Direction::Right)),
        origin: None,
        movement: Vec::new(),
        interact: NpcInteract::Nothing,
        trainer: None,
        group: 0,
    };
    let area = Coordinate::new(1, 1);
    // no tile ahead, or an obstacle ahead: no step, but an origin
    assert!(!npc.try_step(area, None));
    assert_eq!(npc.origin, Some(Coordinate::new(10, 10)));
    assert!(!npc.try_step(area, Some(1)));
    assert!(npc.character.pathing.queue.is_empty());
    assert!(npc.try_step(area, Some(0)));
    assert_eq!(npc.character.pathing.queue, vec![Direction::Right]);
    // at the edge of the rectangle the step ahead leads out
    npc.character.pathing.clear();
    npc.character.position.coords = Coordinate::new(11, 10);
    assert!(!npc.try_step(area, Some(0)));
    assert_eq!(npc.origin, Some(Coordinate::new(10, 10)));
    npc.character.position.direction = Direction::Up;
    assert!(npc.try_step(area, Some(0)));
    // the elevation counts as for the player
    npc.character.pathing.clear();
    npc.character.position.elevation = 3;
    assert!(!npc.try_step(area, Some(8)));
    assert!(npc.try_step(area, Some(12)));
}

#[test]
fn party_members_know_moves_and_heal() {
    let mut member = PartyPokemon { moves: vec![4, 9], hp: 1, max_hp: 30 };
    assert!(member.has_move(9));
    assert!(!member.has_move(5));
    member.heal();
    assert_eq!(member.hp, 30);
    assert_eq!(member.moves, vec![4, 9]);
}

#[test]
fn bag_stacks_items() {
    let mut bag = Bag::new();
    bag.insert_saved(5, 2);
    bag.insert_saved(6, 1);
    bag.insert_saved(5, 3);
    assert_eq!(bag.items, vec![ItemStack { item: 5, count: 5 }, ItemStack { item: 6, count: 1 }]);
    bag.insert_saved(6, u16::MAX);
    assert_eq!(bag.items[1].count, u16::MAX);
}

#[test]
fn beaten_trainers_are_counted_once() {
    let mut state = PlayerBattleState::new();
    let here = Location::new(1);
    state.insert(&here, 4);
    state.insert(&here, 4);
    state.extend(&here, &vec![4, 5, 5, 6]);
    assert_eq!(state.battled.len(), 3);
    assert!(state.battled(&here, &5));
    assert!(!state.battled(&Location::new(2), &5));
    let mut world = PlayerWorld::new();
    world.insert_object(&here, Coordinate::new(1, 1));
    world.insert_object(&here, Coordinate::new(1, 1));
    world.insert_object(&here, Coordinate::new(1, 2));
    assert_eq!(world.objects.len(), 2);
    assert!(world.wild_encounters);
}

#[test]
fn draws_keep_to_their_bounds() {
    let mut randoms = WorldRandoms::new();
    randoms.seed(7);
    for _ in 0..200 {
        assert!(randoms.wild_roll(255));
        assert!(!randoms.wild_roll(0));
        let n = randoms.wild_pick(3, 9);
        assert!((3..=9).contains(&n));
        assert_eq!(randoms.wild_pick(4, 4), 4);
        assert_eq!(randoms.wild_pick(9, 3), 9);
        let d = randoms.npc_look(&vec![Direction::Left, Direction::Up]);
        assert!(d == Some(Direction::Left) || d == Some(Direction::Up));
        assert_eq!(randoms.npc_look(&Vec::new()), None);
    }
    // one time in twelve, more or less
    let acts = (0..12_000).filter(|_| randoms.npc_acts()).count();
    assert!((700..1300).contains(&acts), "{} of 12000", acts);
    // the same seed draws the same
    let mut a = WorldRandoms::new();
    let mut b = WorldRandoms::new();
    a.seed(99);
    b.seed(99);
    for _ in 0..100 {
        assert_eq!(a.wild_pick(0, 1000), b.wild_pick(0, 1000));
        assert_eq!(a.npc_acts(), b.npc_acts());
    }
}
