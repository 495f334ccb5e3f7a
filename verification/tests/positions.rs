use worldlib::positions::absdiff;
use worldlib::positions::BoundingBox;
use worldlib::positions::Control;
use worldlib::positions::Coordinate;
use worldlib::positions::Destination;
use worldlib::positions::Direction;
use worldlib::positions::Location;
use worldlib::positions::Path;
use worldlib::positions::Position;

#[test]
fn coordinate_steps_in_direction() {
    let c = Coordinate::new(5, 5);
    assert_eq!(c.in_direction(Direction::Up), Coordinate::new(5, 4));
    assert_eq!(c.in_direction(Direction::Down), Coordinate::new(5, 6));
    assert_eq!(c.in_direction(Direction::Left), Coordinate::new(4, 5));
    assert_eq!(c.in_direction(Direction::Right), Coordinate::new(6, 5));
}

#[test]
fn coordinate_addition_is_a_group() {
    let a = Coordinate::new(3, -7);
    let b = Coordinate::new(-10, 22);
    let c = Coordinate::new(1_000_000, 5);
    assert_eq!((a + b) + c, a + (b + c));
    assert_eq!(a + b, b + a);
    assert_eq!(a + Coordinate::origin(), a);
    assert_eq!((a + b) - b, a);
    assert_eq!(a - a, Coordinate::origin());
    assert_eq!(a + b, Coordinate::new(-7, 15));
    assert_eq!(a - b, Coordinate::new(13, -29));
}

#[test]
fn coordinate_addition_wraps_at_the_ends() {
    let edge = Coordinate::new(i32::MAX, i32::MIN);
    assert_eq!(edge.in_direction(Direction::Right), Coordinate::new(i32::MIN, i32::MIN));
    assert_eq!(edge.in_direction(Direction::Up), Coordinate::new(i32::MAX, i32::MAX));
    assert_eq!(edge.in_direction(Direction::Right).in_direction(Direction::Left), edge);
}

#[test]
fn coordinate_towards_prefers_the_longer_axis() {
    let c = Coordinate::new(0, 0);
    assert_eq!(c.towards(Coordinate::new(5, 2)), Direction::Right);
    assert_eq!(c.towards(Coordinate::new(-5, 2)), Direction::Left);
    assert_eq!(c.towards(Coordinate::new(2, 5)), Direction::Down);
    assert_eq!(c.towards(Coordinate::new(2, -5)), Direction::Up);
    // a tie goes to the vertical axis
    assert_eq!(c.towards(Coordinate::new(3, 3)), Direction::Down);
    assert_eq!(c.towards(Coordinate::new(3, -3)), Direction::Up);
    // the same coordinate
    assert_eq!(c.towards(c), Direction::Down);
    // no overflow at the ends of the range
    let far = Coordinate::new(i32::MIN, 0);
    assert_eq!(far.towards(Coordinate::new(i32::MAX, 1)), Direction::Right);
}

#[test]
fn coordinate_equal_compares_both_parts() {
    let c = Coordinate::new(4, 9);
    assert!(c.equal(&4, &9));
    assert!(!c.equal(&4, &8));
    assert!(!c.equal(&5, &9));
}

#[test]
fn coordinate_distance_is_manhattan() {
    assert_eq!(Coordinate::new(1, 1).distance(&Coordinate::new(4, 5)), 7);
    assert_eq!(Coordinate::new(4, 5).distance(&Coordinate::new(1, 1)), 7);
    assert_eq!(Coordinate::new(2, 2).distance(&Coordinate::new(2, 2)), 0);
    assert_eq!(
        Coordinate::new(i32::MIN, i32::MIN).distance(&Coordinate::new(i32::MAX, i32::MAX)),
        2 * (u32::MAX as u64)
    );
    assert_eq!(absdiff(3, 10), 7);
    assert_eq!(absdiff(10, 3), 7);
    assert_eq!(absdiff(i32::MIN, i32::MAX), u32::MAX as u64);
}

#[test]
fn coordinate_text_shows_both_parts() {
    assert_eq!(Coordinate::new(3, -4).to_text(), "(3, -4)");
}

#[test]
fn coordinate_position_faces_the_direction() {
    let p = Coordinate::new(2, 3).position(Direction::Left);
    assert_eq!(p.coords, Coordinate::new(2, 3));
    assert_eq!(p.direction, Direction::Left);
    assert_eq!(p.elevation, 0);
}

#[test]
fn direction_inverse_value_keybind() {
    assert_eq!(Direction::Up.inverse(), Direction::Down);
    assert_eq!(Direction::Down.inverse(), Direction::Up);
    assert_eq!(Direction::Left.inverse(), Direction::Right);
    assert_eq!(Direction::Right.inverse(), Direction::Left);
    assert_eq!(Direction::Up.value(), 0);
    assert_eq!(Direction::Down.value(), 1);
    assert_eq!(Direction::Left.value(), 2);
    assert_eq!(Direction::Right.value(), 3);
    assert_eq!(Direction::Up.keybind(), Control::Up);
    assert_eq!(Direction::Down.keybind(), Control::Down);
    assert_eq!(Direction::Left.keybind(), Control::Left);
    assert_eq!(Direction::Right.keybind(), Control::Right);
    assert_eq!(Direction::default(), Direction::Down);
}

#[test]
fn direction_offsets_are_unit_vectors() {
    assert_eq!(Direction::Up.tile_offset(), Coordinate::new(0, -1));
    assert_eq!(Direction::Down.tile_offset(), Coordinate::new(0, 1));
    assert_eq!(Direction::Left.tile_offset(), Coordinate::new(-1, 0));
    assert_eq!(Direction::Right.tile_offset(), Coordinate::new(1, 0));
    for d in Direction::directions() {
        let c = Coordinate::new(7, 7);
        assert_eq!(c.in_direction(d).in_direction(d.inverse()), c);
        assert_eq!(Direction::from_value(d.value()), Some(d));
    }
    assert_eq!(Direction::from_value(4), None);
}

#[test]
fn bounding_box_contains_its_corners() {
    let b = BoundingBox { min: Coordinate::new(1, 2), max: Coordinate::new(3, 4) };
    assert!(b.in_bounds(&Coordinate::new(1, 2)));
    assert!(b.in_bounds(&Coordinate::new(3, 4)));
    assert!(b.in_bounds(&Coordinate::new(2, 3)));
    assert!(!b.in_bounds(&Coordinate::new(0, 3)));
    assert!(!b.in_bounds(&Coordinate::new(4, 3)));
    assert!(!b.in_bounds(&Coordinate::new(2, 1)));
    assert!(!b.in_bounds(&Coordinate::new(2, 5)));
    assert!(b.contains(&Coordinate::new(2, 2)));
}

#[test]
fn bounding_box_centered_reaches_both_ways() {
    let b = BoundingBox::centered(Coordinate::new(10, 10), Coordinate::new(1, 1));
    assert_eq!(b.min, Coordinate::new(9, 9));
    assert_eq!(b.max, Coordinate::new(11, 11));
    let wide = BoundingBox::centered(Coordinate::new(0, 0), Coordinate::new(3, 0));
    assert_eq!(wide.min, Coordinate::new(-3, 0));
    assert_eq!(wide.max, Coordinate::new(3, 0));
    let cut = BoundingBox::centered(Coordinate::new(i32::MAX, i32::MIN), Coordinate::new(2, 2));
    assert_eq!(cut.max.x, i32::MAX);
    assert_eq!(cut.min.y, i32::MIN);
    assert_eq!(cut.min.x, i32::MAX - 2);
    assert_eq!(cut.max.y, i32::MIN + 2);
}

#[test]
fn position_moves_and_arrives() {
    let p = Position { coords: Coordinate::new(5, 5), direction: Direction::Left, elevation: 2 };
    assert_eq!(p.forwards(), Coordinate::new(4, 5));
    let q = p.in_direction(Direction::Down);
    assert_eq!(q.coords, Coordinate::new(5, 6));
    assert_eq!(q.direction, Direction::Left);
    assert_eq!(q.elevation, 2);
    let back = p.subtract(2, 3);
    assert_eq!(back.coords, Coordinate::new(3, 2));
    let mut r = p;
    r.from_destination(Destination { coords: Coordinate::new(1, 1), direction: None });
    assert_eq!(r.coords, Coordinate::new(1, 1));
    assert_eq!(r.direction, Direction::Left);
    r.from_destination(Destination { coords: Coordinate::new(2, 2), direction: Some(Direction::Up) });
    assert_eq!(r.coords, Coordinate::new(2, 2));
    assert_eq!(r.direction, Direction::Up);
    assert_eq!(r.elevation, 2);
    assert_eq!(Position::default().direction, Direction::Down);
}

#[test]
fn location_and_path_constructors() {
    let a = Location::new(7);
    assert_eq!(a.map, 7);
    assert_eq!(a.index, None);
    let b = Location::with_index(7, 2);
    assert_eq!(b.index, Some(2));
    assert_ne!(a, b);
    let mut path = Path::new();
    assert!(path.queue.is_empty());
    path.queue.push(Direction::Up);
    path.turn = Some(Direction::Left);
    path.clear();
    assert!(path.queue.is_empty());
    assert_eq!(path.turn, None);
}

#[test]
fn coordinate_text_is_decimal() {
    assert_eq!(Coordinate::new(0, 0).to_text(), "(0, 0)");
    assert_eq!(Coordinate::new(10, -10).to_text(), "(10, -10)");
    assert_eq!(Coordinate::new(i32::MAX, i32::MIN).to_text(), "(2147483647, -2147483648)");
    for (x, y) in [(7, 99), (-1, 100), (12345, -67890), (1_000_000_000, -9)] {
        assert_eq!(Coordinate::new(x, y).to_text(), format!("({}, {})", x, y));
    }
}

#[test]
fn numbers_are_written_in_decimal() {
    for v in [0i64, 9, 10, 11, 99, 100, 101, -1, -10, 1234567890123, i64::MAX, i64::MIN, i64::MIN + 1] {
        let mut text = String::from("n=");
        worldlib::strings::push_decimal(&mut text, v);
        assert_eq!(text, format!("n={}", v));
    }
    let mut text = String::new();
    worldlib::strings::push_digits(&mut text, u64::MAX);
    assert_eq!(text, "18446744073709551615");
}
