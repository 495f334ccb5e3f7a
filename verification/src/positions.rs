//! Integer tile coordinates, the four walking directions and the value
//! types built from them.

use vstd::prelude::*;
use vstd::std_specs::ops::AddSpecImpl;
use vstd::std_specs::ops::SubSpecImpl;
use crate::strings::decimal;
use crate::strings::push_decimal;
use crate::strings::string_push;

verus! {

/// The integer type of one tile coordinate.
pub type CoordinateInt = i32;

/// Discrete height layer of a mover. `0` means "no elevation".
pub type Elevation = u8;

/// Buttons of the input device that the library knows about.
#[derive(Clone, Copy, Debug, PartialEq, Eq, Hash, Structural)]
pub enum Control {
    A,
    B,
    Up,
    Down,
    Left,
    Right,
    Start,
    Select,
}

/// One of the four walking directions. The y axis grows downwards.
#[derive(Clone, Copy, Debug, PartialEq, Eq, Hash, Structural)]
pub enum Direction {
    Up,
    Down,
    Left,
    Right,
}

impl Direction {
    /// The opposite direction.
    pub open spec fn spec_inverse(&self) -> Direction {
        match *self {
            Direction::Up => Direction::Down,
            Direction::Down => Direction::Up,
            Direction::Left => Direction::Right,
            Direction::Right => Direction::Left,
        }
    }

    /// The unit vector of one step in this direction.
    pub open spec fn spec_tile_offset(&self) -> Coordinate {
        match *self {
            Direction::Up => Coordinate { x: 0, y: -1i32 },
            Direction::Down => Coordinate { x: 0, y: 1 },
            Direction::Left => Coordinate { x: -1i32, y: 0 },
            Direction::Right => Coordinate { x: 1, y: 0 },
        }
    }

    /// The number that stands for this direction, `0` to `3`.
    pub open spec fn spec_value(&self) -> u8 {
        match *self {
            Direction::Up => 0,
            Direction::Down => 1,
            Direction::Left => 2,
            Direction::Right => 3,
        }
    }

    /// The four directions, in the order of their values.
    pub open spec fn all() -> Seq<Direction> {
        seq![Direction::Up, Direction::Down, Direction::Left, Direction::Right]
    }

    #[verifier::when_used_as_spec(spec_inverse)]
    pub fn inverse(&self) -> (r: Direction)
        ensures
            r == self.spec_inverse(),
    {
        match *self {
            Direction::Up => Direction::Down,
            Direction::Down => Direction::Up,
            Direction::Left => Direction::Right,
            Direction::Right => Direction::Left,
        }
    }

    #[verifier::when_used_as_spec(spec_value)]
    pub fn value(&self) -> (r: u8)
        ensures
            r == self.spec_value(),
    {
        match *self {
            Direction::Up => 0,
            Direction::Down => 1,
            Direction::Left => 2,
            Direction::Right => 3,
        }
    }

    /// The direction with the given value, if there is one.
    pub fn from_value(value: u8) -> (r: Option<Direction>)
        ensures
            value < 4 ==> r.is_some() && r.unwrap().spec_value() == value,
            value >= 4 ==> r.is_none(),
    {
        match value {
            0 => Some(Direction::Up),
            1 => Some(Direction::Down),
            2 => Some(Direction::Left),
            3 => Some(Direction::Right),
            _ => None,
        }
    }

    /// The button that asks for a step in this direction.
    pub fn keybind(&self) -> (r: Control)
        ensures
            r == match *self {
                Direction::Up => Control::Up,
                Direction::Down => Control::Down,
                Direction::Left => Control::Left,
                Direction::Right => Control::Right,
            },
    {
        match *self {
            Direction::Up => Control::Up,
            Direction::Down => Control::Down,
            Direction::Left => Control::Left,
            Direction::Right => Control::Right,
        }
    }

    #[verifier::when_used_as_spec(spec_tile_offset)]
    pub fn tile_offset(&self) -> (r: Coordinate)
        ensures
            r == self.spec_tile_offset(),
    {
        match *self {
            Direction::Up => Coordinate { x: 0, y: -1 },
            Direction::Down => Coordinate { x: 0, y: 1 },
            Direction::Left => Coordinate { x: -1, y: 0 },
            Direction::Right => Coordinate { x: 1, y: 0 },
        }
    }

    /// The four directions as an array, in the order of their values.
    pub fn directions() -> (r: [Direction; 4])
        ensures
            r@ == Direction::all(),
    {
        let r = [Direction::Up, Direction::Down, Direction::Left, Direction::Right];
        assert(r@ =~= Direction::all());
        r
    }
}

impl Default for Direction {
    fn default() -> (r: Direction)
        ensures
            r == Direction::Down,
    {
        Direction::Down
    }
}

/// A tile coordinate. Addition and subtraction work component by component
/// in two's complement, so they are total and form an abelian group.
#[derive(Clone, Copy, Debug, PartialEq, Eq, Hash, Structural)]
pub struct Coordinate {
    pub x: CoordinateInt,
    pub y: CoordinateInt,
}

/// A coordinate together with the elevation of whoever stands there.
#[derive(Clone, Copy, Debug, PartialEq, Eq, Hash, Structural)]
pub struct Coordinate3d {
    pub xy: Coordinate,
    pub elevation: Elevation,
}

impl Coordinate {
    pub open spec fn zero() -> Coordinate {
        Coordinate { x: 0, y: 0 }
    }

    /// Component-wise sum, in two's complement.
    pub open spec fn plus(self, rhs: Coordinate) -> Coordinate {
        Coordinate { x: self.x.wrapping_add(rhs.x), y: self.y.wrapping_add(rhs.y) }
    }

    /// Component-wise difference, in two's complement.
    pub open spec fn minus(self, rhs: Coordinate) -> Coordinate {
        Coordinate { x: self.x.wrapping_sub(rhs.x), y: self.y.wrapping_sub(rhs.y) }
    }

    /// The neighbouring coordinate one step away.
    pub open spec fn step(self, direction: Direction) -> Coordinate {
        self.plus(direction.spec_tile_offset())
    }

    /// The direction in which `destination` mostly lies: the horizontal one
    /// where the horizontal distance is strictly larger, else the vertical
    /// one; `Right` and `Down` where the coordinate does not differ.
    pub open spec fn spec_towards(&self, destination: Coordinate) -> Direction {
        if vstd::math::abs(self.x - destination.x) > vstd::math::abs(self.y - destination.y) {
            if self.x > destination.x {
                Direction::Left
            } else {
                Direction::Right
            }
        } else if self.y > destination.y {
            Direction::Up
        } else {
            Direction::Down
        }
    }

    /// Sum of the horizontal and the vertical distance.
    pub open spec fn manhattan(self, other: Coordinate) -> nat {
        (vstd::math::abs(self.x - other.x) + vstd::math::abs(self.y - other.y)) as nat
    }

    /// The coordinate reached from `self` by taking the steps of `path` in order.
    pub open spec fn walk(self, path: Seq<Direction>) -> Coordinate
        decreases path.len(),
    {
        if path.len() == 0 {
            self
        } else {
            self.walk(path.drop_last()).step(path.last())
        }
    }

    pub fn new(x: CoordinateInt, y: CoordinateInt) -> (r: Coordinate)
        ensures
            r.x == x,
            r.y == y,
    {
        Coordinate { x, y }
    }

    pub fn origin() -> (r: Coordinate)
        ensures
            r == Coordinate::zero(),
    {
        Coordinate { x: 0, y: 0 }
    }

    #[verifier::when_used_as_spec(spec_towards)]
    pub fn towards(&self, destination: Coordinate) -> (r: Direction)
        ensures
            r == self.spec_towards(destination),
    {
        let dx: i64 = self.x as i64 - destination.x as i64;
        let dy: i64 = self.y as i64 - destination.y as i64;
        let ax: i64 = if dx < 0 { -dx } else { dx };
        let ay: i64 = if dy < 0 { -dy } else { dy };
        if ax > ay {
            if self.x > destination.x {
                Direction::Left
            } else {
                Direction::Right
            }
        } else if self.y > destination.y {
            Direction::Up
        } else {
            Direction::Down
        }
    }

    #[verifier::when_used_as_spec(step)]
    pub fn in_direction(self, direction: Direction) -> (r: Coordinate)
        ensures
            r == self.step(direction),
    {
        self + direction.tile_offset()
    }

    /// A position at this coordinate that faces `direction`, with no
    /// elevation.
    pub fn position(self, direction: Direction) -> (r: Position)
        ensures
            r == (Position { coords: self, direction, elevation: 0 }),
    {
        Position { coords: self, direction, elevation: 0 }
    }

    pub fn equal(&self, x: &CoordinateInt, y: &CoordinateInt) -> (r: bool)
        ensures
            r == (self.x == *x && self.y == *y),
    {
        self.x == *x && self.y == *y
    }

    /// The Manhattan distance to `other`.
    pub fn distance(&self, other: &Coordinate) -> (r: u64)
        ensures
            r == self.manhattan(*other),
    {
        absdiff(self.x, other.x) + absdiff(self.y, other.y)
    }

    /// The text of a coordinate: both parts in decimal, with a comma and a
    /// blank between them, in round brackets.
    pub open spec fn text(&self) -> Seq<char> {
        seq!['('] + decimal(self.x as int) + seq![',', ' '] + decimal(self.y as int) + seq![')']
    }

    /// The text `(x, y)`.
    pub fn to_text(&self) -> (r: String)
        ensures
            r@ == self.text(),
    {
        let mut r = String::new();
        string_push(&mut r, '(');
        push_decimal(&mut r, self.x as i64);
        string_push(&mut r, ',');
        string_push(&mut r, ' ');
        push_decimal(&mut r, self.y as i64);
        string_push(&mut r, ')');
        assert(r@ =~= self.text());
        r
    }
}

/// The distance between two numbers.
pub fn absdiff(x: CoordinateInt, y: CoordinateInt) -> (r: u64)
    ensures
        r == vstd::math::abs(x - y),
{
    if x < y {
        (y as i64 - x as i64) as u64
    } else {
        (x as i64 - y as i64) as u64
    }
}

impl core::ops::Add for Coordinate {
    type Output = Coordinate;

    fn add(self, rhs: Coordinate) -> (r: Coordinate) {
        Coordinate { x: self.x.wrapping_add(rhs.x), y: self.y.wrapping_add(rhs.y) }
    }
}

impl AddSpecImpl for Coordinate {
    open spec fn obeys_add_spec() -> bool {
        true
    }

    open spec fn add_req(self, rhs: Coordinate) -> bool {
        true
    }

    open spec fn add_spec(self, rhs: Coordinate) -> Coordinate {
        self.plus(rhs)
    }
}

impl core::ops::Sub for Coordinate {
    type Output = Coordinate;

    fn sub(self, rhs: Coordinate) -> (r: Coordinate) {
        Coordinate { x: self.x.wrapping_sub(rhs.x), y: self.y.wrapping_sub(rhs.y) }
    }
}

impl SubSpecImpl for Coordinate {
    open spec fn obeys_sub_spec() -> bool {
        true
    }

    open spec fn sub_req(self, rhs: Coordinate) -> bool {
        true
    }

    open spec fn sub_spec(self, rhs: Coordinate) -> Coordinate {
        self.minus(rhs)
    }
}

impl Default for Coordinate {
    fn default() -> (r: Coordinate)
        ensures
            r == Coordinate::zero(),
    {
        Coordinate { x: 0, y: 0 }
    }
}

/// Where a mover stands, where it looks and on which height layer it is.
#[derive(Clone, Copy, Debug, PartialEq, Eq, Hash, Structural)]
pub struct Position {
    pub coords: Coordinate,
    pub direction: Direction,
    pub elevation: Elevation,
}

/// A place to go to, with the direction to face on arrival if one is asked
/// for.
#[derive(Clone, Copy, Debug, PartialEq, Eq, Hash, Structural)]
pub struct Destination {
    pub coords: Coordinate,
    pub direction: Option<Direction>,
}

impl Position {
    /// The coordinate one step ahead.
    pub open spec fn spec_forwards(&self) -> Coordinate {
        self.coords.step(self.direction)
    }

    /// This position moved one step in `direction`; facing and elevation
    /// stay.
    pub open spec fn spec_in_direction(&self, direction: Direction) -> Position {
        Position { coords: self.coords.step(direction), ..*self }
    }

    /// This position after arriving at `destination`: the coordinate is
    /// taken over, the facing only where the destination names one.
    pub open spec fn arrived(self, destination: Destination) -> Position {
        Position {
            coords: destination.coords,
            direction: match destination.direction {
                Some(d) => d,
                None => self.direction,
            },
            elevation: self.elevation,
        }
    }

    #[verifier::when_used_as_spec(spec_forwards)]
    pub fn forwards(&self) -> (r: Coordinate)
        ensures
            r == self.spec_forwards(),
    {
        self.coords.in_direction(self.direction)
    }

    #[verifier::when_used_as_spec(spec_in_direction)]
    pub fn in_direction(&self, direction: Direction) -> (r: Position)
        ensures
            r == self.spec_in_direction(direction),
    {
        Position {
            coords: self.coords.in_direction(direction),
            direction: self.direction,
            elevation: self.elevation,
        }
    }

    pub fn from_destination(&mut self, destination: Destination)
        ensures
            *final(self) == old(self).arrived(destination),
    {
        self.coords = destination.coords;
        if let Some(direction) = destination.direction {
            self.direction = direction;
        }
    }

    /// This position moved back by `(x, y)`.
    pub fn subtract(&self, x: CoordinateInt, y: CoordinateInt) -> (r: Position)
        ensures
            r == (Position { coords: self.coords.minus(Coordinate { x, y }), ..*self }),
    {
        Position {
            coords: self.coords - Coordinate { x, y },
            direction: self.direction,
            elevation: self.elevation,
        }
    }
}

impl Default for Position {
    fn default() -> (r: Position)
        ensures
            r == (Position { coords: Coordinate::zero(), direction: Direction::Down, elevation: 0 }),
    {
        Position { coords: Coordinate { x: 0, y: 0 }, direction: Direction::Down, elevation: 0 }
    }
}

/// Names one map: an interned name and, where several maps share it, an
/// index.
#[derive(Clone, Copy, Debug, PartialEq, Eq, Hash, Structural)]
pub struct Location {
    pub map: u128,
    pub index: Option<u16>,
}

impl Location {
    pub fn new(map: u128) -> (r: Location)
        ensures
            r == (Location { map, index: None }),
    {
        Location { map, index: None }
    }

    pub fn with_index(map: u128, index: u16) -> (r: Location)
        ensures
            r == (Location { map, index: Some(index) }),
    {
        Location { map, index: Some(index) }
    }
}

/// An axis-aligned rectangle of tiles, both corners included.
#[derive(Clone, Copy, Debug, PartialEq, Eq, Hash, Structural)]
pub struct BoundingBox {
    pub min: Coordinate,
    pub max: Coordinate,
}

impl BoundingBox {
    pub open spec fn spec_contains(self, coordinate: Coordinate) -> bool {
        &&& self.min.x <= coordinate.x <= self.max.x
        &&& self.min.y <= coordinate.y <= self.max.y
    }

    /// The rectangle that reaches `area.x` tiles to the left and right of
    /// `origin` and `area.y` tiles above and below it, cut off at the ends
    /// of the coordinate range.
    pub open spec fn spec_centered(origin: Coordinate, area: Coordinate) -> BoundingBox {
        BoundingBox {
            min: Coordinate {
                x: clamp_i32(origin.x - vstd::math::abs(area.x as int)),
                y: clamp_i32(origin.y - vstd::math::abs(area.y as int)),
            },
            max: Coordinate {
                x: clamp_i32(origin.x + vstd::math::abs(area.x as int)),
                y: clamp_i32(origin.y + vstd::math::abs(area.y as int)),
            },
        }
    }

    pub fn in_bounds(&self, coordinate: &Coordinate) -> (r: bool)
        ensures
            r == self.spec_contains(*coordinate),
    {
        if coordinate.x >= self.min.x && coordinate.x <= self.max.x {
            coordinate.y >= self.min.y && coordinate.y <= self.max.y
        } else {
            false
        }
    }

    pub fn contains(&self, coordinate: &Coordinate) -> (r: bool)
        ensures
            r == self.spec_contains(*coordinate),
    {
        self.in_bounds(coordinate)
    }

    pub fn centered(origin: Coordinate, area: Coordinate) -> (r: BoundingBox)
        ensures
            r == BoundingBox::spec_centered(origin, area),
    {
        let ax: i64 = if area.x < 0 { -(area.x as i64) } else { area.x as i64 };
        let ay: i64 = if area.y < 0 { -(area.y as i64) } else { area.y as i64 };
        BoundingBox {
            min: Coordinate {
                x: clamp_to_i32(origin.x as i64 - ax),
                y: clamp_to_i32(origin.y as i64 - ay),
            },
            max: Coordinate {
                x: clamp_to_i32(origin.x as i64 + ax),
                y: clamp_to_i32(origin.y as i64 + ay),
            },
        }
    }
}

/// `v` where it is a 32-bit number, else the nearest one.
pub open spec fn clamp_i32(v: int) -> i32 {
    if v < i32::MIN {
        i32::MIN
    } else if v > i32::MAX {
        i32::MAX
    } else {
        v as i32
    }
}

fn clamp_to_i32(v: i64) -> (r: i32)
    ensures
        r == clamp_i32(v as int),
{
    if v < i32::MIN as i64 {
        i32::MIN
    } else if v > i32::MAX as i64 {
        i32::MAX
    } else {
        v as i32
    }
}

/// A route: the steps to take, first to last, and the direction to face at
/// the end if one was asked for.
#[derive(Clone, Debug)]
pub struct Path {
    pub queue: Vec<Direction>,
    pub turn: Option<Direction>,
}

impl Path {
    pub fn new() -> (r: Path)
        ensures
            r.queue@.len() == 0,
            r.turn.is_none(),
    {
        Path { queue: Vec::new(), turn: None }
    }

    pub fn clear(&mut self)
        ensures
            final(self).queue@.len() == 0,
            final(self).turn.is_none(),
    {
        self.queue.clear();
        self.turn = None;
    }
}

/// The coordinates form an abelian group under addition: addition is
/// associative and commutative, the origin is neutral, and subtracting a
/// coordinate undoes adding it.
pub proof fn lemma_coordinate_group(a: Coordinate, b: Coordinate, c: Coordinate)
    ensures
        a.plus(b).plus(c) == a.plus(b.plus(c)),
        a.plus(b) == b.plus(a),
        a.plus(Coordinate::zero()) == a,
        a.plus(b).minus(b) == a,
        a.minus(a) == Coordinate::zero(),
{
}

/// A step and the step back in the opposite direction cancel.
pub proof fn lemma_step_inverse(a: Coordinate, d: Direction)
    ensures
        a.step(d).step(d.spec_inverse()) == a,
        d.spec_inverse().spec_inverse() == d,
{
}

} // verus!
