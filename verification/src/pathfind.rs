//! Shortest routes over a map: an A* search over the four neighbours of
//! each tile, with every step at the cost of one and the Manhattan
//! distance to the goal as the estimate of what is left.

use vstd::prelude::*;
use crate::map::lemma_index_in_grid;
use crate::map::WorldMap;
use crate::movement::can_walk;
use crate::movement::spec_can_walk;
use crate::positions::Coordinate;
use crate::positions::Destination;
use crate::positions::Direction;
use crate::positions::Path;
use crate::positions::Position;
use crate::queue::before;
use crate::queue::OpenQueue;
use crate::queue::SmallestCostHolder;
use crate::table::table_entries;
use crate::table::table_get_full;
use crate::table::table_get_index;
use crate::table::table_insert_full;
use crate::table::table_len;
use crate::table::table_new;
use crate::table::NodeKey;
use crate::table::NodeTable;
use crate::table::NodeValue;

verus! {

/// A node of the search: the direction of arrival and the coordinate.
pub type Node = (Direction, Coordinate);

/// Whether a route may lead over `c`: it lies on the map, it is not where
/// the player stands, and the tile there is no obstacle.
pub open spec fn valid_step(world: WorldMap, player: Coordinate, c: Coordinate) -> bool {
    &&& world.spec_in_bounds(c)
    &&& c != player
    &&& match world.spec_local_movement(c) {
        Some(code) => spec_can_walk(code),
        None => false,
    }
}

/// Whether the steps `path`, taken from `start`, lead only over tiles that
/// a route may lead over.
pub open spec fn route(
    world: WorldMap,
    player: Coordinate,
    start: Coordinate,
    path: Seq<Direction>,
) -> bool {
    forall|i: int| 0 < i <= path.len() ==> valid_step(world, player, #[trigger] start.walk(path.take(i)))
}

/// Where a character ends that replays `path` from `start`, taking the
/// steps from the front one by one, and how many steps it has taken then.
pub open spec fn replay(start: Coordinate, path: Seq<Direction>) -> (Coordinate, nat)
    decreases path.len(),
{
    if path.len() == 0 {
        (start, 0)
    } else {
        let rest = replay(start.step(path[0]), path.subrange(1, path.len() as int));
        (rest.0, rest.1 + 1)
    }
}

/// Replaying a route step by step from its start lands on the coordinate
/// that the route leads to, after as many steps as the route has.
pub proof fn lemma_replay_lands(start: Coordinate, path: Seq<Direction>)
    ensures
        replay(start, path) == (start.walk(path), path.len()),
    decreases path.len(),
{
    if path.len() > 0 {
        let rest = path.subrange(1, path.len() as int);
        lemma_replay_lands(start.step(path[0]), rest);
        crate::character::lemma_walk_unfold(start, path);
    }
}

/// A step onto a tile of the map leads to a neighbour: the coordinate
/// changes by exactly one.
pub proof fn lemma_step_is_near(world: WorldMap, c: Coordinate, d: Direction)
    requires
        world.spec_in_bounds(c.step(d)),
    ensures
        c.manhattan(c.step(d)) == 1,
        c.step(d) != c,
{
}

/// A walk one step longer ends one step further.
pub proof fn lemma_walk_take(start: Coordinate, path: Seq<Direction>, n: int)
    requires
        0 <= n < path.len(),
    ensures
        start.walk(path.take(n + 1)) == start.walk(path.take(n)).step(path[n]),
{
    assert(path.take(n + 1).drop_last() =~= path.take(n));
    assert(path.take(n + 1).last() == path[n]);
}

/// From the point that a route has reached after `n` steps, its end is at
/// most as far as it has steps left.
pub proof fn lemma_route_rest(
    world: WorldMap,
    player: Coordinate,
    start: Coordinate,
    path: Seq<Direction>,
    n: int,
)
    requires
        route(world, player, start, path),
        0 <= n <= path.len(),
    ensures
        start.walk(path.take(n)).manhattan(start.walk(path)) <= path.len() - n,
    decreases path.len() - n,
{
    if n == path.len() {
        assert(path.take(n) =~= path);
    } else {
        lemma_route_rest(world, player, start, path, n + 1);
        lemma_walk_take(start, path, n);
        let here = start.walk(path.take(n));
        let next = start.walk(path.take(n + 1));
        assert(valid_step(world, player, next));
        lemma_step_is_near(world, here, path[n]);
    }
}

/// No route is shorter than the Manhattan distance between its ends.
pub proof fn lemma_route_at_least_manhattan(
    world: WorldMap,
    player: Coordinate,
    start: Coordinate,
    path: Seq<Direction>,
)
    requires
        route(world, player, start, path),
    ensures
        path.len() >= start.manhattan(start.walk(path)),
{
    lemma_route_rest(world, player, start, path, 0);
    assert(path.take(0) =~= Seq::<Direction>::empty());
}

/// The key under which a node stands in the table.
pub open spec fn key_of(direction: Direction, c: Coordinate) -> NodeKey {
    (direction.spec_value(), c.x, c.y)
}

/// The coordinate of a key.
pub open spec fn coord_of(key: NodeKey) -> Coordinate {
    Coordinate { x: key.1, y: key.2 }
}

/// The direction of arrival of a key.
pub open spec fn dir_of(key: NodeKey) -> Direction {
    if key.0 == 0 {
        Direction::Up
    } else if key.0 == 1 {
        Direction::Down
    } else if key.0 == 2 {
        Direction::Left
    } else {
        Direction::Right
    }
}

/// Whether a route may lead over `coords`.
pub fn valid_position(coords: Coordinate, world: &WorldMap, player: &Coordinate) -> (r: bool)
    ensures
        r == valid_step(*world, *player, coords),
{
    if world.in_bounds(coords) && coords != *player {
        match world.local_movement(coords) {
            Some(code) => can_walk(code),
            None => false,
        }
    } else {
        false
    }
}

/// The neighbour in `direction`, at the cost of one, if a route may lead
/// over it.
pub open spec fn successor(
    coordinate: Coordinate,
    world: WorldMap,
    player: Coordinate,
    direction: Direction,
) -> Seq<(Node, u64)> {
    if valid_step(world, player, coordinate.step(direction)) {
        seq![((direction, coordinate.step(direction)), 1u64)]
    } else {
        Seq::empty()
    }
}

/// The neighbours over which a route may lead on, in the order up, down,
/// left, right.
pub open spec fn successors(coordinate: Coordinate, world: WorldMap, player: Coordinate) -> Seq<
    (Node, u64),
> {
    successor(coordinate, world, player, Direction::Up) + successor(
        coordinate,
        world,
        player,
        Direction::Down,
    ) + successor(coordinate, world, player, Direction::Left) + successor(
        coordinate,
        world,
        player,
        Direction::Right,
    )
}

pub fn valid_positions(coordinate: Coordinate, world: &WorldMap, player: &Coordinate) -> (r: Vec<
    (Node, u64),
>)
    ensures
        r@ == successors(coordinate, *world, *player),
{
    let mut r: Vec<(Node, u64)> = Vec::new();
    let up = coordinate.in_direction(Direction::Up);
    if valid_position(up, world, player) {
        r.push(((Direction::Up, up), 1));
    }
    assert(r@ =~= successor(coordinate, *world, *player, Direction::Up));
    let down = coordinate.in_direction(Direction::Down);
    if valid_position(down, world, player) {
        r.push(((Direction::Down, down), 1));
    }
    assert(r@ =~= successor(coordinate, *world, *player, Direction::Up) + successor(
        coordinate,
        *world,
        *player,
        Direction::Down,
    ));
    let left = coordinate.in_direction(Direction::Left);
    if valid_position(left, world, player) {
        r.push(((Direction::Left, left), 1));
    }
    assert(r@ =~= successor(coordinate, *world, *player, Direction::Up) + successor(
        coordinate,
        *world,
        *player,
        Direction::Down,
    ) + successor(coordinate, *world, *player, Direction::Left));
    let right = coordinate.in_direction(Direction::Right);
    if valid_position(right, world, player) {
        r.push(((Direction::Right, right), 1));
    }
    assert(r@ =~= successors(coordinate, *world, *player));
    r
}

/// The Manhattan distance between two coordinates.
pub fn distance(coordinate: &Coordinate, other: &Coordinate) -> (r: u64)
    ensures
        r == coordinate.manhattan(*other),
{
    coordinate.distance(other)
}

} // verus!

verus! {

/// The entries of a table.
pub type Entries = Seq<(NodeKey, NodeValue)>;

/// The cost of the best way found to the node at place `i`.
pub open spec fn cost_at(entries: Entries, i: int) -> u64 {
    entries[i].1.1
}

/// The place of the parent of the node at place `i`.
pub open spec fn parent_at(entries: Entries, i: int) -> usize {
    entries[i].1.0
}

/// The table of a search from `start` is in order: the start stands first,
/// without a parent and at no cost; no node stands in it twice; and every
/// other node is a neighbour of its parent over which a route may lead,
/// reached in the direction of its key, at a cost above its parent's and
/// below the number of nodes.
pub open spec fn table_ok(
    entries: Entries,
    start: NodeKey,
    world: WorldMap,
    player: Coordinate,
) -> bool {
    &&& entries.len() >= 1
    &&& entries[0] == (start, (usize::MAX, 0u64))
    &&& forall|i: int, j: int|
        0 <= i < j < entries.len() ==> (#[trigger] entries[i]).0 != (#[trigger] entries[j]).0
    &&& forall|i: int|
        1 <= i < entries.len() ==> entry_ok(entries, world, player, i)
}

/// The node at place `i` hangs on its parent as it should.
pub open spec fn entry_ok(entries: Entries, world: WorldMap, player: Coordinate, i: int) -> bool {
    let key = entries[i].0;
    let parent = parent_at(entries, i);
    &&& key.0 < 4
    &&& parent < entries.len()
    &&& coord_of(key) == coord_of(entries[parent as int].0).step(dir_of(key))
    &&& valid_step(world, player, coord_of(key))
    &&& cost_at(entries, i) > cost_at(entries, parent as int)
    &&& cost_at(entries, i) < entries.len()
}

/// The steps that lead from the start to the node at place `i`, along the
/// parents.
pub open spec fn trail(entries: Entries, i: int) -> Seq<Direction>
    decreases
        (if 0 < i < entries.len() {
            cost_at(entries, i) + 1
        } else {
            0
        }),
{
    if 0 < i < entries.len() && parent_at(entries, i) < entries.len() && cost_at(
        entries,
        parent_at(entries, i) as int,
    ) < cost_at(entries, i) {
        trail(entries, parent_at(entries, i) as int).push(dir_of(entries[i].0))
    } else {
        Seq::empty()
    }
}

/// The trail of a node is a route from the start to the node, with at
/// most as many steps as the node's cost.
pub proof fn lemma_trail(
    entries: Entries,
    start: NodeKey,
    world: WorldMap,
    player: Coordinate,
    i: int,
)
    requires
        table_ok(entries, start, world, player),
        0 <= i < entries.len(),
    ensures
        route(world, player, coord_of(start), trail(entries, i)),
        coord_of(start).walk(trail(entries, i)) == coord_of(entries[i].0),
        trail(entries, i).len() <= cost_at(entries, i),
    decreases cost_at(entries, i),
{
    let origin = coord_of(start);
    if i > 0 {
        assert(entry_ok(entries, world, player, i));
        let parent = parent_at(entries, i) as int;
        lemma_trail(entries, start, world, player, parent);
        let head = trail(entries, parent);
        let whole = trail(entries, i);
        assert(whole == head.push(dir_of(entries[i].0)));
        assert(whole.drop_last() =~= head);
        assert forall|k: int| 0 < k <= whole.len() implies valid_step(
            world,
            player,
            #[trigger] origin.walk(whole.take(k)),
        ) by {
            if k < whole.len() {
                assert(whole.take(k) =~= head.take(k));
            } else {
                assert(whole.take(k) =~= whole);
            }
        }
    } else {
        assert(trail(entries, 0).len() == 0);
    }
}

/// The sum of the costs of all nodes.
pub open spec fn total_cost(entries: Entries) -> int
    decreases entries.len(),
{
    if entries.len() == 0 {
        0
    } else {
        total_cost(entries.drop_last()) + entries.last().1.1
    }
}

pub proof fn lemma_total_cost_push(entries: Entries, entry: (NodeKey, NodeValue))
    ensures
        total_cost(entries.push(entry)) == total_cost(entries) + entry.1.1,
{
    assert(entries.push(entry).drop_last() =~= entries);
}

pub proof fn lemma_total_cost_update(entries: Entries, i: int, entry: (NodeKey, NodeValue))
    requires
        0 <= i < entries.len(),
    ensures
        total_cost(entries.update(i, entry)) == total_cost(entries) - entries[i].1.1 + entry.1.1,
    decreases entries.len(),
{
    let updated = entries.update(i, entry);
    if i == entries.len() - 1 {
        assert(updated.drop_last() =~= entries.drop_last());
    } else {
        lemma_total_cost_update(entries.drop_last(), i, entry);
        assert(updated.drop_last() =~= entries.drop_last().update(i, entry));
    }
}

/// The most nodes that a search on `world` can reach: four for every tile
/// of the map, and the start.
pub open spec fn node_bound(world: WorldMap) -> int {
    if world.width > 0 && world.height > 0 {
        4 * (world.width * world.height) + 1
    } else {
        1
    }
}

/// The number that stands for a key on a map.
pub open spec fn code_of(key: NodeKey, width: int) -> int {
    key.0 + 4 * (key.1 + width * key.2)
}

/// A table in order holds no more nodes than a search can reach.
pub proof fn lemma_table_bound(
    entries: Entries,
    start: NodeKey,
    world: WorldMap,
    player: Coordinate,
)
    requires
        table_ok(entries, start, world, player),
    ensures
        entries.len() <= node_bound(world),
{
    let width = world.width as int;
    let height = world.height as int;
    if entries.len() > 1 {
        assert(entry_ok(entries, world, player, 1));
        assert(world.spec_in_bounds(coord_of(entries[1].0)));
        let codes = Seq::new((entries.len() - 1) as nat, |i: int| code_of(entries[i + 1].0, width));
        assert forall|i: int| 0 <= i < codes.len() implies 0 <= #[trigger] codes[i] < 4 * (width
            * height) by {
            assert(entry_ok(entries, world, player, i + 1));
            let key = entries[i + 1].0;
            lemma_index_in_grid(key.1 as int, key.2 as int, width, height);
            assert(width * key.2 == key.2 * width) by (nonlinear_arith);
        }
        assert forall|i: int, j: int| 0 <= i < codes.len() && 0 <= j < codes.len() && i != j implies codes[i]
            != codes[j] by {
            assert(entry_ok(entries, world, player, i + 1));
            assert(entry_ok(entries, world, player, j + 1));
            let a = entries[i + 1].0;
            let b = entries[j + 1].0;
            if i < j {
                assert(entries[i + 1].0 != entries[j + 1].0);
            } else {
                assert(entries[j + 1].0 != entries[i + 1].0);
            }
            if code_of(a, width) == code_of(b, width) {
                assert(a.0 == b.0);
                assert(a.1 + width * a.2 == b.1 + width * b.2);
                lemma_row_major_injective(a.1 as int, a.2 as int, b.1 as int, b.2 as int, width);
            }
        }
        assert(codes.no_duplicates());
        codes.unique_seq_to_set();
        vstd::set_lib::lemma_int_range(0, 4 * (width * height));
        let range = vstd::set_lib::set_int_range(0, 4 * (width * height));
        assert(codes.to_set().subset_of(range)) by {
            assert forall|v: int| codes.to_set().contains(v) implies range.contains(v) by {
                let k = choose|k: int| 0 <= k < codes.len() && codes[k] == v;
                assert(0 <= codes[k] < 4 * (width * height));
            }
        }
        vstd::set_lib::lemma_len_subset(codes.to_set(), range);
    }
}

/// Two tiles of a row-major grid that count to the same place are the
/// same tile.
pub proof fn lemma_row_major_injective(x1: int, y1: int, x2: int, y2: int, width: int)
    requires
        0 <= x1 < width,
        0 <= x2 < width,
        x1 + width * y1 == x2 + width * y2,
    ensures
        x1 == x2,
        y1 == y2,
{
    if y1 < y2 {
        assert(width * y2 - width * y1 >= width) by (nonlinear_arith)
            requires
                y1 < y2,
                width > 0,
        ;
    } else if y2 < y1 {
        assert(width * y1 - width * y2 >= width) by (nonlinear_arith)
            requires
                y2 < y1,
                width > 0,
        ;
    }
}

/// What is left for a search to do: it falls with every node that comes
/// into the table and with every cost that shrinks.
pub open spec fn work_left(entries: Entries, world: WorldMap) -> int {
    (node_bound(world) - entries.len()) * (node_bound(world) + 1) + total_cost(entries)
}

/// The costs of a table in order add up to nothing below zero.
pub proof fn lemma_total_cost_nonneg(entries: Entries)
    ensures
        total_cost(entries) >= 0,
    decreases entries.len(),
{
    if entries.len() > 0 {
        lemma_total_cost_nonneg(entries.drop_last());
    }
}

/// The queue is in order with the table: every entry names a node of the
/// table, at a cost not below the node's and below the number of nodes,
/// with an estimated cost between the cost and the cost plus the distance
/// that is left.
pub open spec fn queue_ok(queue: Seq<SmallestCostHolder>, entries: Entries, goal: Coordinate) -> bool {
    forall|h: SmallestCostHolder| #[trigger]
        queue.contains(h) ==> {
            &&& h.index < entries.len()
            &&& cost_at(entries, h.index as int) <= h.cost < entries.len()
            &&& h.cost <= h.estimated_cost <= h.cost + coord_of(
                entries[h.index as int].0,
            ).manhattan(goal)
        }
}

/// The node at place `i` waits in the queue at its cost.
pub open spec fn open(queue: Seq<SmallestCostHolder>, entries: Entries, i: int) -> bool {
    exists|h: SmallestCostHolder| #[trigger]
        queue.contains(h) && h.index == i && h.cost == cost_at(entries, i)
}

/// The table holds the node at a cost of at most `bound`.
pub open spec fn has_entry(entries: Entries, key: NodeKey, bound: int) -> bool {
    exists|j: int| 0 <= j < entries.len() && (#[trigger] entries[j]).0 == key && entries[j].1.1
        <= bound
}

/// The neighbour of the node at place `i` in `direction` is in the table
/// at one more than the node's cost at most, if a route may lead over it.
pub open spec fn relaxed_towards(
    entries: Entries,
    world: WorldMap,
    player: Coordinate,
    i: int,
    direction: Direction,
) -> bool {
    let next = coord_of(entries[i].0).step(direction);
    valid_step(world, player, next) ==> has_entry(
        entries,
        key_of(direction, next),
        cost_at(entries, i) + 1,
    )
}

/// The node at place `i` has been looked at: all its neighbours are in
/// the table.
pub open spec fn relaxed(entries: Entries, world: WorldMap, player: Coordinate, i: int) -> bool {
    &&& relaxed_towards(entries, world, player, i, Direction::Up)
    &&& relaxed_towards(entries, world, player, i, Direction::Down)
    &&& relaxed_towards(entries, world, player, i, Direction::Left)
    &&& relaxed_towards(entries, world, player, i, Direction::Right)
}

/// Every node but the one at place `except` waits in the queue or has
/// been looked at, and every node on the goal waits in the queue.
pub open spec fn frontier_ok(
    queue: Seq<SmallestCostHolder>,
    entries: Entries,
    world: WorldMap,
    player: Coordinate,
    goal: Coordinate,
    except: int,
) -> bool {
    &&& forall|i: int|
        0 <= i < entries.len() && i != except ==> #[trigger] open(queue, entries, i) || relaxed(
            entries,
            world,
            player,
            i,
        )
    &&& forall|i: int|
        0 <= i < entries.len() && i != except && coord_of((#[trigger] entries[i]).0) == goal
            ==> open(queue, entries, i)
}

/// While a search goes on, every route to the goal has a node in the
/// queue whose estimated cost is at most the length of the route.
pub proof fn lemma_frontier(
    queue: Seq<SmallestCostHolder>,
    entries: Entries,
    start: NodeKey,
    world: WorldMap,
    player: Coordinate,
    goal: Coordinate,
    path: Seq<Direction>,
    n: int,
    j: int,
)
    requires
        table_ok(entries, start, world, player),
        queue_ok(queue, entries, goal),
        frontier_ok(queue, entries, world, player, goal, -1),
        route(world, player, coord_of(start), path),
        coord_of(start).walk(path) == goal,
        0 <= n <= path.len(),
        0 <= j < entries.len(),
        coord_of(entries[j].0) == coord_of(start).walk(path.take(n)),
        cost_at(entries, j) <= n,
    ensures
        exists|h: SmallestCostHolder| #[trigger] queue.contains(h) && h.estimated_cost <= path.len(),
    decreases path.len() - n,
{
    let origin = coord_of(start);
    if open(queue, entries, j) {
        let h = choose|h: SmallestCostHolder| #[trigger]
            queue.contains(h) && h.index == j && h.cost == cost_at(entries, j);
        lemma_route_rest(world, player, origin, path, n);
        assert(queue.contains(h) && h.estimated_cost <= path.len());
    } else {
        assert(relaxed(entries, world, player, j));
        if n == path.len() {
            assert(path.take(n) =~= path);
            assert(coord_of(entries[j].0) == goal);
            assert(open(queue, entries, j));
        } else {
            let d = path[n];
            lemma_walk_take(origin, path, n);
            let next = origin.walk(path.take(n + 1));
            assert(valid_step(world, player, next));
            assert(relaxed_towards(entries, world, player, j, d));
            assert(has_entry(entries, key_of(d, next), cost_at(entries, j) + 1));
            let k = choose|k: int| 0 <= k < entries.len() && (#[trigger] entries[k]).0 == key_of(d, next)
                && entries[k].1.1 <= cost_at(entries, j) + 1;
            lemma_frontier(queue, entries, start, world, player, goal, path, n + 1, k);
        }
    }
}

} // verus!

verus! {

/// Every neighbour that the list of successors holds is one over which a
/// route may lead, reached by one step at the cost of one.
pub proof fn lemma_successor_at(coordinate: Coordinate, world: WorldMap, player: Coordinate, k: int)
    requires
        0 <= k < successors(coordinate, world, player).len(),
    ensures
        ({
            let found = successors(coordinate, world, player)[k];
            &&& found.0.1 == coordinate.step(found.0.0)
            &&& valid_step(world, player, found.0.1)
            &&& found.1 == 1
        }),
{
}

/// Every neighbour over which a route may lead is in the list of
/// successors.
pub proof fn lemma_successor_found(
    coordinate: Coordinate,
    world: WorldMap,
    player: Coordinate,
    direction: Direction,
)
    requires
        valid_step(world, player, coordinate.step(direction)),
    ensures
        exists|k: int|
            0 <= k < successors(coordinate, world, player).len() && #[trigger] successors(
                coordinate,
                world,
                player,
            )[k] == ((direction, coordinate.step(direction)), 1u64),
{
    let list = successors(coordinate, world, player);
    let up = successor(coordinate, world, player, Direction::Up);
    let down = successor(coordinate, world, player, Direction::Down);
    let left = successor(coordinate, world, player, Direction::Left);
    let wanted = ((direction, coordinate.step(direction)), 1u64);
    match direction {
        Direction::Up => {
            assert(list[0] == wanted);
        },
        Direction::Down => {
            assert(list[up.len() as int] == wanted);
        },
        Direction::Left => {
            assert(list[(up.len() + down.len()) as int] == wanted);
        },
        Direction::Right => {
            assert(list[(up.len() + down.len() + left.len()) as int] == wanted);
        },
    }
}

fn node_key(direction: Direction, coordinate: Coordinate) -> (r: NodeKey)
    ensures
        r == key_of(direction, coordinate),
        r.0 < 4,
        dir_of(r) == direction,
        coord_of(r) == coordinate,
{
    (direction.value(), coordinate.x, coordinate.y)
}

fn key_direction(key: &NodeKey) -> (r: Direction)
    ensures
        r == dir_of(*key),
{
    if key.0 == 0 {
        Direction::Up
    } else if key.0 == 1 {
        Direction::Down
    } else if key.0 == 2 {
        Direction::Left
    } else {
        Direction::Right
    }
}

/// The steps from the start to the node at place `index`, first to last.
fn reverse_path(
    parents: &NodeTable,
    index: usize,
    Ghost(start): Ghost<NodeKey>,
    Ghost(world): Ghost<WorldMap>,
    Ghost(player): Ghost<Coordinate>,
) -> (r: Vec<Direction>)
    requires
        table_ok(table_entries(*parents), start, world, player),
        index < table_entries(*parents).len(),
    ensures
        r@ == trail(table_entries(*parents), index as int),
{
    let ghost entries = table_entries(*parents);
    let ghost whole = trail(entries, index as int);
    let mut back: Vec<Direction> = Vec::new();
    let mut i: usize = index;
    while i != 0
        invariant
            entries == table_entries(*parents),
            table_ok(entries, start, world, player),
            i < entries.len(),
            whole == trail(entries, index as int),
            whole.len() == trail(entries, i as int).len() + back@.len(),
            trail(entries, i as int) == whole.take(trail(entries, i as int).len() as int),
            forall|k: int| 0 <= k < back@.len() ==> back@[k] == whole[whole.len() - 1 - k],
        decreases cost_at(entries, i as int),
    {
        assert(entry_ok(entries, world, player, i as int));
        let found = table_get_index(parents, i);
        let (key, value) = found.unwrap();
        let ghost here = trail(entries, i as int);
        let ghost parent = trail(entries, value.0 as int);
        assert(here == parent.push(dir_of(key)));
        assert(parent =~= whole.take(parent.len() as int)) by {
            assert forall|k: int| 0 <= k < parent.len() implies parent[k] == whole[k] by {
                assert(here[k] == parent[k]);
                assert(whole.take(here.len() as int)[k] == whole[k]);
            }
        }
        assert(whole[here.len() - 1] == dir_of(key)) by {
            assert(whole.take(here.len() as int)[here.len() - 1] == whole[here.len() - 1]);
        }
        back.push(key_direction(&key));
        i = value.0;
    }
    assert(trail(entries, 0).len() == 0);
    let mut path: Vec<Direction> = Vec::new();
    let mut k: usize = back.len();
    while k > 0
        invariant
            k <= back@.len(),
            back@.len() == whole.len(),
            path@.len() == back@.len() - k,
            forall|m: int| 0 <= m < back@.len() ==> back@[m] == whole[whole.len() - 1 - m],
            forall|m: int| 0 <= m < path@.len() ==> path@[m] == whole[m],
        decreases k,
    {
        k -= 1;
        path.push(back[k]);
    }
    assert(path@ =~= whole);
    path
}

/// The shortest route from `start` to `goal` and its cost, which is the
/// number of its steps, or `None` where no route leads there.
fn astar(start: &Node, world: &WorldMap, player: &Coordinate, goal: &Coordinate) -> (r: Option<
    (Vec<Direction>, u64),
>)
    ensures
        match r {
            Some((path, cost)) => {
                &&& route(*world, *player, start.1, path@)
                &&& start.1.walk(path@) == *goal
                &&& cost == path@.len()
                &&& forall|other: Seq<Direction>| #[trigger]
                    route(*world, *player, start.1, other) && start.1.walk(other) == *goal
                        ==> path@.len() <= other.len()
            },
            None => forall|other: Seq<Direction>| #[trigger]
                route(*world, *player, start.1, other) ==> start.1.walk(other) != *goal,
        },
{
    let start_key = node_key(start.0, start.1);
    let mut to_see = OpenQueue::new();
    let first = SmallestCostHolder { estimated_cost: 0, cost: 0, index: 0 };
    to_see.push(first);
    let mut parents = table_new();
    table_insert_full(&mut parents, start_key, (usize::MAX, 0));
    proof {
        let entries = table_entries(parents);
        assert(entries =~= seq![(start_key, (usize::MAX, 0u64))]);
        assert(to_see@.contains(first));
        assert(open(to_see@, entries, 0));
        lemma_table_bound(entries, start_key, *world, *player);
        lemma_total_cost_nonneg(entries);
        lemma_work_left_nonneg(entries, start_key, *world, *player);
    }
    loop
        invariant
            start_key == key_of(start.0, start.1),
            to_see.wf(),
            table_ok(table_entries(parents), start_key, *world, *player),
            queue_ok(to_see@, table_entries(parents), *goal),
            frontier_ok(to_see@, table_entries(parents), *world, *player, *goal, -1),
            work_left(table_entries(parents), *world) >= 0,
        decreases work_left(table_entries(parents), *world), to_see@.len(),
    {
        let ghost queue0 = to_see@;
        let ghost entries0 = table_entries(parents);
        let popped = match to_see.pop() {
            Some(popped) => popped,
            None => {
                proof {
                    assert forall|other: Seq<Direction>| #[trigger]
                        route(*world, *player, start.1, other) implies start.1.walk(other)
                        != *goal by {
                        if start.1.walk(other) == *goal {
                            assert(other.take(0) =~= Seq::<Direction>::empty());
                            lemma_frontier(
                                queue0,
                                entries0,
                                start_key,
                                *world,
                                *player,
                                *goal,
                                other,
                                0,
                                0,
                            );
                            let h = choose|h: SmallestCostHolder| #[trigger]
                                queue0.contains(h) && h.estimated_cost <= other.len();
                            assert(queue0.contains(h));
                        }
                    }
                }
                return None;
            },
        };
        assert(queue0.contains(popped));
        let index: usize = popped.index;
        let found = table_get_index(&parents, index);
        let (key, value) = found.unwrap();
        let coords = Coordinate { x: key.1, y: key.2 };
        let stored: u64 = value.1;
        if coords == *goal {
            let path = reverse_path(&parents, index, Ghost(start_key), Ghost(*world), Ghost(*player));
            proof {
                lemma_trail(entries0, start_key, *world, *player, index as int);
                assert forall|other: Seq<Direction>| #[trigger]
                    route(*world, *player, start.1, other) && start.1.walk(other)
                        == *goal implies path@.len() <= other.len() by {
                    assert(other.take(0) =~= Seq::<Direction>::empty());
                    lemma_frontier(
                        queue0,
                        entries0,
                        start_key,
                        *world,
                        *player,
                        *goal,
                        other,
                        0,
                        0,
                    );
                    let h = choose|h: SmallestCostHolder| #[trigger]
                        queue0.contains(h) && h.estimated_cost <= other.len();
                    assert(!before(h, popped));
                }
                // The route found is itself a route to the goal: the cost
                // of the entry is no more than its length, and no less.
                assert(path@.take(0) =~= Seq::<Direction>::empty());
                lemma_frontier(
                    queue0,
                    entries0,
                    start_key,
                    *world,
                    *player,
                    *goal,
                    path@,
                    0,
                    0,
                );
                let h = choose|h: SmallestCostHolder| #[trigger]
                    queue0.contains(h) && h.estimated_cost <= path@.len();
                assert(!before(h, popped));
            }
            return Some((path, popped.cost));
        }
        if popped.cost > stored {
            proof {
                lemma_queue_without(queue0, to_see@, entries0, *world, *player, *goal, popped, -1);
            }
            continue ;
        }
        proof {
            lemma_queue_without(queue0, to_see@, entries0, *world, *player, *goal, popped, index as int);
        }
        let next_positions = valid_positions(coords, world, player);
        // Every cost is below the number of nodes, so one more still fits.
        let known: usize = table_len(&parents);
        assert(popped.cost < known);
        let ghost queue1 = to_see@;
        let ghost pushes: int = 0;
        let mut k: usize = 0;
        while k < next_positions.len()
            invariant
                k <= next_positions@.len(),
                next_positions@ == successors(coords, *world, *player),
                start_key == key_of(start.0, start.1),
                to_see.wf(),
                table_ok(table_entries(parents), start_key, *world, *player),
                queue_ok(to_see@, table_entries(parents), *goal),
                frontier_ok(to_see@, table_entries(parents), *world, *player, *goal, index as int),
                index < table_entries(parents).len(),
                table_entries(parents)[index as int].0 == key,
                coords == coord_of(key),
                coords != *goal,
                cost_at(table_entries(parents), index as int) == popped.cost,
                popped.cost < entries0.len(),
                popped.cost < u64::MAX,
                entries0.len() <= table_entries(parents).len(),
                forall|m: int|
                    0 <= m < k ==> has_entry(
                        table_entries(parents),
                        key_of((#[trigger] next_positions@[m]).0.0, next_positions@[m].0.1),
                        popped.cost + 1,
                    ),
                0 <= pushes,
                to_see@.len() == queue1.len() + pushes,
                0 <= work_left(table_entries(parents), *world),
                work_left(table_entries(parents), *world) + pushes <= work_left(entries0, *world),
            decreases next_positions@.len() - k,
        {
            let ghost entries = table_entries(parents);
            let ghost queue = to_see@;
            proof {
                lemma_successor_at(coords, *world, *player, k as int);
            }
            let (node, move_cost) = next_positions[k];
            let (direction, next) = node;
            let new_cost: u64 = popped.cost + move_cost;
            let next_key = node_key(direction, next);
            proof {
                lemma_step_is_near(*world, coords, direction);
            }
            let mut place: Option<usize> = None;
            match table_get_full(&parents, &next_key) {
                None => {
                    let inserted = table_insert_full(&mut parents, next_key, (index, new_cost));
                    place = Some(inserted.0);
                    proof {
                        lemma_insert_new(
                            entries,
                            table_entries(parents),
                            queue,
                            start_key,
                            *world,
                            *player,
                            *goal,
                            index,
                            next_key,
                            new_cost,
                        );
                    }
                },
                Some((at, (_, old_cost))) => {
                    if old_cost > new_cost {
                        let updated = table_insert_full(&mut parents, next_key, (index, new_cost));
                        assert(updated.0 == at) by {
                            if updated.0 != at {
                                if updated.0 < at {
                                    assert(entries[updated.0 as int].0 != entries[at as int].0);
                                } else {
                                    assert(entries[at as int].0 != entries[updated.0 as int].0);
                                }
                            }
                        }
                        place = Some(at);
                        proof {
                            lemma_insert_better(
                                entries,
                                table_entries(parents),
                                queue,
                                start_key,
                                *world,
                                *player,
                                *goal,
                                index,
                                at,
                                next_key,
                                new_cost,
                            );
                        }
                    } else {
                        assert(has_entry(entries, next_key, popped.cost + 1)) by {
                            assert(entries[at as int].0 == next_key);
                        }
                    }
                },
            }
            if let Some(n) = place {
                let left: u64 = distance(&next, goal);
                let estimated_cost: u64 = if left > u64::MAX - new_cost {
                    u64::MAX
                } else {
                    new_cost + left
                };
                let holder = SmallestCostHolder { estimated_cost, cost: new_cost, index: n };
                to_see.push(holder);
                proof {
                    pushes = pushes + 1;
                    lemma_queue_with(
                        queue,
                        to_see@,
                        table_entries(parents),
                        *world,
                        *player,
                        *goal,
                        holder,
                        index as int,
                    );
                    assert(has_entry(table_entries(parents), next_key, popped.cost + 1)) by {
                        assert(table_entries(parents)[n as int].0 == next_key);
                    }
                }
            }
            proof {
                let now = table_entries(parents);
                assert forall|m: int| 0 <= m < k + 1 implies has_entry(
                    now,
                    key_of((#[trigger] next_positions@[m]).0.0, next_positions@[m].0.1),
                    popped.cost + 1,
                ) by {
                    if m < k {
                        lemma_has_entry_kept(
                            entries,
                            now,
                            key_of(next_positions@[m].0.0, next_positions@[m].0.1),
                            popped.cost + 1,
                        );
                    }
                }
            }
            k += 1;
        }
        proof {
            let now = table_entries(parents);
            assert(relaxed(now, *world, *player, index as int)) by {
                assert forall|d: Direction| relaxed_towards(now, *world, *player, index as int, d) by {
                    if valid_step(*world, *player, coords.step(d)) {
                        lemma_successor_found(coords, *world, *player, d);
                        let m = choose|m: int|
                            0 <= m < successors(coords, *world, *player).len() && #[trigger] successors(
                                coords,
                                *world,
                                *player,
                            )[m] == ((d, coords.step(d)), 1u64);
                        assert(next_positions@[m] == ((d, coords.step(d)), 1u64));
                    }
                }
            }
        }
    }
}

/// What is left for a search with a table in order is nothing below zero.
pub proof fn lemma_work_left_nonneg(
    entries: Entries,
    start: NodeKey,
    world: WorldMap,
    player: Coordinate,
)
    requires
        table_ok(entries, start, world, player),
    ensures
        work_left(entries, world) >= 0,
{
    lemma_table_bound(entries, start, world, player);
    lemma_total_cost_nonneg(entries);
    let bound = node_bound(world);
    assert((bound - entries.len()) * (bound + 1) >= 0) by (nonlinear_arith)
        requires
            bound - entries.len() >= 0,
            bound + 1 >= 0,
    ;
}

/// A table that has a node has it still after a node was added or the
/// cost of one has shrunk.
pub proof fn lemma_has_entry_kept(before_table: Entries, after_table: Entries, key: NodeKey, bound: int)
    requires
        has_entry(before_table, key, bound),
        before_table.len() <= after_table.len(),
        forall|j: int|
            0 <= j < before_table.len() ==> (#[trigger] after_table[j]).0 == before_table[j].0
                && after_table[j].1.1 <= before_table[j].1.1,
    ensures
        has_entry(after_table, key, bound),
{
    let j = choose|j: int| 0 <= j < before_table.len() && (#[trigger] before_table[j]).0 == key
        && before_table[j].1.1 <= bound;
    assert(after_table[j].0 == key);
}

/// Taking an entry out of the queue leaves the queue in order. A node
/// that waited in the queue at its cost still does, unless it is the node
/// of the entry; so the frontier is in order but for that node, and
/// altogether where the entry was out of date.
pub proof fn lemma_queue_without(
    queue: Seq<SmallestCostHolder>,
    rest: Seq<SmallestCostHolder>,
    entries: Entries,
    world: WorldMap,
    player: Coordinate,
    goal: Coordinate,
    popped: SmallestCostHolder,
    except: int,
)
    requires
        queue_ok(queue, entries, goal),
        frontier_ok(queue, entries, world, player, goal, -1),
        queue.contains(popped),
        forall|other: SmallestCostHolder|
            queue.contains(other) && other != popped ==> rest.contains(other),
        forall|other: SmallestCostHolder| rest.contains(other) ==> queue.contains(other),
        except == popped.index || (except == -1 && popped.cost > cost_at(
            entries,
            popped.index as int,
        )),
    ensures
        queue_ok(rest, entries, goal),
        frontier_ok(rest, entries, world, player, goal, except),
{
    assert forall|i: int| 0 <= i < entries.len() && i != except && open(queue, entries, i) implies open(
        rest,
        entries,
        i,
    ) by {
        let h = choose|h: SmallestCostHolder| #[trigger]
            queue.contains(h) && h.index == i && h.cost == cost_at(entries, i);
        assert(h != popped);
        assert(rest.contains(h));
    }
}

/// Putting an entry for a node into the queue, at the node's cost, leaves
/// the queue and the frontier in order.
pub proof fn lemma_queue_with(
    queue: Seq<SmallestCostHolder>,
    more: Seq<SmallestCostHolder>,
    entries: Entries,
    world: WorldMap,
    player: Coordinate,
    goal: Coordinate,
    holder: SmallestCostHolder,
    except: int,
)
    requires
        forall|h: SmallestCostHolder| more.contains(h) <==> queue.contains(h) || h == holder,
        holder.index < entries.len(),
        holder.cost == cost_at(entries, holder.index as int),
        holder.cost < entries.len(),
        holder.cost <= holder.estimated_cost <= holder.cost + coord_of(
            entries[holder.index as int].0,
        ).manhattan(goal),
        forall|h: SmallestCostHolder| #[trigger]
            queue.contains(h) ==> {
                &&& h.index < entries.len()
                &&& cost_at(entries, h.index as int) <= h.cost < entries.len()
                &&& h.cost <= h.estimated_cost <= h.cost + coord_of(
                    entries[h.index as int].0,
                ).manhattan(goal)
            },
        forall|i: int|
            0 <= i < entries.len() && i != except && i != holder.index ==> #[trigger] open(
                queue,
                entries,
                i,
            ) || relaxed(entries, world, player, i),
        forall|i: int|
            0 <= i < entries.len() && i != except && i != holder.index && coord_of(
                (#[trigger] entries[i]).0,
            ) == goal ==> open(queue, entries, i),
    ensures
        queue_ok(more, entries, goal),
        except != holder.index ==> frontier_ok(more, entries, world, player, goal, except),
{
    assert(more.contains(holder));
    assert forall|i: int| 0 <= i < entries.len() && open(queue, entries, i) implies open(
        more,
        entries,
        i,
    ) by {
        let h = choose|h: SmallestCostHolder| #[trigger]
            queue.contains(h) && h.index == i && h.cost == cost_at(entries, i);
        assert(more.contains(h));
    }
    assert(open(more, entries, holder.index as int));
}

/// A node that comes into the table new, as a neighbour of the node that
/// is being looked at: the table stays in order, the queue too, the
/// frontier too but for the new node, which has yet to be put into the
/// queue, and what is left to do shrinks.
pub proof fn lemma_insert_new(
    entries: Entries,
    grown: Entries,
    queue: Seq<SmallestCostHolder>,
    start: NodeKey,
    world: WorldMap,
    player: Coordinate,
    goal: Coordinate,
    parent: usize,
    key: NodeKey,
    cost: u64,
)
    requires
        table_ok(entries, start, world, player),
        queue_ok(queue, entries, goal),
        frontier_ok(queue, entries, world, player, goal, parent as int),
        0 <= parent < entries.len(),
        grown == entries.push((key, (parent, cost))),
        forall|i: int| 0 <= i < entries.len() ==> (#[trigger] entries[i]).0 != key,
        key.0 < 4,
        coord_of(key) == coord_of(entries[parent as int].0).step(dir_of(key)),
        valid_step(world, player, coord_of(key)),
        cost == cost_at(entries, parent as int) + 1,
        cost_at(entries, parent as int) < entries.len(),
    ensures
        table_ok(grown, start, world, player),
        forall|h: SmallestCostHolder| #[trigger]
            queue.contains(h) ==> {
                &&& h.index < grown.len()
                &&& cost_at(grown, h.index as int) <= h.cost < grown.len()
                &&& h.cost <= h.estimated_cost <= h.cost + coord_of(
                    grown[h.index as int].0,
                ).manhattan(goal)
            },
        forall|i: int|
            0 <= i < grown.len() && i != parent && i != entries.len() ==> #[trigger] open(
                queue,
                grown,
                i,
            ) || relaxed(grown, world, player, i),
        forall|i: int|
            0 <= i < grown.len() && i != parent && i != entries.len() && coord_of(
                (#[trigger] grown[i]).0,
            ) == goal ==> open(queue, grown, i),
        work_left(grown, world) >= 0,
        work_left(grown, world) + 1 <= work_left(entries, world),
        cost < grown.len(),
        forall|j: int|
            0 <= j < entries.len() ==> (#[trigger] grown[j]).0 == entries[j].0 && grown[j].1.1
                <= entries[j].1.1,
{
    let n = entries.len() as int;
    assert forall|i: int| 1 <= i < grown.len() implies entry_ok(grown, world, player, i) by {
        if i < n {
            assert(entry_ok(entries, world, player, i));
        }
    }
    assert(table_ok(grown, start, world, player));
    assert forall|i: int| 0 <= i < n && i != parent implies #[trigger] open(queue, grown, i)
        || relaxed(grown, world, player, i) by {
        if open(queue, entries, i) {
            let h = choose|h: SmallestCostHolder| #[trigger]
                queue.contains(h) && h.index == i && h.cost == cost_at(entries, i);
            assert(queue.contains(h) && h.index == i && h.cost == cost_at(grown, i));
        } else {
            assert(relaxed(entries, world, player, i));
            lemma_relaxed_kept(entries, grown, world, player, i);
        }
    }
    assert forall|i: int|
        0 <= i < grown.len() && i != parent && i != n && coord_of((#[trigger] grown[i]).0)
            == goal implies open(queue, grown, i) by {
        assert(entries[i].0 == grown[i].0);
        assert(open(queue, entries, i));
        let h = choose|h: SmallestCostHolder| #[trigger]
            queue.contains(h) && h.index == i && h.cost == cost_at(entries, i);
        assert(queue.contains(h) && h.index == i && h.cost == cost_at(grown, i));
    }
    lemma_total_cost_push(entries, (key, (parent, cost)));
    lemma_table_bound(grown, start, world, player);
    lemma_work_left_nonneg(grown, start, world, player);
    let bound = node_bound(world);
    assert((bound - (n + 1)) * (bound + 1) == (bound - n) * (bound + 1) - (bound + 1))
        by (nonlinear_arith);
}

/// A node that has been looked at stays so while nodes are added and
/// costs of other nodes shrink.
pub proof fn lemma_relaxed_kept(
    before_table: Entries,
    after_table: Entries,
    world: WorldMap,
    player: Coordinate,
    i: int,
)
    requires
        0 <= i < before_table.len(),
        relaxed(before_table, world, player, i),
        before_table.len() <= after_table.len(),
        forall|j: int|
            0 <= j < before_table.len() ==> (#[trigger] after_table[j]).0 == before_table[j].0
                && after_table[j].1.1 <= before_table[j].1.1,
        after_table[i].1.1 == before_table[i].1.1,
    ensures
        relaxed(after_table, world, player, i),
{
    assert(after_table[i].0 == before_table[i].0);
    assert forall|d: Direction| relaxed_towards(after_table, world, player, i, d) by {
        let next = coord_of(before_table[i].0).step(d);
        if valid_step(world, player, next) {
            assert(relaxed_towards(before_table, world, player, i, d));
            lemma_has_entry_kept(
                before_table,
                after_table,
                key_of(d, next),
                cost_at(before_table, i) + 1,
            );
        }
    }
}

/// A better way to a node that is in the table already, as a neighbour of
/// the node that is being looked at: the table stays in order, the queue
/// too, the frontier too but for that node, which has yet to be put into
/// the queue again, and what is left to do shrinks.
pub proof fn lemma_insert_better(
    entries: Entries,
    changed: Entries,
    queue: Seq<SmallestCostHolder>,
    start: NodeKey,
    world: WorldMap,
    player: Coordinate,
    goal: Coordinate,
    parent: usize,
    place: usize,
    key: NodeKey,
    cost: u64,
)
    requires
        table_ok(entries, start, world, player),
        queue_ok(queue, entries, goal),
        frontier_ok(queue, entries, world, player, goal, parent as int),
        0 <= parent < entries.len(),
        0 <= place < entries.len(),
        entries[place as int].0 == key,
        changed == entries.update(place as int, (key, (parent, cost))),
        key.0 < 4,
        coord_of(key) == coord_of(entries[parent as int].0).step(dir_of(key)),
        coord_of(key) != coord_of(entries[parent as int].0),
        valid_step(world, player, coord_of(key)),
        cost == cost_at(entries, parent as int) + 1,
        cost < cost_at(entries, place as int),
    ensures
        table_ok(changed, start, world, player),
        place != parent,
        cost < changed.len(),
        forall|h: SmallestCostHolder| #[trigger]
            queue.contains(h) ==> {
                &&& h.index < changed.len()
                &&& cost_at(changed, h.index as int) <= h.cost < changed.len()
                &&& h.cost <= h.estimated_cost <= h.cost + coord_of(
                    changed[h.index as int].0,
                ).manhattan(goal)
            },
        forall|i: int|
            0 <= i < changed.len() && i != parent && i != place ==> #[trigger] open(queue, changed, i)
                || relaxed(changed, world, player, i),
        forall|i: int|
            0 <= i < changed.len() && i != parent && i != place && coord_of((#[trigger] changed[i]).0)
                == goal ==> open(queue, changed, i),
        work_left(changed, world) >= 0,
        work_left(changed, world) + 1 <= work_left(entries, world),
        cost_at(changed, parent as int) == cost_at(entries, parent as int),
        changed[parent as int].0 == entries[parent as int].0,
        forall|j: int|
            0 <= j < entries.len() ==> (#[trigger] changed[j]).0 == entries[j].0 && changed[j].1.1
                <= entries[j].1.1,
{
    assert(place != 0);
    assert(entry_ok(entries, world, player, place as int));
    assert forall|i: int| 1 <= i < changed.len() implies entry_ok(changed, world, player, i) by {
        assert(entry_ok(entries, world, player, i));
    }
    assert(table_ok(changed, start, world, player));
    assert forall|i: int| 0 <= i < changed.len() && i != parent && i != place implies #[trigger] open(
        queue,
        changed,
        i,
    ) || relaxed(changed, world, player, i) by {
        if open(queue, entries, i) {
            let h = choose|h: SmallestCostHolder| #[trigger]
                queue.contains(h) && h.index == i && h.cost == cost_at(entries, i);
            assert(queue.contains(h) && h.index == i && h.cost == cost_at(changed, i));
        } else {
            assert(relaxed(entries, world, player, i));
            lemma_relaxed_kept(entries, changed, world, player, i);
        }
    }
    assert forall|i: int|
        0 <= i < changed.len() && i != parent && i != place && coord_of((#[trigger] changed[i]).0)
            == goal implies open(queue, changed, i) by {
        assert(entries[i].0 == changed[i].0);
        assert(open(queue, entries, i));
        let h = choose|h: SmallestCostHolder| #[trigger]
            queue.contains(h) && h.index == i && h.cost == cost_at(entries, i);
        assert(queue.contains(h) && h.index == i && h.cost == cost_at(changed, i));
    }
    lemma_total_cost_update(entries, place as int, (key, (parent, cost)));
    lemma_work_left_nonneg(changed, start, world, player);
}

/// Whether `path` is a shortest route from `start` to `goal`: it is a
/// route, it leads to the goal, and no route that leads there has fewer
/// steps.
pub open spec fn shortest(
    world: WorldMap,
    player: Coordinate,
    start: Coordinate,
    goal: Coordinate,
    path: Seq<Direction>,
) -> bool {
    &&& route(world, player, start, path)
    &&& start.walk(path) == goal
    &&& forall|other: Seq<Direction>| #[trigger]
        route(world, player, start, other) && start.walk(other) == goal ==> path.len()
            <= other.len()
}

/// Whether no route leads from `start` to `goal`.
pub open spec fn unreachable(
    world: WorldMap,
    player: Coordinate,
    start: Coordinate,
    goal: Coordinate,
) -> bool {
    forall|other: Seq<Direction>| #[trigger]
        route(world, player, start, other) ==> start.walk(other) != goal
}

/// Where some route to the goal has as many steps as the Manhattan
/// distance, as on open ground, every shortest route has exactly that
/// many, and the goal is not unreachable.
pub proof fn lemma_open_ground(
    world: WorldMap,
    player: Coordinate,
    start: Coordinate,
    goal: Coordinate,
    free: Seq<Direction>,
    path: Seq<Direction>,
)
    requires
        route(world, player, start, free),
        start.walk(free) == goal,
        free.len() == start.manhattan(goal),
        shortest(world, player, start, goal, path),
    ensures
        path.len() == start.manhattan(goal),
        !unreachable(world, player, start, goal),
{
    lemma_route_at_least_manhattan(world, player, start, path);
}

/// Where a wall blocks every route of as many steps as the Manhattan
/// distance, every route to the goal is strictly longer than that.
pub proof fn lemma_walled(
    world: WorldMap,
    player: Coordinate,
    start: Coordinate,
    goal: Coordinate,
    path: Seq<Direction>,
)
    requires
        forall|other: Seq<Direction>| #[trigger]
            route(world, player, start, other) && start.walk(other) == goal ==> other.len()
                != start.manhattan(goal),
        route(world, player, start, path),
        start.walk(path) == goal,
    ensures
        path.len() > start.manhattan(goal),
{
    lemma_route_at_least_manhattan(world, player, start, path);
}

/// The shortest route from `from` to `destination` over the tiles of
/// `world`, past the player: the steps to take, and the direction to face
/// at the end, if one is asked for. `None` where no route leads there.
pub fn pathfind(from: &Position, destination: Destination, player: Coordinate, world: &WorldMap) -> (r:
    Option<Path>)
    ensures
        match r {
            Some(path) => shortest(*world, player, from.coords, destination.coords, path.queue@)
                && path.turn == destination.direction,
            None => unreachable(*world, player, from.coords, destination.coords),
        },
{
    let start: Node = (from.direction, from.coords);
    let found = astar(&start, world, &player, &destination.coords);
    assert(start.1 == from.coords);
    match found {
        Some(found) => Some(Path { queue: found.0, turn: destination.direction }),
        None => None,
    }
}

} // verus!

verus! {

/// How many of the first `i` codes are no obstacles.
pub open spec fn walkable_before(movements: Seq<u8>, i: int) -> nat
    decreases i,
{
    if i <= 0 {
        0
    } else {
        walkable_before(movements, i - 1) + if spec_can_walk(movements[i - 1]) {
            1nat
        } else {
            0nat
        }
    }
}

/// The coordinate of the tenth tile of the map, row by row, that is no
/// obstacle; `None` where the map has fewer than ten.
pub fn tenth_walkable_coord(world: &WorldMap) -> (r: Option<Coordinate>)
    requires
        world.wf(),
    ensures
        match r {
            Some(c) => world.spec_in_bounds(c) && spec_can_walk(
                world.movements@[world.index_of(c)],
            ) && walkable_before(world.movements@, world.index_of(c)) == 9,
            None => walkable_before(world.movements@, world.movements@.len() as int) < 10,
        },
{
    let mut count: u8 = 0;
    let mut i: usize = 0;
    while i < world.movements.len()
        invariant
            i <= world.movements@.len(),
            world.wf(),
            count == walkable_before(world.movements@, i as int),
            count < 10,
        decreases world.movements@.len() - i,
    {
        if can_walk(world.movements[i]) {
            count += 1;
            if count == 10 {
                let width: usize = world.width as usize;
                assert(width > 0) by {
                    if world.width == 0 {
                        assert(world.width * world.height == 0) by (nonlinear_arith)
                            requires
                                world.width == 0,
                        ;
                    }
                }
                let x: usize = i % width;
                let y: usize = i / width;
                proof {
                    lemma_row_major_split(i as int, world.width as int, world.height as int);
                }
                return Some(Coordinate::new(x as i32, y as i32));
            }
        }
        i += 1;
    }
    None
}

/// A place in a row-major grid splits into a column and a row of the
/// grid.
pub proof fn lemma_row_major_split(i: int, width: int, height: int)
    requires
        0 <= i < width * height,
        0 < width,
        0 <= height,
    ensures
        0 <= i % width < width,
        0 <= i / width < height,
        i % width + (i / width) * width == i,
{
    vstd::arithmetic::div_mod::lemma_fundamental_div_mod(i, width);
    vstd::arithmetic::div_mod::lemma_mod_bound(i, width);
    let q = i / width;
    let r = i % width;
    assert(q * width == width * q) by (nonlinear_arith);
    assert(q >= 0) by (nonlinear_arith)
        requires
            width * q + r == i,
            0 <= r < width,
            i >= 0,
            width > 0,
    ;
    assert(q < height) by (nonlinear_arith)
        requires
            width * q + r == i,
            0 <= r < width,
            i < width * height,
            width > 0,
    ;
}

} // verus!
