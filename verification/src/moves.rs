//! The movement edges of the pathfinder: for each cardinal direction, a
//! plain step, a jump up, a drop down, a diagonal step, and one- and
//! two-block parkour jumps, each guarded by block passability tests.

use crate::position::{BlockPos, CardinalDirection};
use crate::world::Dimension;
use vstd::prelude::*;

verus! {

/// Walking one block costs ten; the other costs scale from it. Costs are
/// in tenths of the vanilla walk cost, so they stay integers.
pub const WALK_ONE_BLOCK_COST: u64 = 10;

/// A jump adds half a walk.
pub const JUMP_COST: u64 = 5;

/// Falling one block costs half a walk.
pub const FALL_ONE_BLOCK_COST: u64 = 5;

/// A diagonal step costs 1.4 walks.
pub const DIAGONAL_COST: u64 = 14;

/// What a movement does beyond walking.
#[derive(Debug, Clone, Copy, PartialEq, Eq, Structural)]
pub struct MoveData {
    pub jump: bool,
}

/// One step of a path: where it ends and what it does.
#[derive(Debug, Clone, Copy, PartialEq, Eq, Structural)]
pub struct Movement {
    pub target: BlockPos,
    pub data: MoveData,
}

/// A movement and what it costs.
#[derive(Debug, Clone, Copy, PartialEq, Eq, Structural)]
pub struct Edge {
    pub movement: Movement,
    pub cost: u64,
}

/// The block above, below, or beside, in spec arithmetic.
pub open spec fn spec_offset(pos: BlockPos, dx: int, dy: int, dz: int) -> BlockPos {
    BlockPos { x: (pos.x + dx) as i32, y: (pos.y + dy) as i32, z: (pos.z + dz) as i32 }
}

/// Nodes the pathfinder is allowed to roam: far from the coordinate edges
/// and within the vertical range a world can have.
pub open spec fn spec_node_in_bounds(pos: BlockPos) -> bool {
    &&& -33554000 < pos.x < 33554000
    &&& -33554000 < pos.z < 33554000
    &&& -2040 < pos.y < 2040
}

/// Whether the block is air, and so passable. Block-state id zero is air;
/// every other id stands for a block with a solid hitbox here.
pub open spec fn spec_block_passable(world: &Dimension, pos: BlockPos) -> bool {
    match world.chunk_storage.spec_block_state(pos) {
        Some(b) => b == 0,
        None => false,
    }
}

/// Whether the block has a solid hitbox, and so can be stood on.
pub open spec fn spec_block_solid(world: &Dimension, pos: BlockPos) -> bool {
    match world.chunk_storage.spec_block_state(pos) {
        Some(b) => b != 0,
        None => false,
    }
}

/// Whether this block and the one above are both passable.
pub open spec fn spec_passable(world: &Dimension, pos: BlockPos) -> bool {
    spec_block_passable(world, pos) && spec_block_passable(world, spec_offset(pos, 0, 1, 0))
}

/// Whether the bot can stand here: solid below, passable here and above.
pub open spec fn spec_standable(world: &Dimension, pos: BlockPos) -> bool {
    spec_block_solid(world, spec_offset(pos, 0, -1, 0)) && spec_passable(world, pos)
}

/// Whether this block is passable.
pub fn is_block_passable(pos: &BlockPos, world: &Dimension) -> (r: bool)
    requires
        world.wf(),
    ensures
        r == spec_block_passable(world, *pos),
{
    match world.get_block_state(pos) {
        Some(block) => block == 0,
        None => false,
    }
}

/// Whether this block has a solid hitbox (i.e. we can stand on it).
pub fn is_block_solid(pos: &BlockPos, world: &Dimension) -> (r: bool)
    requires
        world.wf(),
    ensures
        r == spec_block_solid(world, *pos),
{
    match world.get_block_state(pos) {
        Some(block) => block != 0,
        None => false,
    }
}

/// Whether this block and the block above are passable.
pub fn is_passable(pos: &BlockPos, world: &Dimension) -> (r: bool)
    requires
        world.wf(),
        pos.y < i32::MAX,
    ensures
        r == spec_passable(world, *pos),
{
    is_block_passable(pos, world) && is_block_passable(&pos.up(1), world)
}

/// Whether we can stand in this position: the block below is solid, and
/// the two blocks here and above are passable.
pub fn is_standable(pos: &BlockPos, world: &Dimension) -> (r: bool)
    requires
        world.wf(),
        i32::MIN < pos.y < i32::MAX,
    ensures
        r == spec_standable(world, *pos),
{
    is_block_solid(&pos.down(1), world) && is_passable(pos, world)
}

/// The count of passable blocks under `below`, where `below` is already
/// one below the start: none when the drop runs out of the world.
pub open spec fn spec_fall_distance(world: &Dimension, below: BlockPos) -> Option<u32>
    decreases below.y - world.chunk_storage.min_y + 4200
    when below.y >= world.chunk_storage.min_y - 4200 && below.y > i32::MIN + 10
{
    if !spec_block_passable(world, below) {
        Some(0u32)
    } else if below.y - 1 < world.chunk_storage.min_y {
        None
    } else {
        match spec_fall_distance(world, spec_offset(below, 0, -1, 0)) {
            None => None,
            Some(d) => Some((d + 1) as u32),
        }
    }
}

/// A drop never counts more blocks than stand between it and the world
/// floor.
proof fn lemma_fall_distance_bound(world: &Dimension, below: BlockPos)
    requires
        world.wf(),
        below.y >= world.chunk_storage.min_y - 4200,
        below.y > i32::MIN + 10,
        below.y <= 2100,
    ensures
        match spec_fall_distance(world, below) {
            Some(d) => d <= (if below.y >= world.chunk_storage.min_y {
                below.y - world.chunk_storage.min_y + 1
            } else {
                0
            }),
            None => true,
        },
    decreases below.y - world.chunk_storage.min_y + 4200,
{
    if spec_block_passable(world, below) {
        assert(below.y >= world.chunk_storage.min_y);
        if below.y - 1 >= world.chunk_storage.min_y {
            lemma_fall_distance_bound(world, spec_offset(below, 0, -1, 0));
        }
    }
}

/// The amount of air blocks until the next solid block below this one;
/// `u32::MAX` when the drop leaves the world.
pub fn fall_distance(pos: &BlockPos, world: &Dimension) -> (r: u32)
    requires
        world.wf(),
        -2045 <= pos.y <= 2045,
    ensures
        r == match spec_fall_distance(world, spec_offset(*pos, 0, -1, 0)) {
            None => u32::MAX,
            Some(d) => d,
        },
        r != u32::MAX ==> r <= 4200,
{
    let ghost target = spec_offset(*pos, 0, -1, 0);
    let mut distance: u32 = 0;
    let mut current_pos = pos.down(1);
    loop
        invariant
            world.wf(),
            -2048 <= world.chunk_storage.min_y <= 2048,
            -2045 <= pos.y <= 2045,
            target == spec_offset(*pos, 0, -1, 0),
            current_pos.x == pos.x,
            current_pos.z == pos.z,
            current_pos.y <= pos.y - 1,
            current_pos.y >= world.chunk_storage.min_y - 1 || current_pos == target,
            distance == pos.y - 1 - current_pos.y,
            distance <= 4200,
            spec_fall_distance(world, target) == (match spec_fall_distance(world,
                current_pos) {
                None => None::<u32>,
                Some(d2) => Some((distance + d2) as u32),
            }),
        decreases current_pos.y - (world.chunk_storage.min_y - 4200),
    {
        if !is_block_passable(&current_pos, world) {
            proof {
                assert(spec_fall_distance(world, current_pos) == Some(0u32));
            }
            return distance;
        }
        proof {
            // a passable block has a state, so it lies within the build
            // height
            assert(current_pos.y >= world.chunk_storage.min_y);
        }
        let ghost prev = current_pos;
        distance = distance + 1;
        current_pos = current_pos.down(1);

        if current_pos.y < world.chunk_storage.min_y {
            proof {
                assert(spec_fall_distance(world, prev) is None);
                assert(spec_fall_distance(world, target) is None);
            }
            return u32::MAX;
        }
        proof {
            assert(current_pos == spec_offset(prev, 0, -1, 0));
            lemma_fall_distance_bound(world, current_pos);
            lemma_fall_distance_bound(world, prev);
            assert(spec_fall_distance(world, prev) == (match spec_fall_distance(world,
                current_pos) {
                None => None::<u32>,
                Some(d) => Some((d + 1) as u32),
            }));
        }
    }
}

/// An edge the pathfinder may take from `from`: one of the six move rules
/// in some cardinal direction.
pub open spec fn spec_is_edge(world: &Dimension, from: BlockPos, e: Edge) -> bool {
    exists|d: CardinalDirection| {
        ||| spec_forward_move(world, d, from) == Some(e)
        ||| spec_ascend_move(world, d, from) == Some(e)
        ||| spec_descend_move(world, d, from) == Some(e)
        ||| spec_diagonal_move(world, d, from) == Some(e)
        ||| spec_parkour_forward_move(world, d, from) == Some(e)
        ||| spec_parkour_forward_2_move(world, d, from) == Some(e)
    }
}

/// A plain step: the next block in the direction must be standable.
pub open spec fn spec_forward_move(world: &Dimension, d: CardinalDirection, node: BlockPos)
    -> Option<Edge> {
    let target = spec_offset(node, d.spec_x() as int, 0, d.spec_z() as int);
    if !spec_standable(world, target) {
        None
    } else {
        Some(Edge {
            movement: Movement { target, data: MoveData { jump: false } },
            cost: WALK_ONE_BLOCK_COST,
        })
    }
}

/// A jump up one block: headroom above, and the raised next block
/// standable.
pub open spec fn spec_ascend_move(world: &Dimension, d: CardinalDirection, node: BlockPos)
    -> Option<Edge> {
    let target = spec_offset(node, d.spec_x() as int, 1, d.spec_z() as int);
    if !spec_block_passable(world, spec_offset(node, 0, 2, 0)) || !spec_standable(world,
        target) {
        None
    } else {
        Some(Edge {
            movement: Movement { target, data: MoveData { jump: true } },
            cost: (WALK_ONE_BLOCK_COST + JUMP_COST) as u64,
        })
    }
}

/// A walk off the edge, falling one to three blocks onto a standable spot.
pub open spec fn spec_descend_move(world: &Dimension, d: CardinalDirection, node: BlockPos)
    -> Option<Edge> {
    let horizontal = spec_offset(node, d.spec_x() as int, 0, d.spec_z() as int);
    match spec_fall_distance(world, spec_offset(horizontal, 0, -1, 0)) {
        None => None,
        Some(fall) => {
            if fall == 0 || fall > 3 {
                None
            } else if !spec_passable(world, horizontal) {
                None
            } else {
                Some(Edge {
                    movement: Movement {
                        target: spec_offset(horizontal, 0, -(fall as int), 0),
                        data: MoveData { jump: false },
                    },
                    cost: (WALK_ONE_BLOCK_COST + FALL_ONE_BLOCK_COST * fall) as u64,
                })
            }
        },
    }
}

/// A diagonal step: standable target, and at least one of the two flanking
/// columns passable.
pub open spec fn spec_diagonal_move(world: &Dimension, d: CardinalDirection, node: BlockPos)
    -> Option<Edge> {
    let right = match d {
        CardinalDirection::North => CardinalDirection::East,
        CardinalDirection::East => CardinalDirection::South,
        CardinalDirection::South => CardinalDirection::West,
        CardinalDirection::West => CardinalDirection::North,
    };
    let target = spec_offset(node, d.spec_x() + right.spec_x(), 0, d.spec_z()
        + right.spec_z());
    if !spec_passable(world, spec_offset(node, d.spec_x() as int, 0, d.spec_z() as int))
        && !spec_passable(world, spec_offset(node, right.spec_x() as int, 0,
        right.spec_z() as int)) {
        None
    } else if !spec_standable(world, target) {
        None
    } else {
        Some(Edge {
            movement: Movement { target, data: MoveData { jump: false } },
            cost: DIAGONAL_COST,
        })
    }
}

/// A jump over one gap: a passable column to cross, a gap below it, and a
/// standable landing two blocks out.
pub open spec fn spec_parkour_forward_move(
    world: &Dimension,
    d: CardinalDirection,
    node: BlockPos,
) -> Option<Edge> {
    let gap = spec_offset(node, d.spec_x() as int, 0, d.spec_z() as int);
    let target = spec_offset(node, 2 * d.spec_x(), 0, 2 * d.spec_z());
    if !spec_passable(world, gap) {
        None
    } else if spec_block_solid(world, spec_offset(node, d.spec_x() as int, -1,
        d.spec_z() as int)) {
        None
    } else if !spec_standable(world, target) {
        None
    } else {
        Some(Edge {
            movement: Movement { target, data: MoveData { jump: true } },
            cost: (JUMP_COST + WALK_ONE_BLOCK_COST + WALK_ONE_BLOCK_COST
                + FALL_ONE_BLOCK_COST) as u64,
        })
    }
}

/// A jump over two gaps: two passable columns, gaps below both, and a
/// standable landing three blocks out.
pub open spec fn spec_parkour_forward_2_move(
    world: &Dimension,
    d: CardinalDirection,
    node: BlockPos,
) -> Option<Edge> {
    let target = spec_offset(node, 3 * d.spec_x(), 0, 3 * d.spec_z());
    if !spec_passable(world, spec_offset(node, d.spec_x() as int, 0, d.spec_z() as int)) {
        None
    } else if !spec_passable(world, spec_offset(node, 2 * d.spec_x(), 0, 2 * d.spec_z())) {
        None
    } else if spec_block_solid(world, spec_offset(node, d.spec_x() as int, -1,
        d.spec_z() as int)) {
        None
    } else if spec_block_solid(world, spec_offset(node, 2 * d.spec_x(), -1, 2
        * d.spec_z())) {
        None
    } else if !spec_standable(world, target) {
        None
    } else {
        Some(Edge {
            movement: Movement { target, data: MoveData { jump: true } },
            cost: (JUMP_COST + WALK_ONE_BLOCK_COST + WALK_ONE_BLOCK_COST
                + WALK_ONE_BLOCK_COST + FALL_ONE_BLOCK_COST) as u64,
        })
    }
}

pub struct ForwardMove(pub CardinalDirection);

impl ForwardMove {
    /// The plain step in this direction, when the world allows it.
    pub fn get(&self, world: &Dimension, node: BlockPos) -> (r: Option<Edge>)
        requires
            world.wf(),
            spec_node_in_bounds(node),
        ensures
            r == spec_forward_move(world, self.0, node),
    {
        let offset = BlockPos::new(self.0.x(), 0, self.0.z());
        let target = node.offset(offset.x, offset.y, offset.z);
        if !is_standable(&target, world) {
            return None;
        }
        Some(Edge {
            movement: Movement { target, data: MoveData { jump: false } },
            cost: WALK_ONE_BLOCK_COST,
        })
    }
}

pub struct AscendMove(pub CardinalDirection);

impl AscendMove {
    /// The one-block jump in this direction, when the world allows it.
    pub fn get(&self, world: &Dimension, node: BlockPos) -> (r: Option<Edge>)
        requires
            world.wf(),
            spec_node_in_bounds(node),
        ensures
            r == spec_ascend_move(world, self.0, node),
    {
        let target = node.offset(self.0.x(), 1, self.0.z());
        if !is_block_passable(&node.up(2), world) || !is_standable(&target, world) {
            return None;
        }
        Some(Edge {
            movement: Movement { target, data: MoveData { jump: true } },
            cost: WALK_ONE_BLOCK_COST + JUMP_COST,
        })
    }
}

pub struct DescendMove(pub CardinalDirection);

impl DescendMove {
    /// The short drop in this direction, when the world allows it.
    pub fn get(&self, world: &Dimension, node: BlockPos) -> (r: Option<Edge>)
        requires
            world.wf(),
            spec_node_in_bounds(node),
        ensures
            r == spec_descend_move(world, self.0, node),
    {
        let new_horizontal_position = node.offset(self.0.x(), 0, self.0.z());
        let fall = fall_distance(&new_horizontal_position, world);
        if fall == 0 {
            return None;
        }
        if fall > 3 {
            return None;
        }
        let new_position = new_horizontal_position.down(fall as i32);
        if !is_passable(&new_horizontal_position, world) {
            return None;
        }
        Some(Edge {
            movement: Movement { target: new_position, data: MoveData { jump: false } },
            cost: WALK_ONE_BLOCK_COST + FALL_ONE_BLOCK_COST * (fall as u64),
        })
    }
}

pub struct DiagonalMove(pub CardinalDirection);

impl DiagonalMove {
    /// The diagonal step in this direction, when the world allows it.
    pub fn get(&self, world: &Dimension, node: BlockPos) -> (r: Option<Edge>)
        requires
            world.wf(),
            spec_node_in_bounds(node),
        ensures
            r == spec_diagonal_move(world, self.0, node),
    {
        let right = self.0.right();
        let offset = BlockPos::new(self.0.x() + right.x(), 0, self.0.z() + right.z());
        if !is_passable(&node.offset(self.0.x(), 0, self.0.z()), world) && !is_passable(
            &BlockPos::new(node.x + right.x(), node.y, node.z + right.z()), world) {
            return None;
        }
        let target = node.offset(offset.x, offset.y, offset.z);
        if !is_standable(&target, world) {
            return None;
        }
        Some(Edge {
            movement: Movement { target, data: MoveData { jump: false } },
            cost: DIAGONAL_COST,
        })
    }
}

pub struct ParkourForwardMove(pub CardinalDirection);

impl ParkourForwardMove {
    /// The one-gap jump in this direction, when the world allows it.
    pub fn get(&self, world: &Dimension, node: BlockPos) -> (r: Option<Edge>)
        requires
            world.wf(),
            spec_node_in_bounds(node),
        ensures
            r == spec_parkour_forward_move(world, self.0, node),
    {
        if !is_passable(&node.offset(self.0.x(), 0, self.0.z()), world) {
            return None;
        }
        if is_block_solid(&node.offset(self.0.x(), -1, self.0.z()), world) {
            return None;
        }
        let target = node.offset(self.0.x() * 2, 0, self.0.z() * 2);
        if !is_standable(&target, world) {
            return None;
        }
        Some(Edge {
            movement: Movement { target, data: MoveData { jump: true } },
            cost: JUMP_COST + WALK_ONE_BLOCK_COST + WALK_ONE_BLOCK_COST
                + FALL_ONE_BLOCK_COST,
        })
    }
}

pub struct ParkourForward2Move(pub CardinalDirection);

impl ParkourForward2Move {
    /// The two-gap jump in this direction, when the world allows it.
    pub fn get(&self, world: &Dimension, node: BlockPos) -> (r: Option<Edge>)
        requires
            world.wf(),
            spec_node_in_bounds(node),
        ensures
            r == spec_parkour_forward_2_move(world, self.0, node),
    {
        if !is_passable(&node.offset(self.0.x(), 0, self.0.z()), world) {
            return None;
        }
        if !is_passable(&node.offset(self.0.x() * 2, 0, self.0.z() * 2), world) {
            return None;
        }
        if is_block_solid(&node.offset(self.0.x(), -1, self.0.z()), world) {
            return None;
        }
        if is_block_solid(&node.offset(self.0.x() * 2, -1, self.0.z() * 2), world) {
            return None;
        }
        let target = node.offset(self.0.x() * 3, 0, self.0.z() * 3);
        if !is_standable(&target, world) {
            return None;
        }
        Some(Edge {
            movement: Movement { target, data: MoveData { jump: true } },
            cost: JUMP_COST + WALK_ONE_BLOCK_COST + WALK_ONE_BLOCK_COST
                + WALK_ONE_BLOCK_COST + FALL_ONE_BLOCK_COST,
        })
    }
}

/// Every edge a direction's six move rules produce from `node`, as far as
/// its target stays in bounds, is in `edges`.
pub open spec fn spec_direction_covered(
    world: &Dimension,
    node: BlockPos,
    d: CardinalDirection,
    edges: Seq<Edge>,
) -> bool {
    &&& (spec_forward_move(world, d, node) matches Some(e)
        ==> (spec_node_in_bounds(e.movement.target) ==> edges.contains(e)))
    &&& (spec_ascend_move(world, d, node) matches Some(e)
        ==> (spec_node_in_bounds(e.movement.target) ==> edges.contains(e)))
    &&& (spec_descend_move(world, d, node) matches Some(e)
        ==> (spec_node_in_bounds(e.movement.target) ==> edges.contains(e)))
    &&& (spec_diagonal_move(world, d, node) matches Some(e)
        ==> (spec_node_in_bounds(e.movement.target) ==> edges.contains(e)))
    &&& (spec_parkour_forward_move(world, d, node) matches Some(e)
        ==> (spec_node_in_bounds(e.movement.target) ==> edges.contains(e)))
    &&& (spec_parkour_forward_2_move(world, d, node) matches Some(e)
        ==> (spec_node_in_bounds(e.movement.target) ==> edges.contains(e)))
}

/// Every edge from the six move rules in each direction, in a fixed order,
/// filtered to stay inside the pathfinder's coordinate bounds. Every edge
/// in the list is a real move of the world, leaves from `node`, costs
/// something, and stays in bounds; and every edge the move rules produce
/// with an in-bounds target is in the list.
pub fn successors(world: &Dimension, node: BlockPos) -> (r: Vec<Edge>)
    requires
        world.wf(),
        spec_node_in_bounds(node),
    ensures
        forall|i: int| 0 <= i < r.len() ==> {
            &&& spec_is_edge(world, node, #[trigger] r[i])
            &&& spec_node_in_bounds(r[i].movement.target)
            &&& 1 <= r[i].cost <= 100
        },
        forall|d: CardinalDirection| #[trigger] spec_direction_covered(world, node, d, r@),
{
    let directions = directions();
    let mut edges: Vec<Edge> = Vec::new();
    let mut di: usize = 0;
    while di < directions.len()
        invariant
            world.wf(),
            spec_node_in_bounds(node),
            di <= directions.len(),
            directions@ == seq![CardinalDirection::North, CardinalDirection::East,
                CardinalDirection::South, CardinalDirection::West],
            forall|i: int| 0 <= i < edges.len() ==> {
                &&& spec_is_edge(world, node, #[trigger] edges[i])
                &&& spec_node_in_bounds(edges[i].movement.target)
                &&& 1 <= edges[i].cost <= 100
            },
            forall|k: int| 0 <= k < di ==> #[trigger] spec_direction_covered(world, node,
                directions@[k], edges@),
        decreases directions.len() - di,
    {
        let d = directions[di];
        let ghost pre = edges@;
        push_edge(&mut edges, ForwardMove(d).get(world, node), world, node);
        push_edge(&mut edges, AscendMove(d).get(world, node), world, node);
        push_edge(&mut edges, DescendMove(d).get(world, node), world, node);
        push_edge(&mut edges, DiagonalMove(d).get(world, node), world, node);
        push_edge(&mut edges, ParkourForwardMove(d).get(world, node), world, node);
        push_edge(&mut edges, ParkourForward2Move(d).get(world, node), world, node);
        proof {
            assert forall|k: int| 0 <= k < di + 1 implies #[trigger] spec_direction_covered(
                world, node, directions@[k], edges@) by {
                assert forall|x: Edge| #[trigger] pre.contains(x)
                    implies edges@.contains(x) by {}
                if k < di {
                    assert(spec_direction_covered(world, node, directions@[k], pre));
                } else {
                    assert(spec_direction_covered(world, node, d, edges@));
                }
            }
        }
        di = di + 1;
    }
    proof {
        assert forall|d: CardinalDirection| #[trigger] spec_direction_covered(world, node,
            d, edges@) by {
            match d {
                CardinalDirection::North => {
                    assert(spec_direction_covered(world, node, directions@[0], edges@));
                },
                CardinalDirection::East => {
                    assert(spec_direction_covered(world, node, directions@[1], edges@));
                },
                CardinalDirection::South => {
                    assert(spec_direction_covered(world, node, directions@[2], edges@));
                },
                CardinalDirection::West => {
                    assert(spec_direction_covered(world, node, directions@[3], edges@));
                },
            }
        }
    }
    edges
}

/// The four directions, in the order the moves are tried.
fn directions() -> (r: Vec<CardinalDirection>)
    ensures
        r@ == seq![CardinalDirection::North, CardinalDirection::East,
            CardinalDirection::South, CardinalDirection::West],
{
    let mut v: Vec<CardinalDirection> = Vec::new();
    v.push(CardinalDirection::North);
    v.push(CardinalDirection::East);
    v.push(CardinalDirection::South);
    v.push(CardinalDirection::West);
    proof {
        assert(v@ =~= seq![CardinalDirection::North, CardinalDirection::East,
            CardinalDirection::South, CardinalDirection::West]);
    }
    v
}

/// Keep an edge when the move produced one and its target stays in
/// bounds. Everything already in the list stays, and the kept edge is in
/// the list afterwards.
fn push_edge(edges: &mut Vec<Edge>, e: Option<Edge>, world: &Dimension, node: BlockPos)
    requires
        match e {
            Some(edge) => spec_is_edge(world, node, edge) && 1 <= edge.cost <= 100,
            None => true,
        },
        forall|i: int| 0 <= i < old(edges).len() ==> {
            &&& spec_is_edge(world, node, #[trigger] old(edges)[i])
            &&& spec_node_in_bounds(old(edges)[i].movement.target)
            &&& 1 <= old(edges)[i].cost <= 100
        },
    ensures
        forall|i: int| 0 <= i < final(edges).len() ==> {
            &&& spec_is_edge(world, node, #[trigger] final(edges)[i])
            &&& spec_node_in_bounds(final(edges)[i].movement.target)
            &&& 1 <= final(edges)[i].cost <= 100
        },
        forall|x: Edge| #[trigger] old(edges)@.contains(x) ==> final(edges)@.contains(x),
        match e {
            Some(edge) => spec_node_in_bounds(edge.movement.target) ==> final(
                edges)@.contains(edge),
            None => *final(edges) == *old(edges),
        },
{
    match e {
        Some(edge) => {
            let t = edge.movement.target;
            if -33554000 < t.x && t.x < 33554000 && -33554000 < t.z && t.z < 33554000
                && -2040 < t.y && t.y < 2040 {
                edges.push(edge);
                proof {
                    assert(edges@[edges@.len() - 1] == edge);
                    assert forall|x: Edge| old(edges)@.contains(x)
                        implies #[trigger] edges@.contains(x) by {
                        let i = choose|i: int| 0 <= i < old(edges)@.len()
                            && old(edges)@[i] == x;
                        assert(edges@[i] == x);
                    }
                }
            } else {
                proof {
                    assert forall|x: Edge| old(edges)@.contains(x)
                        implies #[trigger] edges@.contains(x) by {}
                }
            }
        },
        None => {},
    }
}

} // verus!
