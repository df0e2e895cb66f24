//! Following a found path: which node is reached, which part of the path
//! a forward simulation lets us skip, and what to do each tick while
//! walking the rest.
//!
//! The forward simulation itself runs outside the library; its per-tick
//! positions come back in as plain values and are judged here.

use crate::goals::BlockPosGoal;
use crate::movement::{FixedVec3, Physics};
use crate::moves::Movement;
use crate::position::BlockPos;
use vstd::prelude::*;

verus! {

/// The pathfinding state of one client.
pub struct Pathfinder {
    /// The path being walked; the next movement is first.
    pub path: Vec<Movement>,
    /// The path to switch to after the current movement finishes.
    pub queued_path: Option<Vec<Movement>>,
    pub current_target_node: Option<BlockPos>,
    pub goal: Option<BlockPosGoal>,
    pub computing: bool,
}

/// A path the search produced for a client, or nothing when none was
/// found.
pub struct PathFoundEvent {
    pub entity: u64,
    pub path: Option<Vec<Movement>>,
}

/// Whether the entity is at the node and should start going to the next
/// node.
pub fn is_reached(goal_pos: &BlockPos, current_pos: &FixedVec3, physics: &Physics) -> (r:
    bool)
    requires
        -21474836480000i64 <= current_pos.x <= 21474836479999i64,
        -21474836480000i64 <= current_pos.y <= 21474836479999i64,
        -21474836480000i64 <= current_pos.z <= 21474836479999i64,
    ensures
        r == (spec_block_of(*current_pos) == *goal_pos && physics.on_ground),
{
    let bp = BlockPos::from_fixed(current_pos);
    bp.x == goal_pos.x && bp.y == goal_pos.y && bp.z == goal_pos.z && physics.on_ground
}

/// The block a fixed-point position falls in.
pub open spec fn spec_block_of(v: FixedVec3) -> BlockPos {
    BlockPos {
        x: (v.x as int / 10000) as i32,
        y: (v.y as int / 10000) as i32,
        z: (v.z as int / 10000) as i32,
    }
}

/// What one simulated tick ended with.
#[derive(Debug, Clone, Copy, PartialEq, Eq, Structural)]
pub struct SimTickResult {
    pub position: FixedVec3,
    pub horizontal_collision: bool,
}

/// The verdict over simulated ticks, walked in order: reaching a tick
/// that left the start height or collided is failure, reaching the target
/// block first is success, running out of ticks is failure.
pub open spec fn spec_can_walk(
    ticks: Seq<SimTickResult>,
    start_y: i64,
    target: BlockPos,
) -> bool
    decreases ticks.len(),
{
    if ticks.len() == 0 {
        false
    } else {
        let t = ticks[0];
        if t.position.y != start_y || t.horizontal_collision {
            false
        } else if spec_block_of(t.position) == target {
            true
        } else {
            spec_can_walk(ticks.drop_first(), start_y, target)
        }
    }
}

/// Judge a forward simulation: could the bot walk straight to `target`?
/// The simulated bot must stay at its starting height, never collide
/// sideways, and stand in the target block within the simulated ticks.
pub fn can_walk_to_position(
    start_y: i64,
    ticks: &Vec<SimTickResult>,
    target: BlockPos,
) -> (r: bool)
    requires
        forall|i: int| 0 <= i < ticks.len() ==> {
            let p = (#[trigger] ticks[i]).position;
            &&& -21474836480000i64 <= p.x <= 21474836479999i64
            &&& -21474836480000i64 <= p.y <= 21474836479999i64
            &&& -21474836480000i64 <= p.z <= 21474836479999i64
        },
    ensures
        r == spec_can_walk(ticks@, start_y, target),
{
    let mut i: usize = 0;
    proof {
        assert(ticks@.skip(0) =~= ticks@);
    }
    while i < ticks.len()
        invariant
            i <= ticks.len(),
            forall|k: int| 0 <= k < ticks.len() ==> {
                let p = (#[trigger] ticks@[k]).position;
                &&& -21474836480000i64 <= p.x <= 21474836479999i64
                &&& -21474836480000i64 <= p.y <= 21474836479999i64
                &&& -21474836480000i64 <= p.z <= 21474836479999i64
            },
            spec_can_walk(ticks@, start_y, target) == spec_can_walk(ticks@.skip(i as int),
                start_y, target),
        decreases ticks.len() - i,
    {
        let t = ticks[i];
        proof {
            assert(ticks@.skip(i as int)[0] == ticks@[i as int]);
            assert(ticks@.skip(i as int).drop_first() =~= ticks@.skip(i + 1));
        }
        if t.position.y != start_y || t.horizontal_collision {
            return false;
        }
        let bp = BlockPos::from_fixed(&t.position);
        if bp.x == target.x && bp.y == target.y && bp.z == target.z {
            return true;
        }
        i = i + 1;
    }
    proof {
        assert(ticks@.skip(ticks@.len() as int).len() == 0);
    }
    false
}

/// The best skippable position: walking the candidate flags from the last
/// down, the first index whose simulation succeeded. Candidate `k` stands
/// for path index `k + 2`.
pub fn choose_skip(can_walk: &Vec<bool>) -> (r: Option<usize>)
    requires
        can_walk.len() <= 10,
    ensures
        match r {
            Some(i) => 2 <= i < can_walk.len() + 2 && can_walk[i - 2]
                && forall|k: int| i - 2 < k < can_walk.len() ==> !can_walk[k],
            None => forall|k: int| 0 <= k < can_walk.len() ==> !can_walk[k],
        },
{
    let mut i: usize = can_walk.len();
    while i > 0
        invariant
            i <= can_walk.len() <= 10,
            forall|k: int| i <= k < can_walk.len() ==> !can_walk[k],
        decreases i,
    {
        i = i - 1;
        if can_walk[i] {
            return Some(i + 2);
        }
    }
    None
}

/// Truncate the path up to a skippable index: the walk continues from
/// `path[index]`.
pub fn apply_skip(pathfinder: &mut Pathfinder, index: usize)
    requires
        index < old(pathfinder).path.len(),
    ensures
        final(pathfinder).path@ == old(pathfinder).path@.skip(index as int),
        final(pathfinder).queued_path == old(pathfinder).queued_path,
        final(pathfinder).current_target_node == old(pathfinder).current_target_node,
        final(pathfinder).goal == old(pathfinder).goal,
        final(pathfinder).computing == old(pathfinder).computing,
{
    let mut rest: Vec<Movement> = Vec::new();
    let mut i: usize = index;
    while i < pathfinder.path.len()
        invariant
            index <= i <= pathfinder.path.len(),
            rest@ =~= pathfinder.path@.subrange(index as int, i as int),
        decreases pathfinder.path.len() - i,
    {
        rest.push(pathfinder.path[i]);
        proof {
            assert(rest@ =~= pathfinder.path@.subrange(index as int, i + 1));
        }
        i = i + 1;
    }
    proof {
        assert(pathfinder.path@.subrange(index as int, pathfinder.path@.len() as int)
            =~= pathfinder.path@.skip(index as int));
    }
    pathfinder.path = rest;
}

/// Skip ahead when a forward simulation allows it: the farthest
/// successful candidate wins and the path's prefix before it is dropped;
/// without a successful candidate within the path, nothing changes.
/// Returns the path index skipped to, if any.
pub fn consider_skip(pathfinder: &mut Pathfinder, can_walk: &Vec<bool>) -> (skipped: Option<
    usize,
>)
    requires
        can_walk.len() <= 10,
    ensures
        final(pathfinder).queued_path == old(pathfinder).queued_path,
        final(pathfinder).current_target_node == old(pathfinder).current_target_node,
        final(pathfinder).goal == old(pathfinder).goal,
        final(pathfinder).computing == old(pathfinder).computing,
        match skipped {
            Some(i) => {
                &&& 2 <= i < can_walk.len() + 2
                &&& can_walk[i - 2]
                &&& forall|k: int| i - 2 < k < can_walk.len() ==> !can_walk[k]
                &&& i < old(pathfinder).path.len()
                &&& final(pathfinder).path@ == old(pathfinder).path@.skip(i as int)
            },
            None => {
                &&& final(pathfinder).path == old(pathfinder).path
                &&& (forall|k: int| 0 <= k < can_walk.len() ==> !can_walk[k])
                    || exists|i: int| {
                    &&& 2 <= i < can_walk.len() + 2
                    &&& #[trigger] can_walk[i - 2]
                    &&& forall|k: int| i - 2 < k < can_walk.len() ==> !can_walk[k]
                    &&& i >= old(pathfinder).path.len()
                }
            },
        },
{
    match choose_skip(can_walk) {
        Some(i) => {
            if i < pathfinder.path.len() {
                apply_skip(pathfinder, i);
                Some(i)
            } else {
                None
            }
        },
        None => None,
    }
}

/// What the walker asks the client to do this tick.
#[derive(Debug, Clone, Copy, PartialEq, Eq, Structural)]
pub enum ExecuteAction {
    /// Jump this tick.
    Jump,
    /// Turn towards the centre of this block.
    LookAt(BlockPos),
    /// Keep sprinting forward.
    Sprint,
    /// The path is done; stop walking.
    StopWalking,
}

/// One tick of path walking, over the whole loop of reached nodes: the
/// resulting path, queued path, current target, and the actions emitted,
/// in order. `bp` is the block the bot stands in and `og` whether it is
/// on the ground.
pub open spec fn spec_execute_tick(
    path: Seq<Movement>,
    queued: Option<Seq<Movement>>,
    target0: Option<BlockPos>,
    bp: BlockPos,
    og: bool,
) -> (Seq<Movement>, Option<Seq<Movement>>, Option<BlockPos>, Seq<ExecuteAction>)
    decreases (if queued is Some { 1int } else { 0int }), path.len(),
{
    if path.len() == 0 {
        (path, queued, target0, Seq::<ExecuteAction>::empty())
    } else {
        let m = path[0];
        let jump_acts: Seq<ExecuteAction> = if target0 != Some(m.target) && m.data.jump {
            seq![ExecuteAction::Jump]
        } else {
            Seq::<ExecuteAction>::empty()
        };
        let acts = jump_acts + seq![ExecuteAction::LookAt(m.target), ExecuteAction::Sprint];
        if bp == m.target && og {
            let next_path: Seq<Movement> = match queued {
                Some(q) => q,
                None => path.drop_first(),
            };
            let next_queued: Option<Seq<Movement>> = match queued {
                Some(q) => None,
                None => None,
            };
            let stop: Seq<ExecuteAction> = if next_path.len() == 0 {
                seq![ExecuteAction::StopWalking]
            } else {
                Seq::<ExecuteAction>::empty()
            };
            let rec = spec_execute_tick(next_path, next_queued, Some(m.target), bp, og);
            (rec.0, rec.1, rec.2, acts + stop + rec.3)
        } else {
            (path, queued, Some(m.target), acts)
        }
    }
}

/// The queued path as a sequence, for the spec.
pub open spec fn spec_queued_view(q: Option<Vec<Movement>>) -> Option<Seq<Movement>> {
    match q {
        Some(v) => Some(v@),
        None => None,
    }
}

/// Walk the path for one tick: look at the next node, sprint towards it,
/// jump where the movement asks for it, and pop every node already
/// reached, switching to a queued path when the current one finishes.
pub fn tick_execute_path(
    pathfinder: &mut Pathfinder,
    position: &FixedVec3,
    physics: &Physics,
) -> (actions: Vec<ExecuteAction>)
    requires
        -21474836480000i64 <= position.x <= 21474836479999i64,
        -21474836480000i64 <= position.y <= 21474836479999i64,
        -21474836480000i64 <= position.z <= 21474836479999i64,
    ensures
        ({
            let r = spec_execute_tick(old(pathfinder).path@, spec_queued_view(
                old(pathfinder).queued_path), old(pathfinder).current_target_node,
                spec_block_of(*position), physics.on_ground);
            &&& final(pathfinder).path@ == r.0
            &&& spec_queued_view(final(pathfinder).queued_path) == r.1
            &&& final(pathfinder).current_target_node == r.2
            &&& actions@ == r.3
            &&& final(pathfinder).goal == old(pathfinder).goal
            &&& final(pathfinder).computing == old(pathfinder).computing
        }),
{
    let ghost r = spec_execute_tick(old(pathfinder).path@, spec_queued_view(
        old(pathfinder).queued_path), old(pathfinder).current_target_node, spec_block_of(
        *position), physics.on_ground);
    let mut actions: Vec<ExecuteAction> = Vec::new();
    let bp = BlockPos::from_fixed(position);
    let og = physics.on_ground;
    proof {
        assert(Seq::<ExecuteAction>::empty() + r.3 =~= r.3);
    }
    loop
        invariant_except_break
            pathfinder.goal == old(pathfinder).goal,
            pathfinder.computing == old(pathfinder).computing,
            bp == spec_block_of(*position),
            og == physics.on_ground,
            r == spec_execute_tick(old(pathfinder).path@, spec_queued_view(
                old(pathfinder).queued_path), old(pathfinder).current_target_node, bp, og),
            ({
                let c = spec_execute_tick(pathfinder.path@, spec_queued_view(
                    pathfinder.queued_path), pathfinder.current_target_node, bp, og);
                r == (c.0, c.1, c.2, actions@ + c.3)
            }),
        ensures
            pathfinder.goal == old(pathfinder).goal,
            pathfinder.computing == old(pathfinder).computing,
            r == (pathfinder.path@, spec_queued_view(pathfinder.queued_path),
                pathfinder.current_target_node, actions@),
        decreases (if pathfinder.queued_path is Some { 1int } else { 0int }),
            pathfinder.path.len(),
    {
        let ghost pre_actions = actions@;
        let ghost c = spec_execute_tick(pathfinder.path@, spec_queued_view(
            pathfinder.queued_path), pathfinder.current_target_node, bp, og);
        if pathfinder.path.len() == 0 {
            proof {
                assert(actions@ + Seq::<ExecuteAction>::empty() =~= actions@);
            }
            break;
        }
        let m = pathfinder.path[0];
        let ghost jump_acts: Seq<ExecuteAction> = if pathfinder.current_target_node
            != Some(m.target) && m.data.jump {
            seq![ExecuteAction::Jump]
        } else {
            Seq::<ExecuteAction>::empty()
        };
        let ghost acts = jump_acts + seq![ExecuteAction::LookAt(m.target),
            ExecuteAction::Sprint];
        let is_new_target = match &pathfinder.current_target_node {
            Some(t) => !(t.x == m.target.x && t.y == m.target.y && t.z == m.target.z),
            None => true,
        };
        if is_new_target && m.data.jump {
            actions.push(ExecuteAction::Jump);
        }
        pathfinder.current_target_node = Some(m.target);
        actions.push(ExecuteAction::LookAt(m.target));
        actions.push(ExecuteAction::Sprint);
        proof {
            assert(actions@ =~= pre_actions + acts);
        }

        if bp.x == m.target.x && bp.y == m.target.y && bp.z == m.target.z && og {
            let mut queued_taken: Option<Vec<Movement>> = None;
            core_swap(&mut queued_taken, &mut pathfinder.queued_path);
            let ghost had_queued = queued_taken is Some;
            match queued_taken {
                Some(q) => {
                    pathfinder.path = q;
                },
                None => {
                    pathfinder.path.remove(0);
                },
            }
            let ghost stop: Seq<ExecuteAction> = if pathfinder.path@.len() == 0 {
                seq![ExecuteAction::StopWalking]
            } else {
                Seq::<ExecuteAction>::empty()
            };
            if pathfinder.path.len() == 0 {
                actions.push(ExecuteAction::StopWalking);
            }
            proof {
                assert(actions@ =~= pre_actions + acts + stop);
                let rec = spec_execute_tick(pathfinder.path@, spec_queued_view(
                    pathfinder.queued_path), Some(m.target), bp, og);
                assert(c.3 == acts + stop + rec.3);
                assert(pre_actions + (acts + stop + rec.3) =~= (pre_actions + acts + stop)
                    + rec.3);
            }
        } else {
            proof {
                assert(actions@ =~= pre_actions + c.3);
            }
            break;
        }
    }
    actions
}

/// Exchange two optional paths.
fn core_swap(a: &mut Option<Vec<Movement>>, b: &mut Option<Vec<Movement>>)
    ensures
        *final(a) == *old(b),
        *final(b) == *old(a),
{
    core::mem::swap(a, b)
}

/// Accept a finished search: a found path starts being walked at once, or
/// queues behind the movement in progress.
pub fn path_found_listener(pathfinder: &mut Pathfinder, found: Option<Vec<Movement>>)
    ensures
        !final(pathfinder).computing,
        final(pathfinder).goal == old(pathfinder).goal,
        final(pathfinder).current_target_node == old(pathfinder).current_target_node,
        match found {
            None => final(pathfinder).path == old(pathfinder).path
                && final(pathfinder).queued_path == old(pathfinder).queued_path,
            Some(p) => {
                if old(pathfinder).path@.len() == 0 {
                    final(pathfinder).path == p && final(pathfinder).queued_path
                        == old(pathfinder).queued_path
                } else {
                    final(pathfinder).path == old(pathfinder).path && final(
                        pathfinder).queued_path == Some(p)
                }
            },
        },
{
    pathfinder.computing = false;
    match found {
        Some(p) => {
            if pathfinder.path.len() == 0 {
                pathfinder.path = p;
            } else {
                pathfinder.queued_path = Some(p);
            }
        },
        None => {},
    }
}

} // verus!
