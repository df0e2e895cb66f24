//! Pathfinder goals: where a search is headed and how promising a node
//! looks, with combinators to invert and join goals.

use crate::moves::spec_node_in_bounds;
use crate::position::BlockPos;
use vstd::prelude::*;

verus! {

/// Heuristics stay within this magnitude, so sums with path costs fit.
pub const HEURISTIC_BOUND: i64 = 0x100_0000_0000_0000;

/// A goal of a path search: a heuristic distance and a success test.
pub trait Goal {
    /// Whether the goal's own parameters are usable.
    spec fn wf(&self) -> bool;

    /// The heuristic value of `n`: smaller is closer.
    spec fn spec_heuristic(&self, n: BlockPos) -> i64;

    /// Whether standing at `n` satisfies the goal.
    spec fn spec_success(&self, n: BlockPos) -> bool;

    /// The heuristic value of `n`.
    fn heuristic(&self, n: BlockPos) -> (r: i64)
        requires
            self.wf(),
            spec_node_in_bounds(n),
        ensures
            r == self.spec_heuristic(n),
            -HEURISTIC_BOUND <= r <= HEURISTIC_BOUND,
    ;

    /// Whether standing at `n` satisfies the goal.
    fn success(&self, n: BlockPos) -> (r: bool)
        requires
            self.wf(),
            spec_node_in_bounds(n),
        ensures
            r == self.spec_success(n),
    ;
}

/// The squared distance between two block positions, clipped into the
/// heuristic bound.
pub open spec fn spec_dist_sq(a: BlockPos, b: BlockPos) -> i64 {
    (((a.x - b.x) * (a.x - b.x)) + ((a.y - b.y) * (a.y - b.y)) + ((a.z - b.z) * (a.z
        - b.z))) as i64
}

/// The squared distance, computed without overflow.
fn dist_sq(a: BlockPos, b: BlockPos) -> (r: i64)
    requires
        spec_node_in_bounds(a),
        spec_node_in_bounds(b),
    ensures
        r == spec_dist_sq(a, b),
        0 <= r <= HEURISTIC_BOUND,
{
    let dx: i64 = (a.x as i64) - (b.x as i64);
    let dy: i64 = (a.y as i64) - (b.y as i64);
    let dz: i64 = (a.z as i64) - (b.z as i64);
    proof {
        lemma_sq_bound_i64(dx as int);
        lemma_sq_bound_i64(dy as int);
        lemma_sq_bound_i64(dz as int);
    }
    dx * dx + dy * dy + dz * dz
}

/// A square of a coordinate difference stays well within the heuristic
/// bound.
proof fn lemma_sq_bound_i64(a: int)
    requires
        -0x800_0000 < a < 0x800_0000,
    ensures
        0 <= a * a < 0x40_0000_0000_0000,
{
    assert(0 <= a * a < 0x40_0000_0000_0000) by (nonlinear_arith)
        requires -0x800_0000 < a < 0x800_0000;
}

/// Head for one exact block.
pub struct BlockPosGoal {
    pub pos: BlockPos,
}

impl Goal for BlockPosGoal {
    open spec fn wf(&self) -> bool {
        spec_node_in_bounds(self.pos)
    }

    open spec fn spec_heuristic(&self, n: BlockPos) -> i64 {
        spec_dist_sq(self.pos, n)
    }

    open spec fn spec_success(&self, n: BlockPos) -> bool {
        n == self.pos
    }

    fn heuristic(&self, n: BlockPos) -> (r: i64) {
        dist_sq(self.pos, n)
    }

    fn success(&self, n: BlockPos) -> (r: bool) {
        n.x == self.pos.x && n.y == self.pos.y && n.z == self.pos.z
    }
}

/// Head near a block: success within a radius, given squared.
pub struct RadiusGoal {
    pub pos: BlockPos,
    pub radius_sq: i64,
}

impl Goal for RadiusGoal {
    open spec fn wf(&self) -> bool {
        self.radius_sq >= 0 && spec_node_in_bounds(self.pos)
    }

    open spec fn spec_heuristic(&self, n: BlockPos) -> i64 {
        spec_dist_sq(self.pos, n)
    }

    open spec fn spec_success(&self, n: BlockPos) -> bool {
        spec_dist_sq(self.pos, n) <= self.radius_sq
    }

    fn heuristic(&self, n: BlockPos) -> (r: i64) {
        dist_sq(self.pos, n)
    }

    fn success(&self, n: BlockPos) -> (r: bool) {
        dist_sq(self.pos, n) <= self.radius_sq
    }
}

/// Head away from a goal: its heuristic negated, success inverted.
pub struct InverseGoal<T: Goal> {
    pub goal: T,
}

impl<T: Goal> Goal for InverseGoal<T> {
    open spec fn wf(&self) -> bool {
        self.goal.wf()
    }

    open spec fn spec_heuristic(&self, n: BlockPos) -> i64 {
        (-self.goal.spec_heuristic(n)) as i64
    }

    open spec fn spec_success(&self, n: BlockPos) -> bool {
        !self.goal.spec_success(n)
    }

    fn heuristic(&self, n: BlockPos) -> (r: i64) {
        -self.goal.heuristic(n)
    }

    fn success(&self, n: BlockPos) -> (r: bool) {
        !self.goal.success(n)
    }
}

/// Head for either of two goals.
pub struct OrGoal<T: Goal, U: Goal> {
    pub goal1: T,
    pub goal2: U,
}

impl<T: Goal, U: Goal> Goal for OrGoal<T, U> {
    open spec fn wf(&self) -> bool {
        self.goal1.wf() && self.goal2.wf()
    }

    open spec fn spec_heuristic(&self, n: BlockPos) -> i64 {
        if self.goal1.spec_heuristic(n) <= self.goal2.spec_heuristic(n) {
            self.goal1.spec_heuristic(n)
        } else {
            self.goal2.spec_heuristic(n)
        }
    }

    open spec fn spec_success(&self, n: BlockPos) -> bool {
        self.goal1.spec_success(n) || self.goal2.spec_success(n)
    }

    fn heuristic(&self, n: BlockPos) -> (r: i64) {
        let h1 = self.goal1.heuristic(n);
        let h2 = self.goal2.heuristic(n);
        if h1 <= h2 {
            h1
        } else {
            h2
        }
    }

    fn success(&self, n: BlockPos) -> (r: bool) {
        self.goal1.success(n) || self.goal2.success(n)
    }
}

/// Head for both of two goals at once.
pub struct AndGoal<T: Goal, U: Goal> {
    pub goal1: T,
    pub goal2: U,
}

impl<T: Goal, U: Goal> Goal for AndGoal<T, U> {
    open spec fn wf(&self) -> bool {
        self.goal1.wf() && self.goal2.wf()
    }

    open spec fn spec_heuristic(&self, n: BlockPos) -> i64 {
        if self.goal1.spec_heuristic(n) >= self.goal2.spec_heuristic(n) {
            self.goal1.spec_heuristic(n)
        } else {
            self.goal2.spec_heuristic(n)
        }
    }

    open spec fn spec_success(&self, n: BlockPos) -> bool {
        self.goal1.spec_success(n) && self.goal2.spec_success(n)
    }

    fn heuristic(&self, n: BlockPos) -> (r: i64) {
        let h1 = self.goal1.heuristic(n);
        let h2 = self.goal2.heuristic(n);
        if h1 >= h2 {
            h1
        } else {
            h2
        }
    }

    fn success(&self, n: BlockPos) -> (r: bool) {
        self.goal1.success(n) && self.goal2.success(n)
    }
}

} // verus!
