//! A* search over the movement-edge graph. The open set lives in an
//! outside priority queue, addressed here through a handful of trusted
//! declarations; everything around it is verified: every returned path is
//! a chain of real movement edges from the start to a node the goal
//! accepts.

use crate::goals::Goal;
use crate::moves::{
    spec_is_edge, spec_node_in_bounds, successors, Edge, MoveData, Movement,
};
use crate::position::BlockPos;
use crate::world::Dimension;
use std::collections::hash_map::RandomState;
use vstd::prelude::*;

verus! {

/// The outside priority queue the open set lives in.
#[verifier::external_type_specification]
#[verifier::external_body]
#[verifier::reject_recursive_types(I)]
#[verifier::reject_recursive_types(P)]
#[verifier::reject_recursive_types(H)]
pub struct ExPriorityQueue<I, P, H>(priority_queue::PriorityQueue<I, P, H>);

/// What the queue holds: each item with its current priority.
pub uninterp spec fn pq_contents(
    q: priority_queue::PriorityQueue<u64, u64, RandomState>,
) -> Map<u64, u64>;

/// Relies on PriorityQueue::new: it creates an empty queue.
#[verifier::external_body]
fn pq_new() -> (r: priority_queue::PriorityQueue<u64, u64, RandomState>)
    ensures
        pq_contents(r) == (Map::<u64, u64>::empty()),
{
    priority_queue::PriorityQueue::new()
}

/// Relies on PriorityQueue::push: it inserts the item with the priority,
/// or updates the priority of the item already there, handing back the
/// old priority.
#[verifier::external_body]
fn pq_push(
    q: &mut priority_queue::PriorityQueue<u64, u64, RandomState>,
    item: u64,
    priority: u64,
) -> (r: Option<u64>)
    ensures
        pq_contents(*final(q)) == pq_contents(*old(q)).insert(item, priority),
        r == (if pq_contents(*old(q)).dom().contains(item) {
            Some(pq_contents(*old(q))[item])
        } else {
            Option::<u64>::None
        }),
{
    q.push(item, priority)
}

/// Relies on PriorityQueue::pop: it removes and returns an item of
/// greatest priority, or nothing from an empty queue.
#[verifier::external_body]
fn pq_pop(
    q: &mut priority_queue::PriorityQueue<u64, u64, RandomState>,
) -> (r: Option<(u64, u64)>)
    ensures
        match r {
            None => pq_contents(*old(q)) == (Map::<u64, u64>::empty()) && *final(q)
                == *old(q),
            Some((item, priority)) => {
                &&& pq_contents(*old(q)).dom().contains(item)
                &&& pq_contents(*old(q))[item] == priority
                &&& forall|j: u64| pq_contents(*old(q)).dom().contains(j)
                    ==> pq_contents(*old(q))[j] <= priority
                &&& pq_contents(*final(q)) == pq_contents(*old(q)).remove(item)
            },
        },
{
    q.pop()
}

/// What a search hands back: the movements to walk, and whether they are
/// only the most promising part of an unfinished search rather than a
/// path to the goal.
pub struct Path {
    pub movements: Vec<Movement>,
    pub partial: bool,
}

/// One explored node of the search: how it was reached and at what cost.
pub struct Node {
    pub position: BlockPos,
    pub movement_data: Option<MoveData>,
    pub came_from: Option<BlockPos>,
    pub g_score: u64,
    pub f_score: i64,
}

/// There is an edge of the world carrying this movement.
pub open spec fn spec_edge_exists(world: &Dimension, from: BlockPos, m: Movement) -> bool {
    exists|cost: u64| spec_is_edge(world, from, Edge { movement: m, cost })
}

/// A prefix-closed chain: each movement is a real edge from where the
/// previous one ended, the first from `start`.
#[verifier::opaque]
pub open spec fn spec_path_valid(world: &Dimension, start: BlockPos, path: Seq<Movement>)
    -> bool {
    forall|i: int| 0 <= i < path.len() ==> spec_edge_exists(world, if i == 0 {
        start
    } else {
        path[i - 1].target
    }, #[trigger] path[i])
}

/// The store of explored nodes is sound: positions are unique and in
/// bounds, costs are bounded, the start carries no movement, and every
/// other node was reached over a real edge from a cheaper stored node.
#[verifier::opaque]
pub open spec fn spec_nodes_wf(world: &Dimension, start: BlockPos, nodes: Seq<Node>) -> bool {
    &&& forall|k: int| 0 <= k < nodes.len() ==> spec_node_in_bounds(
        (#[trigger] nodes[k]).position)
    &&& forall|k: int, l: int| 0 <= k < l < nodes.len() ==> nodes[k].position
        != nodes[l].position
    &&& forall|k: int| 0 <= k < nodes.len() ==> (#[trigger] nodes[k]).g_score
        <= 0x4000_0000_0000_0000
    &&& forall|k: int| 0 <= k < nodes.len() ==> match (#[trigger] nodes[k]).came_from {
        None => nodes[k].position == start && nodes[k].movement_data is None,
        Some(c) => {
            &&& nodes[k].movement_data matches Some(d) && spec_edge_exists(world, c,
                Movement { target: nodes[k].position, data: d })
            &&& exists|j: int| 0 <= j < nodes.len() && (#[trigger] nodes[j]).position == c
                && nodes[j].g_score < nodes[k].g_score
        },
    }
}

/// The index of the node standing at `pos`, if one is stored.
pub open spec fn spec_node_index(nodes: Seq<Node>, pos: BlockPos, i: int) -> Option<int>
    decreases nodes.len() - i,
{
    if i < 0 || i >= nodes.len() {
        None
    } else if nodes[i].position == pos {
        Some(i)
    } else {
        spec_node_index(nodes, pos, i + 1)
    }
}

/// A found node index is in range and stands at the position searched
/// for.
proof fn lemma_node_index_in_range(nodes: Seq<Node>, pos: BlockPos, i: int)
    requires
        spec_node_index(nodes, pos, i) is Some,
        0 <= i,
    ensures
        i <= spec_node_index(nodes, pos, i)->0 < nodes.len(),
        nodes[spec_node_index(nodes, pos, i)->0].position == pos,
    decreases nodes.len() - i,
{
    if i < nodes.len() && nodes[i].position != pos {
        lemma_node_index_in_range(nodes, pos, i + 1);
    }
}

/// When the search misses, no node from `i` on stands at the position.
proof fn lemma_node_index_none_no_match(nodes: Seq<Node>, pos: BlockPos, i: int, k: int)
    requires
        spec_node_index(nodes, pos, i) is None,
        i <= k < nodes.len(),
        0 <= i,
    ensures
        nodes[k].position != pos,
    decreases nodes.len() - i,
{
    if i < k {
        lemma_node_index_none_no_match(nodes, pos, i + 1, k);
    }
}

/// The index of the node standing at `pos`, if one is stored.
fn find_node(nodes: &Vec<Node>, pos: &BlockPos) -> (r: Option<usize>)
    ensures
        match r {
            Some(i) => spec_node_index(nodes@, *pos, 0) == Some(i as int),
            None => spec_node_index(nodes@, *pos, 0) is None,
        },
{
    let mut i: usize = 0;
    while i < nodes.len()
        invariant
            i <= nodes.len(),
            spec_node_index(nodes@, *pos, 0) == spec_node_index(nodes@, *pos, i as int),
        decreases nodes.len() - i,
    {
        if nodes[i].position.x == pos.x && nodes[i].position.y == pos.y
            && nodes[i].position.z == pos.z {
            return Some(i);
        }
        i = i + 1;
    }
    None
}

/// The queue priority of an f-score: lower f, higher priority.
fn priority_of(f: i64) -> (r: u64)
    ensures
        r == (0x7fff_ffff_ffff_ffffi128 - f) as u64,
{
    ((0x7fff_ffff_ffff_ffffi128 - (f as i128)) as u64)
}

/// A chain is still valid with one more edge put in front of it.
proof fn lemma_chain_cons(
    world: &Dimension,
    from: BlockPos,
    m: Movement,
    rest: Seq<Movement>,
)
    requires
        spec_edge_exists(world, from, m),
        spec_path_valid(world, m.target, rest),
    ensures
        spec_path_valid(world, from, seq![m] + rest),
{
    reveal(spec_path_valid);
    let whole = seq![m] + rest;
    assert forall|i: int| 0 <= i < whole.len() implies spec_edge_exists(world, if i == 0 {
        from
    } else {
        whole[i - 1].target
    }, #[trigger] whole[i]) by {
        if i == 0 {
            assert(whole[0] == m);
        } else {
            assert(whole[i] == rest[i - 1]);
            if i == 1 {
                assert(whole[0] == m);
            } else {
                assert(whole[i - 1] == rest[i - 2]);
            }
        }
    }
}

/// Walk the came-from links back from `current` and return the movements
/// in path order.
#[verifier::rlimit(50)]
fn reconstruct_path(nodes: &Vec<Node>, current: usize, world: &Dimension, start: BlockPos)
    -> (r: Vec<Movement>)
    requires
        spec_nodes_wf(world, start, nodes@),
        current < nodes.len(),
    ensures
        spec_path_valid(world, start, r@),
        r@.len() == 0 ==> nodes@[current as int].position == start,
        r@.len() > 0 ==> r@.last().target == nodes@[current as int].position,
        nodes@[current as int].came_from is None ==> r@.len() == 0,
{
    let mut back: Vec<Movement> = Vec::new();
    let mut cur: usize = current;
    proof {
        assert(back@.reverse() =~= Seq::<Movement>::empty());
        assert(spec_path_valid(world, nodes@[cur as int].position, back@.reverse())) by {
            reveal(spec_path_valid);
        }
    }
    loop
        invariant
            spec_nodes_wf(world, start, nodes@),
            cur < nodes.len(),
            spec_path_valid(world, nodes@[cur as int].position, back@.reverse()),
            back@.len() == 0 ==> cur == current,
            back@.len() > 0 ==> back@[0].target == nodes@[current as int].position,
            nodes@[current as int].came_from is None ==> back@.len() == 0,
        ensures
            spec_path_valid(world, start, back@.reverse()),
            back@.len() == 0 ==> nodes@[current as int].position == start,
            back@.len() > 0 ==> back@[0].target == nodes@[current as int].position,
            nodes@[current as int].came_from is None ==> back@.len() == 0,
        decreases nodes@[cur as int].g_score,
    {
        proof {
            reveal(spec_nodes_wf);
        }
        let came_from = match &nodes[cur].came_from {
            None => {
                break;
            },
            Some(c) => *c,
        };
        let data = match &nodes[cur].movement_data {
            Some(d) => *d,
            None => {
                proof {
                    assert(false);
                }
                break;
            },
        };
        let m = Movement { target: nodes[cur].position, data };
        let ghost old_back = back@;
        let ghost old_cur = cur;
        back.push(m);
        let next = match find_node(nodes, &came_from) {
            Some(j) => j,
            None => {
                proof {
                    let j = choose|j: int| 0 <= j < nodes@.len()
                        && (#[trigger] nodes@[j]).position == came_from
                        && nodes@[j].g_score < nodes@[cur as int].g_score;
                    lemma_node_index_none_no_match(nodes@, came_from, 0, j);
                    assert(false);
                }
                break;
            },
        };
        proof {
            lemma_node_index_in_range(nodes@, came_from, 0);
            let j = choose|j: int| 0 <= j < nodes@.len() && (#[trigger] nodes@[
                j]).position == came_from && nodes@[j].g_score < nodes@[old_cur as int].g_score;
            if j != next as int {
                assert(nodes@[j].position == nodes@[next as int].position);
            }
            assert(nodes@[next as int].g_score < nodes@[old_cur as int].g_score);
            assert(back@.reverse() =~= seq![m] + old_back.reverse());
            lemma_chain_cons(world, came_from, m, old_back.reverse());
        }
        cur = next;
    }
    // reverse the collected movements into path order
    let mut path: Vec<Movement> = Vec::new();
    let mut i: usize = back.len();
    while i > 0
        invariant
            i <= back.len(),
            path@.len() == back@.len() - i,
            forall|k: int| 0 <= k < path@.len() ==> path@[k] == back@[back@.len() - 1 - k],
        decreases i,
    {
        i = i - 1;
        path.push(back[i]);
    }
    proof {
        assert(path@ =~= back@.reverse());
    }
    path
}

/// Search for a path from `start` to the goal, exploring at most
/// `max_iterations` nodes; the budget stands in for the wall-clock bound
/// of the search. The returned movements are always a chain of real
/// movement edges of the world from `start`. A full result ends in a
/// position the goal accepts, empty exactly when the start already
/// satisfies it; when the budget or the reachable graph runs out first,
/// the result is marked partial and leads to the most promising node
/// seen, which the goal does not accept.
#[verifier::rlimit(50)]
pub fn a_star<G: Goal>(
    start: BlockPos,
    world: &Dimension,
    goal: &G,
    max_iterations: u64,
) -> (r: Path)
    requires
        world.wf(),
        spec_node_in_bounds(start),
        goal.wf(),
    ensures
        spec_path_valid(world, start, r.movements@),
        !r.partial ==> (r.movements@.len() == 0 <==> goal.spec_success(start)),
        !r.partial && r.movements@.len() > 0 ==> goal.spec_success(
            r.movements@.last().target),
        r.partial && r.movements@.len() > 0 ==> !goal.spec_success(
            r.movements@.last().target),
        goal.spec_success(start) && max_iterations >= 1 ==> !r.partial,
{
    let mut open_set = pq_new();
    let mut nodes: Vec<Node> = Vec::new();
    nodes.push(Node {
        position: start,
        movement_data: None,
        came_from: None,
        g_score: 0,
        f_score: 0x7fff_ffff_ffff_ffff,
    });
    pq_push(&mut open_set, 0, 0);
    proof {
        assert(spec_nodes_wf(world, start, nodes@)) by {
            reveal(spec_nodes_wf);
        }
    }

    let mut best_index: usize = 0;
    let mut best_h: i64 = i64::MAX;
    let mut iterations: u64 = 0;
    while iterations < max_iterations
        invariant
            world.wf(),
            goal.wf(),
            spec_node_in_bounds(start),
            spec_nodes_wf(world, start, nodes@),
            nodes@.len() >= 1,
            nodes@[0].position == start,
            nodes@[0].g_score == 0,
            nodes@[0].came_from is None,
            best_index < nodes@.len(),
            best_h == i64::MAX ==> best_index == 0,
            best_h != i64::MAX ==> !goal.spec_success(nodes@[best_index as int].position),
            forall|item: u64| #[trigger] pq_contents(open_set).dom().contains(item)
                ==> item < nodes@.len(),
            goal.spec_success(start) ==> iterations == 0 && pq_contents(open_set)
                == (Map::<u64, u64>::empty().insert(0u64, 0u64)),
        decreases max_iterations - iterations,
    {
        iterations = iterations + 1;
        let (current_index, _priority) = match pq_pop(&mut open_set) {
            Some(pair) => pair,
            None => {
                proof {
                    if goal.spec_success(start) {
                        // the start node was queued, so the queue was not
                        // empty
                        assert((Map::<u64, u64>::empty().insert(0u64, 0u64)).dom()
                            .contains(0u64));
                        assert(false);
                    }
                }
                return Path {
                    movements: reconstruct_path(&nodes, best_index, world, start),
                    partial: true,
                };
            },
        };
        let current_index = current_index as usize;
        let current_node = nodes[current_index].position;
        proof {
            assert(spec_node_in_bounds(current_node)) by {
                reveal(spec_nodes_wf);
            }
        }

        if goal.success(current_node) {
            proof {
                if goal.spec_success(start) {
                    // with a successful start this is the first iteration
                    // and the only queued item was the start node
                    assert((Map::<u64, u64>::empty().insert(0u64, 0u64)).dom().contains(
                        current_index as u64));
                    assert(current_index == 0);
                }
            }
            return Path {
                movements: reconstruct_path(&nodes, current_index, world, start),
                partial: false,
            };
        }
        // not the goal: remember the most promising node seen so far
        let h = goal.heuristic(current_node);
        if h < best_h {
            best_h = h;
            best_index = current_index;
        }
        proof {
            if goal.spec_success(start) {
                // with a successful start this is the first iteration, the
                // only queued item is the start node, and the success test
                // just failed on it: impossible
                assert((Map::<u64, u64>::empty().insert(0u64, 0u64)).dom().contains(
                    current_index as u64));
                assert(current_index == 0);
                assert(false);
            }
        }

        let current_g_score = nodes[current_index].g_score;
        proof {
            assert(current_g_score <= 0x4000_0000_0000_0000) by {
                reveal(spec_nodes_wf);
            }
        }

        let edges = successors(world, current_node);
        let mut e: usize = 0;
        while e < edges.len()
            invariant
                world.wf(),
                goal.wf(),
                spec_node_in_bounds(start),
                spec_nodes_wf(world, start, nodes@),
                nodes@.len() >= 1,
                nodes@[0].position == start,
                nodes@[0].g_score == 0,
                nodes@[0].came_from is None,
                !goal.spec_success(start),
                best_index < nodes@.len(),
                best_h == i64::MAX ==> best_index == 0,
                best_h != i64::MAX ==> !goal.spec_success(nodes@[
                    best_index as int].position),
                forall|item: u64| #[trigger] pq_contents(open_set).dom().contains(item)
                    ==> item < nodes@.len(),
                e <= edges.len(),
                current_index < nodes@.len(),
                nodes@[current_index as int].position == current_node,
                nodes@[current_index as int].g_score == current_g_score,
                current_g_score <= 0x4000_0000_0000_0000,
                forall|i: int| 0 <= i < edges.len() ==> {
                    &&& spec_is_edge(world, current_node, #[trigger] edges@[i])
                    &&& spec_node_in_bounds(edges@[i].movement.target)
                    &&& 1 <= edges@[i].cost <= 100
                },
            decreases edges.len() - e,
        {
            let edge = edges[e];
            e = e + 1;
            let tentative_g_score = current_g_score + edge.cost;
            if tentative_g_score > 0x4000_0000_0000_0000 {
                continue;
            }
            let target = edge.movement.target;
            let found = find_node(&nodes, &target);
            let neighbor_g_score = match found {
                Some(j) => {
                    proof {
                        lemma_node_index_in_range(nodes@, target, 0);
                    }
                    nodes[j].g_score
                },
                None => u64::MAX,
            };
            if tentative_g_score < neighbor_g_score {
                let f_score = (tentative_g_score as i64) + goal.heuristic(target);
                let new_node = Node {
                    position: target,
                    movement_data: Some(edge.movement.data),
                    came_from: Some(current_node),
                    g_score: tentative_g_score,
                    f_score,
                };
                let ghost pre = nodes@;
                let index: usize = match found {
                    Some(j) => {
                        proof {
                            lemma_node_index_in_range(nodes@, target, 0);
                        }
                        nodes.remove(j);
                        nodes.insert(j, new_node);
                        proof {
                            assert(nodes@ =~= pre.update(j as int, new_node));
                        }
                        j
                    },
                    None => {
                        nodes.push(new_node);
                        j_from_push(&nodes)
                    },
                };
                proof {
                    assert(spec_nodes_wf(world, start, nodes@)) by {
                        lemma_nodes_wf_after_store(world, start, pre, nodes@,
                            index as int, new_node, current_index as int, edge);
                    }
                }
                pq_push(&mut open_set, index as u64, priority_of(f_score));
            }
        }
    }
    Path { movements: reconstruct_path(&nodes, best_index, world, start), partial: true }
}

/// The index a push stored its element at.
fn j_from_push(nodes: &Vec<Node>) -> (r: usize)
    requires
        nodes.len() >= 1,
    ensures
        r == nodes.len() - 1,
{
    nodes.len() - 1
}

/// Storing one freshly reached node keeps the store sound: it is in
/// bounds, cheaper routes stay, and its own route comes from the stored
/// current node over a real edge.
proof fn lemma_nodes_wf_after_store(
    world: &Dimension,
    start: BlockPos,
    pre: Seq<Node>,
    post: Seq<Node>,
    index: int,
    new_node: Node,
    current: int,
    edge: Edge,
)
    requires
        spec_nodes_wf(world, start, pre),
        0 <= current < pre.len(),
        0 <= index < post.len(),
        (index < pre.len() && post == pre.update(index, new_node)) || (index == pre.len()
            && post == pre.push(new_node)),
        index == pre.len() ==> spec_node_index(pre, new_node.position, 0) is None,
        index < pre.len() ==> pre[index].position == new_node.position,
        new_node.position == edge.movement.target,
        new_node.movement_data == Some(edge.movement.data),
        new_node.came_from == Some(pre[current].position),
        new_node.g_score <= 0x4000_0000_0000_0000,
        pre[current].g_score < new_node.g_score,
        index < pre.len() ==> new_node.g_score < pre[index].g_score,
        current != index,
        spec_is_edge(world, pre[current].position, edge),
        spec_node_in_bounds(new_node.position),
    ensures
        spec_nodes_wf(world, start, post),
{
    reveal(spec_nodes_wf);
    assert forall|k: int| 0 <= k < post.len() implies spec_node_in_bounds(
        (#[trigger] post[k]).position) by {
        if k != index {
            assert(post[k] == pre[k]);
        }
    }
    assert forall|k: int, l: int| 0 <= k < l < post.len() implies post[k].position
        != post[l].position by {
        if k != index && l != index {
            assert(post[k] == pre[k] && post[l] == pre[l]);
        } else if index == pre.len() {
            let other = if k == index { l } else { k };
            assert(post[other] == pre[other]);
            lemma_node_index_none_no_match(pre, new_node.position, 0, other);
        } else {
            let other = if k == index { l } else { k };
            assert(post[other] == pre[other]);
            assert(pre[index].position == new_node.position);
        }
    }
    assert forall|k: int| 0 <= k < post.len() implies (#[trigger] post[k]).g_score
        <= 0x4000_0000_0000_0000 by {
        if k != index {
            assert(post[k] == pre[k]);
        }
    }
    assert forall|k: int| 0 <= k < post.len() implies match (#[trigger] post[k]).came_from {
        None => post[k].position == start && post[k].movement_data is None,
        Some(c) => {
            &&& post[k].movement_data matches Some(d) && spec_edge_exists(world, c,
                Movement { target: post[k].position, data: d })
            &&& exists|j: int| 0 <= j < post.len() && (#[trigger] post[j]).position == c
                && post[j].g_score < post[k].g_score
        },
    } by {
        if k == index {
            assert(spec_is_edge(world, pre[current].position, Edge {
                movement: Movement { target: new_node.position, data: edge.movement.data },
                cost: edge.cost,
            }));
            assert(post[current] == pre[current]);
            assert(0 <= current < post.len() && post[current].position
                == pre[current].position && post[current].g_score < post[k].g_score);
        } else {
            assert(post[k] == pre[k]);
            match pre[k].came_from {
                None => {},
                Some(c) => {
                    let j = choose|j: int| 0 <= j < pre.len() && (#[trigger] pre[
                        j]).position == c && pre[j].g_score < pre[k].g_score;
                    if j == index {
                        assert(post[j].position == c && post[j].g_score < post[k].g_score);
                    } else {
                        assert(post[j] == pre[j]);
                    }
                },
            }
        }
    }
}

} // verus!
