//! Library-wide laws, stated and proved over the public contracts: the
//! out-edge census of a toroidal grid, the successor count, and the
//! all-dead fixed point of a generation step. The codec round trip lives
//! beside the codec.

use vstd::prelude::*;

use crate::engine;
use crate::graph::CellState;
use crate::graph::Direction;
use crate::graph::Graph;
use crate::graph::NodeData;
use crate::graph::NodeIndex;
use crate::graph::NodeType;
use crate::graph::is_live_at;
use crate::graph::live_count_in;
use crate::grid;
use crate::grid::grid_adj;
use crate::grid::is_grid;
use crate::rules::RuleTable;

verus! {

/// How many edges of a view carry the tag `t`.
pub open spec fn count_tag(view: Seq<(Option<Direction>, int)>, t: Option<Direction>) -> int
    decreases view.len(),
{
    if view.len() == 0 {
        0
    } else {
        count_tag(view.drop_last(), t) + if view.last().0 == t {
            1int
        } else {
            0int
        }
    }
}

/// Every node of a toroidal grid has exactly eight outgoing edges: one
/// tagged with each of the four cardinal directions and four untagged.
pub proof fn lemma_grid_out_edges(g: Graph, w: int, h: int, n: int)
    requires
        is_grid(g, w, h),
        0 <= n < g.nodes@.len(),
    ensures
        g.edge_view(n).len() == 8,
        count_tag(g.edge_view(n), Some(Direction::Up)) == 1,
        count_tag(g.edge_view(n), Some(Direction::Down)) == 1,
        count_tag(g.edge_view(n), Some(Direction::Left)) == 1,
        count_tag(g.edge_view(n), Some(Direction::Right)) == 1,
        count_tag(g.edge_view(n), None::<Direction>) == 4,
{
    grid::lemma_grid_degree(g, w, h, n);
    assert(g.edge_view(n) == grid_adj(w, h, n));
    let v = grid_adj(w, h, n);
    reveal_with_fuel(count_tag, 10);
    assert(v.drop_last().drop_last().drop_last().drop_last().drop_last().drop_last().drop_last()
        =~= v.take(1));
    assert(count_tag(v, Some(Direction::Up)) == 1);
    assert(count_tag(v, Some(Direction::Down)) == 1);
    assert(count_tag(v, Some(Direction::Left)) == 1);
    assert(count_tag(v, Some(Direction::Right)) == 1);
    assert(count_tag(v, None::<Direction>) == 4);
}

/// The sequence `successors` yields has exactly out-degree many elements;
/// on a toroidal grid that out-degree is eight. Topology never changes
/// after construction: every mutating operation of the library states in
/// its contract that edges and edge-list heads are kept.
pub proof fn lemma_successors_length(g: Graph, n: int)
    requires
        g.wf(),
        0 <= n < g.nodes@.len(),
    ensures
        g.successors_spec(n).len() == g.out_degree(n),
{
}

/// Topology is write-once: any operation that only rewrites node
/// payloads — a generation step, an edit toggle, a decode — leaves a
/// toroidal grid a toroidal grid.
pub proof fn lemma_grid_topology_stable(pre: Graph, post: Graph, w: int, h: int)
    requires
        is_grid(pre, w, h),
        post.wf(),
        post.edges@ == pre.edges@,
        post.nodes@.len() == pre.nodes@.len(),
        forall|n: int|
            0 <= n < pre.nodes@.len() ==> {
                &&& (#[trigger] post.nodes@[n]).x == pre.nodes@[n].x
                &&& post.nodes@[n].y == pre.nodes@[n].y
                &&& post.nodes@[n].first_outgoing_edge == pre.nodes@[n].first_outgoing_edge
            },
    ensures
        is_grid(post, w, h),
{
    crate::graph::lemma_views_preserved(pre, post);
}

/// No live cell is counted in a generation whose every node is dead.
proof fn lemma_live_count_all_dead(nodes: Seq<NodeData>, ts: Seq<NodeIndex>)
    requires
        forall|k: int|
            0 <= k < nodes.len() ==> (#[trigger] nodes[k]).state == NodeType::Cell(
                CellState::Dead,
            ),
        forall|k: int| 0 <= k < ts.len() ==> (#[trigger] ts[k]) < nodes.len(),
    ensures
        live_count_in(nodes, ts) == 0,
    decreases ts.len(),
{
    if ts.len() > 0 {
        let sub = ts.drop_last();
        assert forall|k: int| 0 <= k < sub.len() implies (#[trigger] sub[k]) < nodes.len() by {
            assert(sub[k] == ts[k]);
        }
        lemma_live_count_all_dead(nodes, sub);
        assert(!is_live_at(nodes, ts.last() as int));
    }
}

/// A step's neighbor counts depend only on the pre-step generation:
/// stepping an all-dead grid yields an all-dead grid under any rule table
/// that keeps a dead cell with zero live neighbors dead.
pub proof fn lemma_step_all_dead(g: Graph, rules: RuleTable)
    requires
        g.wf(),
        rules.wf(),
        forall|k: int|
            0 <= k < g.nodes@.len() ==> (#[trigger] g.nodes@[k]).state == NodeType::Cell(
                CellState::Dead,
            ),
        rules.next_spec(CellState::Dead, 0) == CellState::Dead,
    ensures
        forall|i: int|
            0 <= i < g.nodes@.len() ==> engine::next_node_state(g, rules, i) == NodeType::Cell(
                CellState::Dead,
            ),
{
    assert forall|i: int|
        0 <= i < g.nodes@.len() implies engine::next_node_state(g, rules, i) == NodeType::Cell(
        CellState::Dead,
    ) by {
        g.lemma_successors_valid(i);
        lemma_live_count_all_dead(g.nodes@, g.successors_spec(i));
    }
}

} // verus!
