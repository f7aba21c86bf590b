//! Generation update: every node's live-neighbor count is taken from the
//! current generation before any node's state is overwritten, then each
//! cell looks up its next state in the rule table.

use vstd::prelude::*;

use crate::graph::CellState;
use crate::graph::Graph;
use crate::graph::NodeData;
use crate::graph::NodeType;
use crate::rules::RuleTable;

verus! {

/// The payload node `i` carries after one generation step of `g` under
/// `rules`: cells move to the rule table's entry for their state and
/// pre-step live-neighbor count, menu entries are left alone.
pub open spec fn next_node_state(g: Graph, rules: RuleTable, i: int) -> NodeType {
    match g.nodes@[i].state {
        NodeType::Cell(s) => NodeType::Cell(rules.next_spec(s, g.live_neighbors(i))),
        NodeType::Menu(m) => NodeType::Menu(m),
    }
}

/// Advances every cell of `g` by one generation. All neighbor counts are
/// computed against the pre-step generation, so the outcome does not
/// depend on node order. Topology and coordinates are untouched.
pub fn step(g: &mut Graph, rules: &RuleTable)
    requires
        old(g).wf(),
        rules.wf(),
        forall|n: int|
            0 <= n < old(g).nodes@.len() ==> (#[trigger] old(g).successors_spec(n)).len() <= 8,
    ensures
        final(g).wf(),
        final(g).edges@ == old(g).edges@,
        final(g).nodes@.len() == old(g).nodes@.len(),
        forall|i: int|
            0 <= i < old(g).nodes@.len() ==> {
                &&& (#[trigger] final(g).nodes@[i]).x == old(g).nodes@[i].x
                &&& final(g).nodes@[i].y == old(g).nodes@[i].y
                &&& final(g).nodes@[i].first_outgoing_edge == old(g).nodes@[i].first_outgoing_edge
                &&& final(g).nodes@[i].state == next_node_state(*old(g), *rules, i)
            },
{
    let ghost g0 = *old(g);
    let node_count = g.nodes.len();
    let mut counts: Vec<u16> = Vec::new();
    let mut i: usize = 0;
    while i < node_count
        invariant
            *g == g0,
            g0.wf(),
            node_count == g0.nodes@.len(),
            forall|n: int|
                0 <= n < g0.nodes@.len() ==> (#[trigger] g0.successors_spec(n)).len() <= 8,
            i <= node_count,
            counts@.len() == i,
            forall|k: int|
                0 <= k < i ==> (#[trigger] counts@[k]) as int == g0.live_neighbors(k) && counts@[k]
                    <= 8,
        decreases node_count - i,
    {
        let c = g.living_neighbors_count_of(i);
        counts.push(c);
        i = i + 1;
    }
    let mut i: usize = 0;
    while i < node_count
        invariant
            g.edges@ == g0.edges@,
            g.nodes@.len() == g0.nodes@.len(),
            node_count == g0.nodes@.len(),
            g0.wf(),
            rules.wf(),
            counts@.len() == node_count,
            forall|k: int|
                0 <= k < node_count ==> (#[trigger] counts@[k]) as int == g0.live_neighbors(k)
                    && counts@[k] <= 8,
            i <= node_count,
            forall|k: int|
                0 <= k < i ==> {
                    &&& (#[trigger] g.nodes@[k]).x == g0.nodes@[k].x
                    &&& g.nodes@[k].y == g0.nodes@[k].y
                    &&& g.nodes@[k].first_outgoing_edge == g0.nodes@[k].first_outgoing_edge
                    &&& g.nodes@[k].state == next_node_state(g0, *rules, k)
                },
            forall|k: int| i <= k < node_count ==> g.nodes@[k] == g0.nodes@[k],
        decreases node_count - i,
    {
        let nd = g.nodes[i];
        let new_state = match nd.state {
            NodeType::Cell(s) => NodeType::Cell(rules.next_state(s, counts[i])),
            NodeType::Menu(m) => NodeType::Menu(m),
        };
        g.nodes.set(
            i,
            NodeData {
                state: new_state,
                x: nd.x,
                y: nd.y,
                first_outgoing_edge: nd.first_outgoing_edge,
            },
        );
        i = i + 1;
    }
    proof {
        assert forall|n: int|
            0 <= n < final(g).nodes@.len() implies match (#[trigger] final(g).nodes@[n]).first_outgoing_edge {
            Some(e) => e < final(g).edges@.len(),
            None => true,
        } by {
            assert(final(g).nodes@[n].first_outgoing_edge == g0.nodes@[n].first_outgoing_edge);
        }
        assert(final(g).wf());
    }
}

} // verus!
