//! Navigation cursor: walks a graph by following the first outgoing edge
//! whose tag matches a requested direction. Stateless beyond the current
//! node index; a move with no matching edge is a defined no-op, not an
//! error.

use vstd::prelude::*;

use crate::graph::Direction;
use crate::graph::EdgeData;
use crate::graph::EdgeIndex;
use crate::graph::Graph;
use crate::graph::NodeIndex;
use crate::graph::edge_chain;
use crate::graph::steps_down;

verus! {

/// Target node of the first edge in `chain` tagged with `d`, or
/// `fallback` when no edge matches.
pub open spec fn first_match(
    edges: Seq<EdgeData>,
    chain: Seq<EdgeIndex>,
    d: Direction,
    fallback: int,
) -> int
    decreases chain.len(),
{
    if chain.len() == 0 {
        fallback
    } else if edges[chain[0] as int].direction == Some(d) {
        edges[chain[0] as int].target as int
    } else {
        first_match(edges, chain.drop_first(), d, fallback)
    }
}

/// Target of the first entry of an edge view whose tag is `d`, or
/// `fallback` when none matches.
pub open spec fn view_move_target(
    view: Seq<(Option<Direction>, int)>,
    d: Direction,
    fallback: int,
) -> int
    decreases view.len(),
{
    if view.len() == 0 {
        fallback
    } else if view[0].0 == Some(d) {
        view[0].1
    } else {
        view_move_target(view.drop_first(), d, fallback)
    }
}

/// The walk over edge indices lands where the walk over the edge view
/// lands.
pub proof fn lemma_first_match_is_view_move(
    edges: Seq<EdgeData>,
    chain: Seq<EdgeIndex>,
    d: Direction,
    fallback: int,
)
    ensures
        first_match(edges, chain, d, fallback) == view_move_target(
            crate::graph::view_of(edges, chain),
            d,
            fallback,
        ),
    decreases chain.len(),
{
    let view = crate::graph::view_of(edges, chain);
    if chain.len() > 0 {
        assert(view[0] == (edges[chain[0] as int].direction, edges[chain[0] as int].target as int));
        assert(view.drop_first() =~= crate::graph::view_of(edges, chain.drop_first()));
        lemma_first_match_is_view_move(edges, chain.drop_first(), d, fallback);
    }
}

/// When no entry of the view is tagged with `d`, a move along `d` stays
/// put.
pub proof fn lemma_view_move_none(view: Seq<(Option<Direction>, int)>, d: Direction, fallback: int)
    requires
        forall|k: int| 0 <= k < view.len() ==> (#[trigger] view[k]).0 != Some(d),
    ensures
        view_move_target(view, d, fallback) == fallback,
    decreases view.len(),
{
    if view.len() > 0 {
        let sub = view.drop_first();
        assert forall|k: int| 0 <= k < sub.len() implies (#[trigger] sub[k]).0 != Some(d) by {
            assert(sub[k] == view[k + 1]);
        }
        lemma_view_move_none(sub, d, fallback);
    }
}

/// A cursor on a graph: nothing but the current node index.
pub struct Cursor {
    pub node: NodeIndex,
}

impl Cursor {
    /// Where one move from node `n` along tag `d` lands on `graph`: the
    /// target of the first matching edge, or `n` itself when none
    /// matches.
    pub open spec fn move_target(graph: Graph, n: int, d: Direction) -> int {
        view_move_target(graph.edge_view(n), d, n)
    }

    pub fn new(graph: &Graph, node: NodeIndex) -> (c: Cursor)
        requires
            graph.wf(),
            node < graph.nodes@.len(),
        ensures
            c.node == node,
    {
        Cursor { node }
    }

    /// Relocates unconditionally, used when switching between grids.
    pub fn set_position(&mut self, graph: &Graph, node: NodeIndex)
        requires
            node < graph.nodes@.len(),
        ensures
            final(self).node == node,
    {
        self.node = node;
    }

    /// Follows the first outgoing edge of the current node whose tag is
    /// `button`; stays put when no edge matches.
    pub fn move_cursor(&mut self, graph: &Graph, button: Direction)
        requires
            graph.wf(),
            old(self).node < graph.nodes@.len(),
        ensures
            final(self).node as int == Cursor::move_target(
                *graph,
                old(self).node as int,
                button,
            ),
            final(self).node < graph.nodes@.len(),
            (forall|k: int|
                0 <= k < graph.edge_view(old(self).node as int).len() ==> (#[trigger] graph.edge_view(
                    old(self).node as int,
                )[k]).0 != Some(button)) ==> final(self).node == old(self).node,
    {
        let start = self.node;
        let mut result: NodeIndex = start;
        let mut maybe_edge = graph.nodes[start].first_outgoing_edge;
        loop
            invariant_except_break
                result == start,
            invariant
                graph.wf(),
                start < graph.nodes@.len(),
                (maybe_edge matches Some(e) ==> e < graph.edges@.len()),
                first_match(graph.edges@, edge_chain(graph.edges@, maybe_edge), button, start as int)
                    == first_match(
                    graph.edges@,
                    graph.node_chain(start as int),
                    button,
                    start as int,
                ),
            ensures
                result as int == first_match(
                    graph.edges@,
                    graph.node_chain(start as int),
                    button,
                    start as int,
                ),
                result < graph.nodes@.len(),
            decreases (match maybe_edge {
                Some(e) => e as int + 1,
                None => 0,
            }),
        {
            if let Some(edge_index) = maybe_edge {
                proof {
                    assert(steps_down(graph.edges@, edge_index as int));
                }
                let ghost chain = edge_chain(graph.edges@, maybe_edge);
                let b = graph.edges[edge_index].direction;
                match b {
                    Some(b) => {
                        if b == button {
                            result = graph.edges[edge_index].target;
                            break ;
                        }
                    },
                    None => (),
                }
                proof {
                    let next = graph.edges@[edge_index as int].next_outgoing_edge;
                    assert(chain.drop_first() =~= edge_chain(graph.edges@, next));
                }
                maybe_edge = graph.edges[edge_index].next_outgoing_edge;
            } else {
                break ;
            }
        }
        self.node = result;
        proof {
            lemma_first_match_is_view_move(
                graph.edges@,
                graph.node_chain(start as int),
                button,
                start as int,
            );
            if forall|k: int|
                0 <= k < graph.edge_view(start as int).len() ==> (#[trigger] graph.edge_view(
                    start as int,
                )[k]).0 != Some(button) {
                lemma_view_move_none(graph.edge_view(start as int), button, start as int);
            }
        }
    }
}

} // verus!
