//! Forward-star directed graph: nodes hold a payload and the head of their
//! outgoing-edge list; edges hold an optional direction tag, a target node,
//! and the next edge of the same source. Topology is append-only: indices
//! stay stable for the graph's lifetime.

use vstd::prelude::*;

verus! {

/// State of one automaton cell.
#[derive(Clone, Copy, PartialEq, Eq, Structural, Debug)]
pub enum CellState {
    Dead,
    Live,
}

impl CellState {
    /// The opposite state, used when an edit toggles a cell.
    pub open spec fn flip_spec(self) -> CellState {
        match self {
            CellState::Dead => CellState::Live,
            CellState::Live => CellState::Dead,
        }
    }

    pub fn flip(self) -> (r: CellState)
        ensures
            r == self.flip_spec(),
    {
        match self {
            CellState::Dead => CellState::Live,
            CellState::Live => CellState::Dead,
        }
    }

    /// Numeric decoding used by the rule table and the codec: one means
    /// live, every other value means dead.
    pub open spec fn from_u16_spec(item: u16) -> CellState {
        if item == 1 {
            CellState::Live
        } else {
            CellState::Dead
        }
    }
}

impl From<u16> for CellState {
    fn from(item: u16) -> (r: CellState) {
        match item {
            0 => CellState::Dead,
            1 => CellState::Live,
            _ => CellState::Dead,
        }
    }
}

impl vstd::std_specs::convert::FromSpecImpl<u16> for CellState {
    open spec fn obeys_from_spec() -> bool {
        true
    }

    open spec fn from_spec(item: u16) -> CellState {
        CellState::from_u16_spec(item)
    }
}

/// Entry of the configuration menu.
#[derive(Clone, Copy, PartialEq, Eq, Structural, Debug)]
pub enum MenuType {
    New,
    Save,
    Load,
}

/// Payload of a node: an automaton cell, or a menu entry of the
/// rule-editing grid. Never both.
#[derive(Clone, Copy, PartialEq, Eq, Structural, Debug)]
pub enum NodeType {
    Cell(CellState),
    Menu(MenuType),
}

/// Direction tag of a cardinal edge. Diagonal edges carry no tag.
#[derive(Clone, Copy, PartialEq, Eq, Structural, Debug)]
pub enum Direction {
    Up,
    Down,
    Left,
    Right,
}

pub type NodeIndex = usize;

pub type EdgeIndex = usize;

/// A node: payload, 2D coordinates for external rendering lookup, and the
/// head of its outgoing-edge list.
#[derive(Clone, Copy, Debug)]
pub struct NodeData {
    pub state: NodeType,
    pub x: u16,
    pub y: u16,
    pub first_outgoing_edge: Option<EdgeIndex>,
}

/// An edge: optional direction tag, target node, and the next edge of the
/// same source node. Edges are never mutated after construction.
#[derive(Clone, Copy, Debug)]
pub struct EdgeData {
    pub direction: Option<Direction>,
    pub target: NodeIndex,
    pub next_outgoing_edge: Option<EdgeIndex>,
}

pub struct Graph {
    pub nodes: Vec<NodeData>,
    pub edges: Vec<EdgeData>,
}

/// Whether following `next_outgoing_edge` from edge `e` steps to a
/// strictly smaller index. Head insertion guarantees this, and it bounds
/// every edge-list walk.
pub open spec fn steps_down(edges: Seq<EdgeData>, e: int) -> bool {
    match edges[e].next_outgoing_edge {
        Some(j) => j < e,
        None => true,
    }
}

/// The edge indices reachable from `head` along `next_outgoing_edge`
/// links, in list order.
pub open spec fn edge_chain(edges: Seq<EdgeData>, head: Option<EdgeIndex>) -> Seq<EdgeIndex>
    decreases (match head {
        Some(e) => e as int + 1,
        None => 0,
    }),
{
    match head {
        None => Seq::empty(),
        Some(e) => {
            if e < edges.len() {
                if steps_down(edges, e as int) {
                    seq![e] + edge_chain(edges, edges[e as int].next_outgoing_edge)
                } else {
                    seq![e]
                }
            } else {
                Seq::empty()
            }
        },
    }
}

/// The target node of each edge in `chain`.
pub open spec fn targets_of(edges: Seq<EdgeData>, chain: Seq<EdgeIndex>) -> Seq<NodeIndex> {
    chain.map(|_k: int, e: EdgeIndex| edges[e as int].target)
}

/// The direction tag and target node of each edge in `chain`.
pub open spec fn view_of(edges: Seq<EdgeData>, chain: Seq<EdgeIndex>) -> Seq<
    (Option<Direction>, int),
> {
    chain.map(|_k: int, e: EdgeIndex| (edges[e as int].direction, edges[e as int].target as int))
}

/// Along a downward-stepping edge list every index is in bounds and the
/// list starts at its head.
pub proof fn lemma_chain_valid(edges: Seq<EdgeData>, head: Option<EdgeIndex>)
    requires
        forall|i: int| 0 <= i < edges.len() ==> steps_down(edges, i),
    ensures
        forall|k: int|
            0 <= k < edge_chain(edges, head).len() ==> (#[trigger] edge_chain(edges, head)[k])
                < edges.len(),
        (head matches Some(e) && e < edges.len()) ==> edge_chain(edges, head).len() >= 1
            && edge_chain(edges, head)[0] == head->Some_0,
    decreases (match head {
        Some(e) => e as int + 1,
        None => 0,
    }),
{
    match head {
        None => {},
        Some(e) => {
            if e < edges.len() {
                assert(steps_down(edges, e as int));
                lemma_chain_valid(edges, edges[e as int].next_outgoing_edge);
                let chain = edge_chain(edges, head);
                let sub = edge_chain(edges, edges[e as int].next_outgoing_edge);
                assert(chain == seq![e] + sub);
                assert forall|k: int| 0 <= k < chain.len() implies chain[k] < edges.len() by {
                    if k == 0 {
                        assert(chain[0] == e);
                    } else {
                        assert(chain[k] == sub[k - 1]);
                    }
                }
            }
        },
    }
}

/// Appending an edge leaves every existing edge list unchanged.
pub proof fn lemma_chain_extend(edges: Seq<EdgeData>, head: Option<EdgeIndex>, e: EdgeData)
    requires
        forall|i: int| 0 <= i < edges.len() ==> steps_down(edges, i),
        (head matches Some(h) ==> h < edges.len()),
    ensures
        edge_chain(edges.push(e), head) == edge_chain(edges, head),
    decreases (match head {
        Some(h) => h as int + 1,
        None => 0,
    }),
{
    match head {
        None => {},
        Some(h) => {
            assert(edges.push(e)[h as int] == edges[h as int]);
            assert(steps_down(edges, h as int));
            assert(steps_down(edges.push(e), h as int));
            lemma_chain_extend(edges, edges[h as int].next_outgoing_edge, e);
        },
    }
}

impl Graph {
    /// Graph invariant: every edge target is a valid node index, every
    /// edge-list head is a valid edge index, and every `next` link points
    /// to a strictly earlier edge, so edge lists terminate.
    pub open spec fn wf(self) -> bool {
        &&& forall|i: int|
            0 <= i < self.edges@.len() ==> (#[trigger] self.edges@[i]).target < self.nodes@.len()
        &&& forall|i: int| 0 <= i < self.edges@.len() ==> steps_down(self.edges@, i)
        &&& forall|n: int|
            0 <= n < self.nodes@.len() ==> match (#[trigger] self.nodes@[n]).first_outgoing_edge {
                Some(e) => e < self.edges@.len(),
                None => true,
            }
    }

    /// Edge indices of node `n`'s outgoing list, in list order.
    pub open spec fn node_chain(self, n: int) -> Seq<EdgeIndex> {
        edge_chain(self.edges@, self.nodes@[n].first_outgoing_edge)
    }

    /// Number of outgoing edges of node `n`.
    pub open spec fn out_degree(self, n: int) -> int {
        self.node_chain(n).len() as int
    }

    /// Target node of each outgoing edge of `n`, in list order.
    pub open spec fn successors_spec(self, n: int) -> Seq<NodeIndex> {
        targets_of(self.edges@, self.node_chain(n))
    }

    /// Direction tag and target of each outgoing edge of `n`, in list
    /// order.
    pub open spec fn edge_view(self, n: int) -> Seq<(Option<Direction>, int)> {
        view_of(self.edges@, self.node_chain(n))
    }

    pub fn new() -> (g: Graph)
        ensures
            g.wf(),
            g.nodes@.len() == 0,
            g.edges@.len() == 0,
    {
        Graph { nodes: Vec::new(), edges: Vec::new() }
    }

    /// Appends a node with no outgoing edges and returns its index.
    pub fn add_node(&mut self, x: u16, y: u16, state: NodeType) -> (index: NodeIndex)
        ensures
            index == old(self).nodes@.len(),
            final(self).nodes@.len() == old(self).nodes@.len() + 1,
            final(self).edges@ == old(self).edges@,
            forall|n: int|
                0 <= n < old(self).nodes@.len() ==> final(self).nodes@[n] == old(self).nodes@[n],
            final(self).nodes@[index as int].state == state,
            final(self).nodes@[index as int].x == x,
            final(self).nodes@[index as int].y == y,
            final(self).nodes@[index as int].first_outgoing_edge is None,
            old(self).wf() ==> final(self).wf(),
    {
        let index = self.nodes.len();
        self.nodes.push(NodeData { x, y, state, first_outgoing_edge: None });
        index
    }

    /// Prepends an edge to `source`'s outgoing list. Out-of-range indices
    /// are a precondition violation, not a recoverable error.
    pub fn add_edge(&mut self, source: NodeIndex, target: NodeIndex, direction: Option<Direction>)
        requires
            old(self).wf(),
            source < old(self).nodes@.len(),
            target < old(self).nodes@.len(),
        ensures
            final(self).wf(),
            final(self).nodes@.len() == old(self).nodes@.len(),
            final(self).edges@.len() == old(self).edges@.len() + 1,
            final(self).edges@ == old(self).edges@.push(
                (EdgeData {
                    direction,
                    target,
                    next_outgoing_edge: old(self).nodes@[source as int].first_outgoing_edge,
                }),
            ),
            final(self).nodes@[source as int].first_outgoing_edge == Some(
                old(self).edges@.len() as EdgeIndex,
            ),
            forall|n: int|
                0 <= n < old(self).nodes@.len() && n != source ==> final(self).nodes@[n] == old(
                    self,
                ).nodes@[n],
            final(self).nodes@[source as int].state == old(self).nodes@[source as int].state,
            final(self).nodes@[source as int].x == old(self).nodes@[source as int].x,
            final(self).nodes@[source as int].y == old(self).nodes@[source as int].y,
            forall|n: int|
                0 <= n < old(self).nodes@.len() && n != source ==> final(self).edge_view(n) == old(
                    self,
                ).edge_view(n),
            forall|n: int|
                0 <= n < old(self).nodes@.len() && n != source ==> final(self).successors_spec(n)
                    == old(self).successors_spec(n),
            final(self).edge_view(source as int) == seq![(direction, target as int)] + old(
                self,
            ).edge_view(source as int),
            final(self).successors_spec(source as int) == seq![target] + old(
                self,
            ).successors_spec(source as int),
    {
        let edge_index = self.edges.len();
        let prev_first = self.nodes[source].first_outgoing_edge;
        let old_node = self.nodes[source];
        self.edges.push(EdgeData { direction, target, next_outgoing_edge: prev_first });
        self.nodes.set(
            source,
            NodeData {
                state: old_node.state,
                x: old_node.x,
                y: old_node.y,
                first_outgoing_edge: Some(edge_index),
            },
        );
        proof {
            let oldg = *old(self);
            let newg = *self;
            assert forall|i: int| 0 <= i < newg.edges@.len() implies steps_down(newg.edges@, i) by {
                if i < oldg.edges@.len() {
                    assert(newg.edges@[i] == oldg.edges@[i]);
                    assert(steps_down(oldg.edges@, i));
                }
            }
            assert(newg.wf());
            assert forall|n: int|
                0 <= n < oldg.nodes@.len() && n != source implies newg.edge_view(n) == oldg.edge_view(
                n,
            ) && newg.successors_spec(n) == oldg.successors_spec(n) by {
                let head = oldg.nodes@[n].first_outgoing_edge;
                lemma_chain_extend(oldg.edges@, head, newg.edges@.last());
                lemma_chain_valid(oldg.edges@, head);
                let chain = edge_chain(oldg.edges@, head);
                assert(newg.node_chain(n) == chain);
                assert forall|k: int| 0 <= k < chain.len() implies newg.edges@[chain[k] as int]
                    == oldg.edges@[chain[k] as int] by {
                    assert(chain[k] < oldg.edges@.len());
                }
                assert(newg.edge_view(n) =~= oldg.edge_view(n));
                assert(newg.successors_spec(n) =~= oldg.successors_spec(n));
            }
            let head = oldg.nodes@[source as int].first_outgoing_edge;
            lemma_chain_extend(oldg.edges@, head, newg.edges@.last());
            lemma_chain_valid(oldg.edges@, head);
            let chain = edge_chain(oldg.edges@, head);
            assert(steps_down(newg.edges@, edge_index as int));
            assert(newg.node_chain(source as int) == seq![edge_index as EdgeIndex] + chain);
            assert forall|k: int| 0 <= k < chain.len() implies newg.edges@[chain[k] as int]
                == oldg.edges@[chain[k] as int] by {
                assert(chain[k] < oldg.edges@.len());
            }
            assert(newg.edge_view(source as int) =~= seq![(direction, target as int)]
                + oldg.edge_view(source as int));
            assert(newg.successors_spec(source as int) =~= seq![target] + oldg.successors_spec(
                source as int,
            ));
        }
    }

    /// Reads one node's payload.
    pub fn node_state(&self, n: NodeIndex) -> (s: NodeType)
        requires
            n < self.nodes@.len(),
        ensures
            s == self.nodes@[n as int].state,
    {
        self.nodes[n].state
    }

    /// Reads one node's grid coordinates, for external rendering lookup.
    pub fn node_position(&self, n: NodeIndex) -> (p: (u16, u16))
        requires
            n < self.nodes@.len(),
        ensures
            p.0 == self.nodes@[n as int].x,
            p.1 == self.nodes@[n as int].y,
    {
        (self.nodes[n].x, self.nodes[n].y)
    }

    /// Number of nodes.
    pub fn node_count(&self) -> (c: usize)
        ensures
            c == self.nodes@.len(),
    {
        self.nodes.len()
    }

    /// Overwrites one node's payload in place; coordinates, topology and
    /// every other node are kept.
    pub fn set_node_state(&mut self, n: NodeIndex, state: NodeType)
        requires
            n < old(self).nodes@.len(),
        ensures
            final(self).edges@ == old(self).edges@,
            final(self).nodes@.len() == old(self).nodes@.len(),
            forall|k: int|
                0 <= k < old(self).nodes@.len() && k != n ==> final(self).nodes@[k] == old(
                    self,
                ).nodes@[k],
            final(self).nodes@[n as int].state == state,
            final(self).nodes@[n as int].x == old(self).nodes@[n as int].x,
            final(self).nodes@[n as int].y == old(self).nodes@[n as int].y,
            final(self).nodes@[n as int].first_outgoing_edge == old(self).nodes@[
                n as int
            ].first_outgoing_edge,
            old(self).wf() ==> final(self).wf(),
    {
        let nd = self.nodes[n];
        self.nodes.set(
            n,
            NodeData { state, x: nd.x, y: nd.y, first_outgoing_edge: nd.first_outgoing_edge },
        );
    }

    /// A lazy walk over `source`'s outgoing targets, in list order: most
    /// recently added edge first, an artifact of head insertion.
    pub fn successors(&self, source: NodeIndex) -> (s: Successors)
        requires
            self.wf(),
            source < self.nodes@.len(),
        ensures
            s.inv(),
            s.graph == self,
            s.remaining() == self.successors_spec(source as int),
    {
        let first_outgoing_edge = self.nodes[source].first_outgoing_edge;
        Successors { graph: self, current_edge_index: first_outgoing_edge }
    }

    /// All of `source`'s successor node indices, in list order.
    pub fn successor_list(&self, source: NodeIndex) -> (r: Vec<NodeIndex>)
        requires
            self.wf(),
            source < self.nodes@.len(),
        ensures
            r@ == self.successors_spec(source as int),
            forall|k: int| 0 <= k < r@.len() ==> (#[trigger] r@[k]) < self.nodes@.len(),
    {
        proof {
            self.lemma_successors_valid(source as int);
        }
        let mut result: Vec<NodeIndex> = Vec::new();
        let mut it = self.successors(source);
        loop
            invariant
                it.inv(),
                it.graph == self,
                self.wf(),
                source < self.nodes@.len(),
                result@ + it.remaining() == self.successors_spec(source as int),
            ensures
                result@ == self.successors_spec(source as int),
            decreases it.remaining().len(),
        {
            let ghost prev = it.remaining();
            match it.next() {
                Some(t) => {
                    proof {
                        assert(result@.push(t) + it.remaining() =~= result@ + prev);
                    }
                    result.push(t);
                },
                None => {
                    proof {
                        assert(result@ + it.remaining() =~= result@);
                    }
                    break ;
                },
            }
        }
        result
    }

    /// Every successor index a well-formed graph yields is a valid node
    /// index.
    pub proof fn lemma_successors_valid(self, n: int)
        requires
            self.wf(),
            0 <= n < self.nodes@.len(),
        ensures
            forall|k: int|
                0 <= k < self.successors_spec(n).len() ==> (#[trigger] self.successors_spec(n)[k])
                    < self.nodes@.len(),
    {
        let head = self.nodes@[n].first_outgoing_edge;
        lemma_chain_valid(self.edges@, head);
        let chain = edge_chain(self.edges@, head);
        assert forall|k: int| 0 <= k < self.successors_spec(n).len() implies (
        #[trigger] self.successors_spec(n)[k]) < self.nodes@.len() by {
            assert(chain[k] < self.edges@.len());
            assert(self.successors_spec(n)[k] == self.edges@[chain[k] as int].target);
        }
    }

    /// Live cells among `source`'s successors: a count over the current
    /// generation. Successors whose payload is a menu entry are skipped.
    pub fn living_neighbors_count_of(&self, source: NodeIndex) -> (n: u16)
        requires
            self.wf(),
            source < self.nodes@.len(),
            self.successors_spec(source as int).len() <= u16::MAX,
        ensures
            n as int == self.live_neighbors(source as int),
            n as int <= self.successors_spec(source as int).len(),
    {
        let succ = self.successor_list(source);
        let mut n: u16 = 0;
        let mut i: usize = 0;
        while i < succ.len()
            invariant
                self.wf(),
                source < self.nodes@.len(),
                succ@ == self.successors_spec(source as int),
                forall|k: int| 0 <= k < succ@.len() ==> (#[trigger] succ@[k]) < self.nodes@.len(),
                i <= succ@.len(),
                succ@.len() <= u16::MAX,
                n as int == live_count_in(self.nodes@, succ@.take(i as int)),
                n as int <= i,
            decreases succ@.len() - i,
        {
            proof {
                assert(succ@.take(i as int + 1).drop_last() =~= succ@.take(i as int));
                assert(succ@.take(i as int + 1).last() == succ@[i as int]);
            }
            let t = succ[i];
            match self.nodes[t].state {
                NodeType::Cell(CellState::Live) => {
                    n = n + 1;
                },
                _ => {},
            }
            i = i + 1;
        }
        proof {
            assert(succ@.take(succ@.len() as int) =~= succ@);
        }
        n
    }
}

/// Whether the node at index `t` holds a live cell.
pub open spec fn is_live_at(nodes: Seq<NodeData>, t: int) -> bool {
    nodes[t].state == NodeType::Cell(CellState::Live)
}

/// How many of the indices in `ts` hold live cells, multiplicity counted.
pub open spec fn live_count_in(nodes: Seq<NodeData>, ts: Seq<NodeIndex>) -> int
    decreases ts.len(),
{
    if ts.len() == 0 {
        0
    } else {
        live_count_in(nodes, ts.drop_last()) + if is_live_at(nodes, ts.last() as int) {
            1int
        } else {
            0int
        }
    }
}

impl Graph {
    /// Live cells among node `n`'s successors, over the current node
    /// payloads.
    pub open spec fn live_neighbors(self, n: int) -> int {
        live_count_in(self.nodes@, self.successors_spec(n))
    }
}

/// Rewriting node payloads never changes topology: as long as the edges
/// and the edge-list heads are kept, every node keeps its edge list, its
/// edge view and its successors.
pub proof fn lemma_views_preserved(pre: Graph, post: Graph)
    requires
        post.edges@ == pre.edges@,
        post.nodes@.len() == pre.nodes@.len(),
        forall|n: int|
            0 <= n < pre.nodes@.len() ==> (#[trigger] post.nodes@[n]).first_outgoing_edge
                == pre.nodes@[n].first_outgoing_edge,
    ensures
        forall|n: int|
            0 <= n < pre.nodes@.len() ==> (#[trigger] post.node_chain(n)) == pre.node_chain(n),
        forall|n: int|
            0 <= n < pre.nodes@.len() ==> (#[trigger] post.edge_view(n)) == pre.edge_view(n),
        forall|n: int|
            0 <= n < pre.nodes@.len() ==> (#[trigger] post.successors_spec(n))
                == pre.successors_spec(n),
{
    assert forall|n: int|
        0 <= n < pre.nodes@.len() implies (#[trigger] post.node_chain(n)) == pre.node_chain(n) && (
    #[trigger] post.edge_view(n)) == pre.edge_view(n) && (#[trigger] post.successors_spec(n))
        == pre.successors_spec(n) by {
        assert(post.nodes@[n].first_outgoing_edge == pre.nodes@[n].first_outgoing_edge);
    }
}

/// A lazy, finite walk over one node's outgoing targets. Restart by
/// recreating it through `Graph::successors`.
pub struct Successors<'graph> {
    pub graph: &'graph Graph,
    pub current_edge_index: Option<EdgeIndex>,
}

impl<'graph> Successors<'graph> {
    pub open spec fn inv(self) -> bool {
        &&& self.graph.wf()
        &&& (self.current_edge_index matches Some(e) ==> e < self.graph.edges@.len())
    }

    /// The targets this walk has yet to yield, in order.
    pub open spec fn remaining(self) -> Seq<NodeIndex> {
        targets_of(self.graph.edges@, edge_chain(self.graph.edges@, self.current_edge_index))
    }

    /// Yields the next successor, or nothing once the edge list is
    /// exhausted.
    pub fn next(&mut self) -> (r: Option<NodeIndex>)
        requires
            old(self).inv(),
        ensures
            final(self).inv(),
            final(self).graph == old(self).graph,
            old(self).current_edge_index is None ==> r is None && final(self).current_edge_index
                is None,
            old(self).current_edge_index matches Some(e) ==> r == Some(
                old(self).graph.edges@[e as int].target,
            ) && final(self).current_edge_index == old(
                self,
            ).graph.edges@[e as int].next_outgoing_edge,
            old(self).remaining().len() == 0 ==> r is None && final(self).remaining().len() == 0,
            old(self).remaining().len() > 0 ==> r == Some(old(self).remaining()[0])
                && final(self).remaining() == old(self).remaining().drop_first(),
    {
        match self.current_edge_index {
            None => None,
            Some(edge_num) => {
                let edge = &self.graph.edges[edge_num];
                proof {
                    assert(steps_down(self.graph.edges@, edge_num as int));
                }
                let ghost prev = self.remaining();
                self.current_edge_index = edge.next_outgoing_edge;
                proof {
                    assert(final(self).remaining() =~= prev.drop_first());
                }
                Some(edge.target)
            },
        }
    }
}

} // verus!
