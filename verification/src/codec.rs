//! Persistence codec. The save format is a fixed byte layout, processed
//! strictly in order: one leading flag byte (zero means "no saved data"),
//! one marker byte per world-grid cell, then one byte per rule-table
//! entry, row 0 before row 1.

use vstd::prelude::*;

use crate::graph::CellState;
use crate::graph::Graph;
use crate::graph::NodeData;
use crate::graph::NodeType;
use crate::rules::RuleTable;

verus! {

/// Marker byte a live cell is written as.
pub const LIVE_MARKER: u8 = 76;

/// Marker byte a dead cell is written as.
pub const DEAD_MARKER: u8 = 68;

/// Marker byte a non-cell node is written as; it decodes as dead.
pub const OTHER_MARKER: u8 = 88;

/// The byte one node's payload is saved as.
pub open spec fn cell_byte(s: NodeType) -> u8 {
    match s {
        NodeType::Cell(CellState::Live) => LIVE_MARKER,
        NodeType::Cell(CellState::Dead) => DEAD_MARKER,
        NodeType::Menu(_) => OTHER_MARKER,
    }
}

/// The byte one rule-table entry is saved as.
pub open spec fn rule_byte(c: CellState) -> u8 {
    match c {
        CellState::Live => 1,
        CellState::Dead => 0,
    }
}

/// The payload a saved cell byte restores: the live marker restores a
/// live cell, any other byte a dead one.
pub open spec fn decode_cell(b: u8) -> NodeType {
    if b == LIVE_MARKER {
        NodeType::Cell(CellState::Live)
    } else {
        NodeType::Cell(CellState::Dead)
    }
}

/// The entry a saved rule byte restores: any nonzero byte restores live.
pub open spec fn decode_rule(b: u8) -> CellState {
    if b != 0 {
        CellState::Live
    } else {
        CellState::Dead
    }
}

/// The full byte image of a grid's cell states and a rule table.
pub open spec fn encode_spec(nodes: Seq<NodeData>, rules: RuleTable) -> Seq<u8> {
    seq![1u8] + nodes.map(|_i: int, nd: NodeData| cell_byte(nd.state)) + rules.entries@.map(
        |_i: int, c: CellState| rule_byte(c),
    )
}

/// Serializes the grid's cell states and the rule table to the
/// fixed-layout byte image, flag byte first.
pub fn encode(g: &Graph, rules: &RuleTable) -> (r: Vec<u8>)
    requires
        rules.wf(),
    ensures
        r@ == encode_spec(g.nodes@, *rules),
        r@.len() == 1 + g.nodes@.len() + 18,
{
    let node_count = g.nodes.len();
    let mut out: Vec<u8> = Vec::new();
    out.push(1);
    let mut i: usize = 0;
    while i < node_count
        invariant
            node_count == g.nodes@.len(),
            out@.len() == 1 + i,
            i <= node_count,
            out@[0] == 1,
            forall|k: int| 0 <= k < i ==> out@[1 + k] == cell_byte(#[trigger] g.nodes@[k].state),
        decreases node_count - i,
    {
        let b = match g.nodes[i].state {
            NodeType::Cell(CellState::Live) => LIVE_MARKER,
            NodeType::Cell(CellState::Dead) => DEAD_MARKER,
            NodeType::Menu(_) => OTHER_MARKER,
        };
        out.push(b);
        i = i + 1;
    }
    let mut j: usize = 0;
    while j < 18
        invariant
            rules.wf(),
            node_count == g.nodes@.len(),
            out@.len() == 1 + node_count + j,
            j <= 18,
            out@[0] == 1,
            forall|k: int|
                0 <= k < node_count ==> out@[1 + k] == cell_byte(#[trigger] g.nodes@[k].state),
            forall|k: int|
                0 <= k < j ==> out@[1 + node_count + k] == rule_byte(
                    #[trigger] rules.entries@[k],
                ),
        decreases 18 - j,
    {
        let b: u8 = match rules.entries[j] {
            CellState::Live => 1,
            CellState::Dead => 0,
        };
        out.push(b);
        j = j + 1;
    }
    proof {
        assert(out@ =~= encode_spec(g.nodes@, *rules));
    }
    out
}

/// Restores cell states and rule entries from a byte image. A zero flag
/// byte means no saved data: nothing is mutated, a defined successful
/// outcome. Otherwise every node's payload and every rule entry is read
/// back, in the exact order written; topology and coordinates are kept.
pub fn decode(bytes: &Vec<u8>, g: &mut Graph, rules: &mut RuleTable)
    requires
        old(g).wf(),
        old(rules).wf(),
        bytes@.len() >= 1 + old(g).nodes@.len() + 18,
    ensures
        final(g).wf(),
        final(rules).wf(),
        bytes@[0] == 0 ==> *final(g) == *old(g) && *final(rules) == *old(rules),
        bytes@[0] != 0 ==> {
            &&& final(g).edges@ == old(g).edges@
            &&& final(g).nodes@.len() == old(g).nodes@.len()
            &&& forall|i: int|
                0 <= i < old(g).nodes@.len() ==> {
                    &&& (#[trigger] final(g).nodes@[i]).x == old(g).nodes@[i].x
                    &&& final(g).nodes@[i].y == old(g).nodes@[i].y
                    &&& final(g).nodes@[i].first_outgoing_edge == old(
                        g,
                    ).nodes@[i].first_outgoing_edge
                    &&& final(g).nodes@[i].state == decode_cell(bytes@[1 + i])
                }
            &&& forall|r: int, c: int|
                0 <= r < 2 && 0 <= c < 9 ==> final(rules).entry_spec(r, c) == decode_rule(
                    bytes@[1 + old(g).nodes@.len() + r * 9 + c],
                )
        },
{
    if bytes[0] == 0 {
        return ;
    }
    let ghost g0 = *old(g);
    let byte_count = bytes.len();
    let node_count = g.nodes.len();
    proof {
        assert(1 + node_count + 18 <= byte_count);
    }
    let mut i: usize = 0;
    while i < node_count
        invariant
            g0.wf(),
            node_count == g0.nodes@.len(),
            bytes@.len() >= 1 + node_count + 18,
            1 + node_count + 18 <= usize::MAX,
            g.wf(),
            g.edges@ == g0.edges@,
            g.nodes@.len() == node_count,
            i <= node_count,
            forall|k: int|
                0 <= k < i ==> {
                    &&& (#[trigger] g.nodes@[k]).x == g0.nodes@[k].x
                    &&& g.nodes@[k].y == g0.nodes@[k].y
                    &&& g.nodes@[k].first_outgoing_edge == g0.nodes@[k].first_outgoing_edge
                    &&& g.nodes@[k].state == decode_cell(bytes@[1 + k])
                },
            forall|k: int| i <= k < node_count ==> g.nodes@[k] == g0.nodes@[k],
        decreases node_count - i,
    {
        let b = bytes[1 + i];
        let s = if b == LIVE_MARKER {
            NodeType::Cell(CellState::Live)
        } else {
            NodeType::Cell(CellState::Dead)
        };
        g.set_node_state(i, s);
        i = i + 1;
    }
    let mut j: usize = 0;
    while j < 18
        invariant
            rules.wf(),
            node_count == g0.nodes@.len(),
            bytes@.len() >= 1 + node_count + 18,
            1 + node_count + 18 <= usize::MAX,
            j <= 18,
            forall|k: int|
                0 <= k < j ==> (#[trigger] rules.entries@[k]) == decode_rule(
                    bytes@[1 + node_count + k],
                ),
        decreases 18 - j,
    {
        let b = bytes[1 + node_count + j];
        let c = if b != 0 {
            CellState::Live
        } else {
            CellState::Dead
        };
        rules.entries.set(j, c);
        j = j + 1;
    }
}

/// Round trip: decoding the byte image written for a grid whose every
/// node is a cell restores exactly the cell states and rule entries that
/// were encoded.
pub proof fn lemma_encode_decode_round_trip(nodes: Seq<NodeData>, rules: RuleTable)
    requires
        rules.wf(),
        forall|i: int|
            0 <= i < nodes.len() ==> (#[trigger] nodes[i].state) matches NodeType::Cell(_),
    ensures
        encode_spec(nodes, rules)[0] != 0,
        encode_spec(nodes, rules).len() == 1 + nodes.len() + 18,
        forall|i: int|
            0 <= i < nodes.len() ==> decode_cell(
                #[trigger] encode_spec(nodes, rules)[1 + i],
            ) == nodes[i].state,
        forall|r: int, c: int|
            0 <= r < 2 && 0 <= c < 9 ==> decode_rule(
                encode_spec(nodes, rules)[1 + nodes.len() + r * 9 + c],
            ) == rules.entry_spec(r, c),
{
    let bytes = encode_spec(nodes, rules);
    assert forall|i: int|
        0 <= i < nodes.len() implies decode_cell(#[trigger] bytes[1 + i]) == nodes[i].state by {
        assert(bytes[1 + i] == cell_byte(nodes[i].state));
    }
    assert forall|r: int, c: int|
        0 <= r < 2 && 0 <= c < 9 implies decode_rule(bytes[1 + nodes.len() + r * 9 + c])
        == rules.entry_spec(r, c) by {
        let k = r * 9 + c;
        assert(0 <= k < 18);
        assert(bytes[1 + nodes.len() + k] == rule_byte(rules.entries@[k]));
    }
}

} // verus!
