use life_grid::codec::{decode, encode, DEAD_MARKER, LIVE_MARKER, OTHER_MARKER};
use life_grid::graph::{CellState, Direction, Graph, MenuType, NodeType};
use life_grid::grid::new_world;
use life_grid::rules::RuleTable;

#[test]
fn encode_writes_flag_cells_then_rule_rows() {
    let mut g = new_world(3, 3);
    g.set_node_state(4, NodeType::Cell(CellState::Live));
    let rules = RuleTable::conway();
    let bytes = encode(&g, &rules);
    assert_eq!(bytes.len(), 1 + 9 + 18);
    assert_eq!(bytes[0], 1);
    let mut expected_cells = vec![DEAD_MARKER; 9];
    expected_cells[4] = LIVE_MARKER;
    assert_eq!(&bytes[1..10], &expected_cells[..]);
    // row 0: birth on 3; row 1: survive on 2 and 3
    assert_eq!(&bytes[10..19], &[0, 0, 0, 1, 0, 0, 0, 0, 0]);
    assert_eq!(&bytes[19..28], &[0, 0, 1, 1, 0, 0, 0, 0, 0]);
}

#[test]
fn markers_are_distinct_ascii_letters() {
    assert_eq!(LIVE_MARKER, b'L');
    assert_eq!(DEAD_MARKER, b'D');
    assert_eq!(OTHER_MARKER, b'X');
}

#[test]
fn menu_nodes_encode_as_other_marker() {
    let mut g = Graph::new();
    g.add_node(0, 0, NodeType::Cell(CellState::Live));
    g.add_node(0, 1, NodeType::Menu(MenuType::Load));
    let rules = RuleTable::all_dead();
    let bytes = encode(&g, &rules);
    assert_eq!(bytes[1], LIVE_MARKER);
    assert_eq!(bytes[2], OTHER_MARKER);
}

#[test]
fn round_trip_restores_cells_and_rules_exactly() {
    let mut g = new_world(4, 3);
    for n in [0, 5, 7, 11] {
        g.set_node_state(n, NodeType::Cell(CellState::Live));
    }
    let mut rules = RuleTable::all_dead();
    rules.set_entry(0, 4, CellState::Live);
    rules.set_entry(1, 8, CellState::Live);
    let bytes = encode(&g, &rules);

    // decode into a fresh grid and table of the same shape
    let mut g2 = new_world(4, 3);
    let mut rules2 = RuleTable::conway();
    decode(&bytes, &mut g2, &mut rules2);
    for n in 0..12 {
        assert_eq!(g2.node_state(n), g.node_state(n));
    }
    assert_eq!(rules2, rules);
}

#[test]
fn zero_flag_byte_decodes_as_no_saved_data() {
    let mut g = new_world(3, 3);
    g.set_node_state(2, NodeType::Cell(CellState::Live));
    let mut rules = RuleTable::conway();
    let bytes = vec![0u8; 1 + 9 + 18];
    decode(&bytes, &mut g, &mut rules);
    // nothing was mutated
    assert_eq!(g.node_state(2), NodeType::Cell(CellState::Live));
    assert_eq!(g.node_state(0), NodeType::Cell(CellState::Dead));
    assert_eq!(rules, RuleTable::conway());
}

#[test]
fn any_byte_but_the_live_marker_decodes_to_dead() {
    let mut g = new_world(3, 3);
    g.set_node_state(0, NodeType::Cell(CellState::Live));
    let mut rules = RuleTable::all_dead();
    let mut bytes = vec![0u8; 1 + 9 + 18];
    bytes[0] = 1;
    bytes[1] = LIVE_MARKER;
    bytes[2] = OTHER_MARKER;
    bytes[3] = 0xFF;
    decode(&bytes, &mut g, &mut rules);
    assert_eq!(g.node_state(0), NodeType::Cell(CellState::Live));
    assert_eq!(g.node_state(1), NodeType::Cell(CellState::Dead));
    assert_eq!(g.node_state(2), NodeType::Cell(CellState::Dead));
}

#[test]
fn any_nonzero_rule_byte_decodes_to_live() {
    let mut g = new_world(3, 3);
    let mut rules = RuleTable::all_dead();
    let mut bytes = vec![0u8; 1 + 9 + 18];
    bytes[0] = 1;
    bytes[10] = 1; // row 0, count 0
    bytes[15] = 7; // row 0, count 5: nonzero still means live
    bytes[27] = 200; // row 1, count 8
    decode(&bytes, &mut g, &mut rules);
    assert_eq!(rules.get(0, 0), CellState::Live);
    assert_eq!(rules.get(0, 5), CellState::Live);
    assert_eq!(rules.get(1, 8), CellState::Live);
    assert_eq!(rules.get(0, 3), CellState::Dead);
}

#[test]
fn decode_keeps_topology() {
    let mut g = new_world(3, 3);
    let before: Vec<Vec<usize>> = (0..9).map(|n| g.successor_list(n)).collect();
    let mut rules = RuleTable::conway();
    let mut bytes = vec![0u8; 1 + 9 + 18];
    bytes[0] = 1;
    decode(&bytes, &mut g, &mut rules);
    let after: Vec<Vec<usize>> = (0..9).map(|n| g.successor_list(n)).collect();
    assert_eq!(before, after);
    // a cursor still navigates the decoded grid
    let mut c = life_grid::cursor::Cursor::new(&g, 0);
    c.move_cursor(&g, Direction::Right);
    assert_eq!(c.node, 1);
}
