use life_grid::graph::{CellState, Direction, Graph, MenuType, NodeType};
use life_grid::grid::{new_config_graph, new_world};
use life_grid::rules::RuleTable;

/// Walks node `n`'s outgoing list and returns
/// (degree, up, down, left, right, untagged) tag counts.
fn tag_census(g: &Graph, n: usize) -> (usize, usize, usize, usize, usize, usize) {
    let mut deg = 0;
    let mut up = 0;
    let mut down = 0;
    let mut left = 0;
    let mut right = 0;
    let mut plain = 0;
    let mut cur = g.nodes[n].first_outgoing_edge;
    while let Some(e) = cur {
        deg += 1;
        match g.edges[e].direction {
            Some(Direction::Up) => up += 1,
            Some(Direction::Down) => down += 1,
            Some(Direction::Left) => left += 1,
            Some(Direction::Right) => right += 1,
            None => plain += 1,
        }
        cur = g.edges[e].next_outgoing_edge;
    }
    (deg, up, down, left, right, plain)
}

#[test]
fn world_has_width_times_height_nodes_all_dead() {
    let g = new_world(4, 3);
    assert_eq!(g.node_count(), 12);
    for n in 0..12 {
        assert_eq!(g.node_state(n), NodeType::Cell(CellState::Dead));
        assert_eq!(g.node_position(n), ((n % 4) as u16, (n / 4) as u16));
    }
}

#[test]
fn every_node_has_eight_edges_one_per_direction_four_untagged() {
    for (w, h) in [(3u16, 3u16), (4, 3), (5, 5)] {
        let g = new_world(w, h);
        for n in 0..(w as usize * h as usize) {
            assert_eq!(tag_census(&g, n), (8, 1, 1, 1, 1, 4));
            assert_eq!(g.successor_list(n).len(), 8);
        }
    }
}

#[test]
fn successors_are_the_eight_wraparound_neighbors() {
    let g = new_world(3, 3);
    // node 4 is the center of a 3x3 grid: its neighbors are all others
    let mut succ = g.successor_list(4);
    succ.sort();
    assert_eq!(succ, vec![0, 1, 2, 3, 5, 6, 7, 8]);
    // corner node 0 wraps: neighbors are every node but itself
    let mut corner = g.successor_list(0);
    corner.sort();
    assert_eq!(corner, vec![1, 2, 3, 4, 5, 6, 7, 8]);
}

#[test]
fn successor_list_order_is_diagonals_then_cardinals() {
    let g = new_world(5, 5);
    // node 12 = (2,2); chain order: up-left, up-right, down-left,
    // down-right, up, down, left, right
    let succ = g.successor_list(12);
    assert_eq!(succ, vec![6, 8, 16, 18, 7, 17, 11, 13]);
}

#[test]
fn config_graph_layout() {
    let rules = RuleTable::conway();
    let g = new_config_graph(&rules);
    assert_eq!(g.node_count(), 21);
    // the two rule rows mirror the Conway table
    for col in 0..9usize {
        let birth = if col == 3 { CellState::Live } else { CellState::Dead };
        let survive = if col == 2 || col == 3 { CellState::Live } else { CellState::Dead };
        assert_eq!(g.node_state(col), NodeType::Cell(birth));
        assert_eq!(g.node_state(9 + col), NodeType::Cell(survive));
        assert_eq!(g.node_position(col), (col as u16, 0));
        assert_eq!(g.node_position(9 + col), (col as u16, 1));
    }
    assert_eq!(g.node_state(18), NodeType::Menu(MenuType::New));
    assert_eq!(g.node_state(19), NodeType::Menu(MenuType::Save));
    assert_eq!(g.node_state(20), NodeType::Menu(MenuType::Load));
    assert_eq!(g.node_position(18), (0, 3));
    assert_eq!(g.node_position(19), (0, 4));
    assert_eq!(g.node_position(20), (0, 5));
}

#[test]
fn config_graph_row_ends_have_no_outward_edge() {
    let rules = RuleTable::conway();
    let g = new_config_graph(&rules);
    let mut c = life_grid::cursor::Cursor::new(&g, 8);
    c.move_cursor(&g, Direction::Right);
    assert_eq!(c.node, 8);
    let mut c0 = life_grid::cursor::Cursor::new(&g, 0);
    c0.move_cursor(&g, Direction::Left);
    assert_eq!(c0.node, 0);
}
