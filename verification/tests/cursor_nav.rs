use life_grid::cursor::Cursor;
use life_grid::graph::{CellState, Direction, Graph, NodeType};
use life_grid::grid::{new_config_graph, new_world};
use life_grid::rules::RuleTable;

#[test]
fn moves_follow_the_matching_tag() {
    let g = new_world(4, 3);
    let mut c = Cursor::new(&g, 5);
    c.move_cursor(&g, Direction::Right);
    assert_eq!(c.node, 6);
    c.move_cursor(&g, Direction::Down);
    assert_eq!(c.node, 10);
    c.move_cursor(&g, Direction::Left);
    assert_eq!(c.node, 9);
    c.move_cursor(&g, Direction::Up);
    assert_eq!(c.node, 5);
}

#[test]
fn moves_wrap_around_the_torus() {
    let g = new_world(4, 3);
    let mut c = Cursor::new(&g, 0);
    c.move_cursor(&g, Direction::Left);
    assert_eq!(c.node, 3);
    c.move_cursor(&g, Direction::Right);
    assert_eq!(c.node, 0);
    c.move_cursor(&g, Direction::Up);
    assert_eq!(c.node, 8);
    c.move_cursor(&g, Direction::Down);
    assert_eq!(c.node, 0);
}

#[test]
fn move_with_no_matching_tag_is_a_no_op() {
    // the last menu entry of the config grid has only an upward edge
    let rules = RuleTable::conway();
    let g = new_config_graph(&rules);
    let mut c = Cursor::new(&g, 20);
    c.move_cursor(&g, Direction::Right);
    assert_eq!(c.node, 20);
    c.move_cursor(&g, Direction::Left);
    assert_eq!(c.node, 20);
    c.move_cursor(&g, Direction::Down);
    assert_eq!(c.node, 20);
    c.move_cursor(&g, Direction::Up);
    assert_eq!(c.node, 19);
}

#[test]
fn move_on_a_node_without_edges_stays_put() {
    let mut g = Graph::new();
    g.add_node(0, 0, NodeType::Cell(CellState::Dead));
    let mut c = Cursor::new(&g, 0);
    c.move_cursor(&g, Direction::Down);
    assert_eq!(c.node, 0);
}

#[test]
fn untagged_edges_are_invisible_to_the_cursor() {
    let mut g = Graph::new();
    let a = g.add_node(0, 0, NodeType::Cell(CellState::Dead));
    let b = g.add_node(1, 1, NodeType::Cell(CellState::Dead));
    g.add_edge(a, b, None);
    let mut c = Cursor::new(&g, a);
    for d in [Direction::Up, Direction::Down, Direction::Left, Direction::Right] {
        c.move_cursor(&g, d);
        assert_eq!(c.node, a);
    }
}

#[test]
fn first_matching_edge_in_list_order_wins() {
    // two RIGHT edges from one node: head insertion makes the later one
    // first in list order
    let mut g = Graph::new();
    let a = g.add_node(0, 0, NodeType::Cell(CellState::Dead));
    let b = g.add_node(1, 0, NodeType::Cell(CellState::Dead));
    let c = g.add_node(2, 0, NodeType::Cell(CellState::Dead));
    g.add_edge(a, b, Some(Direction::Right));
    g.add_edge(a, c, Some(Direction::Right));
    let mut cur = Cursor::new(&g, a);
    cur.move_cursor(&g, Direction::Right);
    assert_eq!(cur.node, c);
}

#[test]
fn set_position_relocates_unconditionally() {
    let g = new_world(3, 3);
    let mut c = Cursor::new(&g, 0);
    c.set_position(&g, 7);
    assert_eq!(c.node, 7);
}
