use life_grid::graph::{CellState, Direction, Graph, MenuType, NodeType};

fn three_node_graph() -> Graph {
    let mut g = Graph::new();
    let a = g.add_node(0, 0, NodeType::Cell(CellState::Dead));
    let b = g.add_node(1, 0, NodeType::Cell(CellState::Live));
    let c = g.add_node(2, 0, NodeType::Cell(CellState::Live));
    g.add_edge(a, b, Some(Direction::Right));
    g.add_edge(a, c, None);
    g.add_edge(b, a, Some(Direction::Left));
    g
}

#[test]
fn cell_state_from_u16_maps_one_to_live() {
    assert_eq!(CellState::from(0u16), CellState::Dead);
    assert_eq!(CellState::from(1u16), CellState::Live);
    assert_eq!(CellState::from(7u16), CellState::Dead);
}

#[test]
fn flip_inverts_a_cell_state() {
    assert_eq!(CellState::Dead.flip(), CellState::Live);
    assert_eq!(CellState::Live.flip(), CellState::Dead);
}

#[test]
fn add_node_returns_consecutive_indices() {
    let mut g = Graph::new();
    assert_eq!(g.node_count(), 0);
    let a = g.add_node(0, 0, NodeType::Cell(CellState::Dead));
    let b = g.add_node(1, 0, NodeType::Menu(MenuType::Save));
    assert_eq!(a, 0);
    assert_eq!(b, 1);
    assert_eq!(g.node_count(), 2);
    assert_eq!(g.node_state(1), NodeType::Menu(MenuType::Save));
    assert_eq!(g.node_position(1), (1, 0));
}

#[test]
fn successors_enumerate_in_reverse_insertion_order() {
    let g = three_node_graph();
    // node 0's edges were added b first, then c: head insertion yields c first
    let succ = g.successor_list(0);
    assert_eq!(succ, vec![2, 1]);
}

#[test]
fn successors_iterator_is_lazy_and_finite() {
    let g = three_node_graph();
    let mut it = g.successors(0);
    assert_eq!(it.next(), Some(2));
    assert_eq!(it.next(), Some(1));
    assert_eq!(it.next(), None);
    assert_eq!(it.next(), None);
    // restart by recreation
    let mut again = g.successors(0);
    assert_eq!(again.next(), Some(2));
}

#[test]
fn node_with_no_edges_has_no_successors() {
    let g = three_node_graph();
    assert_eq!(g.successor_list(2), Vec::<usize>::new());
}

#[test]
fn living_neighbors_counts_live_cells_only() {
    let g = three_node_graph();
    // node 0 sees nodes 2 and 1, both live
    assert_eq!(g.living_neighbors_count_of(0), 2);
    // node 1 sees node 0, dead
    assert_eq!(g.living_neighbors_count_of(1), 0);
    // node 2 sees nothing
    assert_eq!(g.living_neighbors_count_of(2), 0);
}

#[test]
fn living_neighbors_skips_menu_nodes() {
    let mut g = Graph::new();
    let a = g.add_node(0, 0, NodeType::Cell(CellState::Dead));
    let m = g.add_node(0, 1, NodeType::Menu(MenuType::New));
    let b = g.add_node(0, 2, NodeType::Cell(CellState::Live));
    g.add_edge(a, m, Some(Direction::Down));
    g.add_edge(a, b, None);
    // the menu node never counts, the live cell does
    assert_eq!(g.living_neighbors_count_of(a), 1);
}

#[test]
fn set_node_state_touches_one_node_only() {
    let mut g = three_node_graph();
    g.set_node_state(1, NodeType::Cell(CellState::Dead));
    assert_eq!(g.node_state(0), NodeType::Cell(CellState::Dead));
    assert_eq!(g.node_state(1), NodeType::Cell(CellState::Dead));
    assert_eq!(g.node_state(2), NodeType::Cell(CellState::Live));
    // topology kept
    assert_eq!(g.successor_list(0), vec![2, 1]);
}
