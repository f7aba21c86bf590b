use life_grid::engine::step;
use life_grid::graph::{CellState, Direction, Graph, MenuType, NodeType};
use life_grid::grid::{new_config_graph, new_world};
use life_grid::rules::RuleTable;

fn set_live(g: &mut Graph, nodes: &[usize]) {
    for &n in nodes {
        g.set_node_state(n, NodeType::Cell(CellState::Live));
    }
}

fn live_nodes(g: &Graph) -> Vec<usize> {
    (0..g.node_count())
        .filter(|&n| g.node_state(n) == NodeType::Cell(CellState::Live))
        .collect()
}

#[test]
fn lone_live_cell_dies_and_nothing_is_born() {
    // 3x3 torus, one live cell, Conway's rule: the live cell has zero
    // live neighbors and dies; each other cell sees exactly one live
    // neighbor and stays dead.
    let mut g = new_world(3, 3);
    set_live(&mut g, &[4]);
    for n in 0..9 {
        if n != 4 {
            assert_eq!(g.living_neighbors_count_of(n), 1);
        }
    }
    assert_eq!(g.living_neighbors_count_of(4), 0);
    let rules = RuleTable::conway();
    step(&mut g, &rules);
    assert_eq!(live_nodes(&g), Vec::<usize>::new());
}

#[test]
fn blinker_row_becomes_column() {
    // 5x5 torus, three live cells in a row at y == 2; one Conway step
    // turns them into the column x == 2.
    let mut g = new_world(5, 5);
    set_live(&mut g, &[11, 12, 13]);
    let rules = RuleTable::conway();
    step(&mut g, &rules);
    assert_eq!(live_nodes(&g), vec![7, 12, 17]);
    // and the step back restores the row
    step(&mut g, &rules);
    assert_eq!(live_nodes(&g), vec![11, 12, 13]);
}

#[test]
fn all_dead_grid_stays_dead_under_conway() {
    let mut g = new_world(5, 4);
    let rules = RuleTable::conway();
    step(&mut g, &rules);
    assert_eq!(live_nodes(&g), Vec::<usize>::new());
}

#[test]
fn dead_grid_fills_up_when_zero_neighbors_births() {
    // the only exception the all-dead law allows: a rule table with
    // birth on zero live neighbors
    let mut g = new_world(3, 3);
    let mut rules = RuleTable::all_dead();
    rules.set_entry(0, 0, CellState::Live);
    step(&mut g, &rules);
    assert_eq!(live_nodes(&g), (0..9).collect::<Vec<usize>>());
}

#[test]
fn step_uses_pre_step_generation_for_every_count() {
    // two adjacent live cells on a 5x5 torus die simultaneously under a
    // survive-on-two rule: each sees one live neighbor before the step,
    // and no cell may observe the other's death mid-step.
    let mut g = new_world(5, 5);
    set_live(&mut g, &[12, 13]);
    let rules = RuleTable::conway();
    step(&mut g, &rules);
    assert_eq!(live_nodes(&g), Vec::<usize>::new());
}

#[test]
fn step_keeps_topology_and_coordinates() {
    let mut g = new_world(4, 4);
    set_live(&mut g, &[5, 6, 7]);
    let before: Vec<Vec<usize>> = (0..16).map(|n| g.successor_list(n)).collect();
    let rules = RuleTable::conway();
    step(&mut g, &rules);
    let after: Vec<Vec<usize>> = (0..16).map(|n| g.successor_list(n)).collect();
    assert_eq!(before, after);
    for n in 0..16 {
        assert_eq!(g.node_position(n), ((n % 4) as u16, (n / 4) as u16));
    }
}

#[test]
fn step_leaves_menu_nodes_alone_and_skips_them_in_counts() {
    // the rule-editing grid mixes cells and menu entries; counting and
    // stepping must not cross that boundary
    let rules = RuleTable::conway();
    let mut g = new_config_graph(&rules);
    // node 9 (survive row, count 0) has edges to 18 (menu), 10 and 0
    g.set_node_state(10, NodeType::Cell(CellState::Live));
    g.set_node_state(0, NodeType::Cell(CellState::Live));
    assert_eq!(g.living_neighbors_count_of(9), 2);
    step(&mut g, &rules);
    assert_eq!(g.node_state(18), NodeType::Menu(MenuType::New));
    assert_eq!(g.node_state(19), NodeType::Menu(MenuType::Save));
    assert_eq!(g.node_state(20), NodeType::Menu(MenuType::Load));
    // node 9 was dead with two live neighbors: stays dead under Conway
    assert_eq!(g.node_state(9), NodeType::Cell(CellState::Dead));
}

#[test]
fn rule_lookup_row_matches_current_state() {
    // dead cells use row 0, live cells row 1: with birth {1} and empty
    // survival, a live cell with one live neighbor dies while its dead
    // neighbors with one live neighbor are born
    let mut g = new_world(5, 5);
    set_live(&mut g, &[12, 13]);
    let mut rules = RuleTable::all_dead();
    rules.set_entry(0, 1, CellState::Live);
    step(&mut g, &rules);
    // 12 and 13 each saw one live neighbor but sit in the survive row
    assert!(!live_nodes(&g).contains(&12));
    assert!(!live_nodes(&g).contains(&13));
    // a cell diagonal to exactly one of them is born
    assert!(live_nodes(&g).contains(&6));
}
