//! Builders for the two graphs: the W x H toroidal world grid whose every
//! node carries four tagged cardinal edges and four untagged diagonal
//! edges, and the rule-editing grid of 18 rule cells plus three menu
//! entries.

use vstd::prelude::*;
use vstd::arithmetic::div_mod::lemma_mod_division_less_than_divisor;
use vstd::arithmetic::div_mod::lemma_multiply_divide_lt;

use crate::graph::CellState;
use crate::graph::Direction;
use crate::graph::Graph;
use crate::graph::MenuType;
use crate::graph::NodeType;
use crate::rules::RuleTable;

verus! {

/// One step right or down with wraparound, for a coordinate already in
/// `0..m`.
pub open spec fn wrap_inc(v: int, m: int) -> int {
    if v + 1 == m {
        0
    } else {
        v + 1
    }
}

/// One step left or up with wraparound, for a coordinate already in
/// `0..m`.
pub open spec fn wrap_dec(v: int, m: int) -> int {
    if v == 0 {
        m - 1
    } else {
        v - 1
    }
}

/// Index of the cell at `(x, y)` on a grid of width `w`.
pub open spec fn node_at(w: int, x: int, y: int) -> int {
    y * w + x
}

/// The expected outgoing-edge list of node `n` on a `w x h` toroidal
/// grid, in list order: the four untagged diagonals, then the four tagged
/// cardinal edges.
pub open spec fn grid_adj(w: int, h: int, n: int) -> Seq<(Option<Direction>, int)> {
    let x = n % w;
    let y = n / w;
    let xr = wrap_inc(x, w);
    let xl = wrap_dec(x, w);
    let yd = wrap_inc(y, h);
    let yu = wrap_dec(y, h);
    seq![
        (None::<Direction>, node_at(w, xl, yu)),
        (None::<Direction>, node_at(w, xr, yu)),
        (None::<Direction>, node_at(w, xl, yd)),
        (None::<Direction>, node_at(w, xr, yd)),
        (Some(Direction::Up), node_at(w, x, yu)),
        (Some(Direction::Down), node_at(w, x, yd)),
        (Some(Direction::Left), node_at(w, xl, y)),
        (Some(Direction::Right), node_at(w, xr, y)),
    ]
}

/// Whether `g` is a `w x h` toroidal grid: node `n` sits at
/// `(n % w, n / w)` and its outgoing edges are exactly the eight
/// wraparound neighbors. Cell states are free to vary.
pub open spec fn is_grid(g: Graph, w: int, h: int) -> bool {
    &&& g.wf()
    &&& 3 <= w
    &&& 3 <= h
    &&& g.nodes@.len() == w * h
    &&& g.edges@.len() == 8 * (w * h)
    &&& forall|n: int|
        0 <= n < w * h ==> (#[trigger] g.nodes@[n]).x as int == n % w && g.nodes@[n].y as int == n
            / w
    &&& forall|n: int| 0 <= n < w * h ==> (#[trigger] g.edge_view(n)) == grid_adj(w, h, n)
}

/// A cell's index is below `w * h` exactly when its coordinates are on
/// the grid.
proof fn lemma_node_at_bound(w: int, h: int, x: int, y: int)
    requires
        0 < w,
        0 < h,
        0 <= x < w,
        0 <= y < h,
    ensures
        0 <= node_at(w, x, y) < w * h,
{
    assert(0 <= y * w + x < w * h) by (nonlinear_arith)
        requires
            0 < w,
            0 <= x < w,
            0 <= y < h,
    ;
}

/// Builds the toroidal world grid: every cell starts dead, and every cell
/// is wired to its eight wraparound neighbors, the cardinal four tagged
/// with their direction and the diagonal four untagged.
#[verifier::rlimit(50)]
pub fn new_world(width: u16, height: u16) -> (g: Graph)
    requires
        3 <= width,
        3 <= height,
    ensures
        is_grid(g, width as int, height as int),
        forall|n: int|
            0 <= n < (width as int) * (height as int) ==> (#[trigger] g.nodes@[n]).state
                == NodeType::Cell(CellState::Dead),
{
    let w = width as usize;
    let h = height as usize;
    proof {
        assert((w as int) * (h as int) <= 0xFFFF * 0xFFFF && 9 <= (w as int) * (h as int))
            by (nonlinear_arith)
            requires
                3 <= w as int <= 0xFFFF,
                3 <= h as int <= 0xFFFF,
        ;
    }
    let count = w * h;
    let mut g = Graph::new();
    let mut i: usize = 0;
    while i < count
        invariant
            g.wf(),
            3 <= w <= 0xFFFF,
            3 <= h <= 0xFFFF,
            count == w * h,
            g.nodes@.len() == i,
            g.edges@.len() == 0,
            i <= count,
            forall|k: int|
                0 <= k < i ==> (#[trigger] g.nodes@[k]).state == NodeType::Cell(CellState::Dead)
                    && g.nodes@[k].x as int == k % (w as int) && g.nodes@[k].y as int == k / (
                w as int) && g.nodes@[k].first_outgoing_edge is None,
        decreases count - i,
    {
        let x = i % w;
        let y = i / w;
        proof {
            lemma_mod_division_less_than_divisor(i as int, w as int);
            lemma_multiply_divide_lt(i as int, w as int, h as int);
        }
        g.add_node(x as u16, y as u16, NodeType::Cell(CellState::Dead));
        i = i + 1;
    }
    let mut n: usize = 0;
    while n < count
        invariant
            g.wf(),
            3 <= w <= 0xFFFF,
            3 <= h <= 0xFFFF,
            count == w * h,
            g.nodes@.len() == count,
            g.edges@.len() == 8 * n,
            n <= count,
            forall|k: int|
                0 <= k < count ==> (#[trigger] g.nodes@[k]).state == NodeType::Cell(CellState::Dead)
                    && g.nodes@[k].x as int == k % (w as int) && g.nodes@[k].y as int == k / (
                w as int),
            forall|k: int|
                0 <= k < n ==> (#[trigger] g.edge_view(k)) == grid_adj(w as int, h as int, k),
            forall|k: int|
                n <= k < count ==> (#[trigger] g.nodes@[k]).first_outgoing_edge is None,
        decreases count - n,
    {
        let x = n % w;
        let y = n / w;
        proof {
            lemma_mod_division_less_than_divisor(n as int, w as int);
            lemma_multiply_divide_lt(n as int, w as int, h as int);
        }
        let xr = if x + 1 == w {
            0
        } else {
            x + 1
        };
        let xl = if x == 0 {
            w - 1
        } else {
            x - 1
        };
        let yd = if y + 1 == h {
            0
        } else {
            y + 1
        };
        let yu = if y == 0 {
            h - 1
        } else {
            y - 1
        };
        proof {
            lemma_node_at_bound(w as int, h as int, xr as int, y as int);
            lemma_node_at_bound(w as int, h as int, xl as int, y as int);
            lemma_node_at_bound(w as int, h as int, x as int, yd as int);
            lemma_node_at_bound(w as int, h as int, x as int, yu as int);
            lemma_node_at_bound(w as int, h as int, xr as int, yd as int);
            lemma_node_at_bound(w as int, h as int, xl as int, yd as int);
            lemma_node_at_bound(w as int, h as int, xr as int, yu as int);
            lemma_node_at_bound(w as int, h as int, xl as int, yu as int);
            assert(g.edge_view(n as int) =~= Seq::<(Option<Direction>, int)>::empty());
        }
        let target_right = y * w + xr;
        let target_left = y * w + xl;
        let target_down = yd * w + x;
        let target_up = yu * w + x;
        let target_down_right = yd * w + xr;
        let target_down_left = yd * w + xl;
        let target_up_right = yu * w + xr;
        let target_up_left = yu * w + xl;
        g.add_edge(n, target_right, Some(Direction::Right));
        g.add_edge(n, target_left, Some(Direction::Left));
        g.add_edge(n, target_down, Some(Direction::Down));
        g.add_edge(n, target_up, Some(Direction::Up));
        g.add_edge(n, target_down_right, None);
        g.add_edge(n, target_down_left, None);
        g.add_edge(n, target_up_right, None);
        g.add_edge(n, target_up_left, None);
        proof {
            assert(g.edge_view(n as int) =~= grid_adj(w as int, h as int, n as int));
        }
        n = n + 1;
    }
    g
}

/// Column of node `n` on the rule-editing grid.
pub open spec fn config_x(n: int) -> int {
    if n < 18 {
        n % 9
    } else {
        0
    }
}

/// Row of node `n` on the rule-editing grid; the three menu entries sit
/// below the two rule rows.
pub open spec fn config_y(n: int) -> int {
    if n < 18 {
        n / 9
    } else {
        n - 15
    }
}

/// Payload of node `n` on the rule-editing grid: rule cells mirror the
/// table entry at their coordinates, then the three menu entries follow.
pub open spec fn config_state(rules: RuleTable, n: int) -> NodeType {
    if n < 18 {
        NodeType::Cell(rules.entry_spec(n / 9, n % 9))
    } else if n == 18 {
        NodeType::Menu(MenuType::New)
    } else if n == 19 {
        NodeType::Menu(MenuType::Save)
    } else {
        NodeType::Menu(MenuType::Load)
    }
}

/// The expected outgoing-edge list of node `n` on the rule-editing grid,
/// in list order. Rows are chained left-right without wraparound, the two
/// rule rows are chained up-down, every second-row cell leads down to the
/// first menu entry, and the menu entries are chained among themselves.
pub open spec fn config_adj(n: int) -> Seq<(Option<Direction>, int)> {
    if n == 0 {
        seq![(Some(Direction::Down), 9int), (Some(Direction::Right), 1int)]
    } else if n < 8 {
        seq![
            (Some(Direction::Down), n + 9),
            (Some(Direction::Right), n + 1),
            (Some(Direction::Left), n - 1),
        ]
    } else if n == 8 {
        seq![(Some(Direction::Down), 17int), (Some(Direction::Left), 7int)]
    } else if n == 9 {
        seq![
            (Some(Direction::Down), 18int),
            (Some(Direction::Right), 10int),
            (Some(Direction::Up), 0int),
        ]
    } else if n < 17 {
        seq![
            (Some(Direction::Down), 18int),
            (Some(Direction::Right), n + 1),
            (Some(Direction::Left), n - 1),
            (Some(Direction::Up), n - 9),
        ]
    } else if n == 17 {
        seq![
            (Some(Direction::Down), 18int),
            (Some(Direction::Left), 16int),
            (Some(Direction::Up), 8int),
        ]
    } else if n == 18 {
        seq![(Some(Direction::Down), 19int), (Some(Direction::Up), 9int)]
    } else if n == 19 {
        seq![(Some(Direction::Down), 20int), (Some(Direction::Up), 18int)]
    } else {
        seq![(Some(Direction::Up), 19int)]
    }
}

/// Whether `g` has the fixed shape of the rule-editing grid: 21 nodes at
/// their coordinates, the exact expected edge lists, and the three menu
/// entries in place. Rule-cell states are free to vary.
pub open spec fn is_config_shape(g: Graph) -> bool {
    &&& g.wf()
    &&& g.nodes@.len() == 21
    &&& forall|n: int|
        0 <= n < 21 ==> (#[trigger] g.nodes@[n]).x as int == config_x(n) && g.nodes@[n].y as int
            == config_y(n)
    &&& forall|n: int| 0 <= n < 21 ==> (#[trigger] g.edge_view(n)) == config_adj(n)
    &&& forall|n: int| 0 <= n < 18 ==> ((#[trigger] g.nodes@[n]).state matches NodeType::Cell(_))
    &&& g.nodes@[18].state == NodeType::Menu(MenuType::New)
    &&& g.nodes@[19].state == NodeType::Menu(MenuType::Save)
    &&& g.nodes@[20].state == NodeType::Menu(MenuType::Load)
}

/// Whether every rule cell of `g` displays the table entry at its
/// coordinates.
pub open spec fn mirrors_rules(g: Graph, rules: RuleTable) -> bool {
    forall|n: int|
        0 <= n < 18 ==> (#[trigger] g.nodes@[n]).state == NodeType::Cell(
            rules.entry_spec(n / 9, n % 9),
        )
}

/// Whether `g` is the rule-editing grid whose rule cells mirror `rules`.
pub open spec fn is_config_graph(g: Graph, rules: RuleTable) -> bool {
    &&& is_config_shape(g)
    &&& rules.wf()
    &&& mirrors_rules(g, rules)
}

/// On a toroidal grid every node has exactly eight outgoing edges, so
/// `successors` yields exactly the out-degree many targets.
pub proof fn lemma_grid_degree(g: Graph, w: int, h: int, n: int)
    requires
        is_grid(g, w, h),
        0 <= n < g.nodes@.len(),
    ensures
        g.out_degree(n) == 8,
        g.successors_spec(n).len() == 8,
        g.edge_view(n).len() == 8,
{
    assert(g.edge_view(n) == grid_adj(w, h, n));
    assert(grid_adj(w, h, n).len() == 8);
    assert(g.edge_view(n).len() == g.node_chain(n).len());
    assert(g.successors_spec(n).len() == g.node_chain(n).len());
}

/// Builds the rule-editing grid for `rules`: two rows of nine rule cells
/// and the New/Save/Load menu below them.
#[verifier::rlimit(50)]
pub fn new_config_graph(rules: &RuleTable) -> (g: Graph)
    requires
        rules.wf(),
    ensures
        is_config_graph(g, *rules),
{
    let mut g = Graph::new();
    let mut i: usize = 0;
    while i < 18
        invariant
            rules.wf(),
            g.wf(),
            g.nodes@.len() == i,
            i <= 18,
            g.edges@.len() == 0,
            forall|k: int|
                0 <= k < i ==> (#[trigger] g.nodes@[k]).state == config_state(*rules, k)
                    && g.nodes@[k].x as int == config_x(k) && g.nodes@[k].y as int == config_y(k)
                    && g.nodes@[k].first_outgoing_edge is None,
        decreases 18 - i,
    {
        let row = i / 9;
        let col = i % 9;
        g.add_node(col as u16, row as u16, NodeType::Cell(rules.get(row, col)));
        i = i + 1;
    }
    g.add_node(0, 3, NodeType::Menu(MenuType::New));
    g.add_node(0, 4, NodeType::Menu(MenuType::Save));
    g.add_node(0, 5, NodeType::Menu(MenuType::Load));
    let mut n: usize = 0;
    while n < 21
        invariant
            rules.wf(),
            g.wf(),
            g.nodes@.len() == 21,
            n <= 21,
            forall|k: int|
                0 <= k < 21 ==> (#[trigger] g.nodes@[k]).state == config_state(*rules, k)
                    && g.nodes@[k].x as int == config_x(k) && g.nodes@[k].y as int == config_y(k),
            forall|k: int| 0 <= k < n ==> (#[trigger] g.edge_view(k)) == config_adj(k),
            forall|k: int| n <= k < 21 ==> (#[trigger] g.nodes@[k]).first_outgoing_edge is None,
        decreases 21 - n,
    {
        if n < 9 {
            if n > 0 {
                g.add_edge(n, n - 1, Some(Direction::Left));
            }
            if n < 8 {
                g.add_edge(n, n + 1, Some(Direction::Right));
            }
            g.add_edge(n, n + 9, Some(Direction::Down));
        } else if n < 18 {
            g.add_edge(n, n - 9, Some(Direction::Up));
            if n > 9 {
                g.add_edge(n, n - 1, Some(Direction::Left));
            }
            if n < 17 {
                g.add_edge(n, n + 1, Some(Direction::Right));
            }
            g.add_edge(n, 18, Some(Direction::Down));
        } else if n == 18 {
            g.add_edge(n, 9, Some(Direction::Up));
            g.add_edge(n, 19, Some(Direction::Down));
        } else if n == 19 {
            g.add_edge(n, 18, Some(Direction::Up));
            g.add_edge(n, 20, Some(Direction::Down));
        } else {
            g.add_edge(n, 19, Some(Direction::Up));
        }
        proof {
            assert(g.edge_view(n as int) =~= config_adj(n as int));
        }
        n = n + 1;
    }
    g
}

} // verus!
