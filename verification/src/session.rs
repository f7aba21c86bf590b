//! Mode state machine and top-level session: owns the world grid, the
//! rule-editing grid, the rule table and both cursors; decides, per mode
//! and discrete input event, what changes and which persistence action
//! the caller must perform. The caller paces simulation ticks and does
//! all I/O.

use vstd::prelude::*;

use crate::codec;
use crate::cursor::Cursor;
use crate::engine;
use crate::graph::CellState;
use crate::graph::Direction;
use crate::graph::Graph;
use crate::graph::MenuType;
use crate::graph::NodeData;
use crate::graph::NodeType;
use crate::grid;
use crate::grid::config_state;
use crate::grid::is_config_graph;
use crate::grid::is_config_shape;
use crate::grid::is_grid;
use crate::grid::mirrors_rules;
use crate::rules::RuleTable;

verus! {

/// Operating mode. Created as `Editing`; transitions only on discrete
/// input events.
#[derive(Clone, Copy, PartialEq, Eq, Structural, Debug)]
pub enum Mode {
    Editing,
    Running,
    Configuring,
}

/// Which grid the visible cursor is bound to.
#[derive(Clone, Copy, PartialEq, Eq, Structural, Debug)]
pub enum Binding {
    WorldGrid,
    ConfigGrid,
}

/// The grid binding of mode `m`: the rule-editing grid while configuring,
/// the world grid otherwise.
pub open spec fn binding_of(m: Mode) -> Binding {
    match m {
        Mode::Configuring => Binding::ConfigGrid,
        _ => Binding::WorldGrid,
    }
}

/// A discrete, edge-triggered input event, delivered once per press.
#[derive(Clone, Copy, PartialEq, Eq, Structural, Debug)]
pub enum InputEvent {
    Move(Direction),
    Toggle,
    StartStop,
    OpenConfig,
    CloseConfig,
}

/// What the caller must do after an event: nothing, write the save image
/// to storage, or read it back and hand it to `load_world`.
#[derive(Clone, Copy, PartialEq, Eq, Structural, Debug)]
pub enum Action {
    Idle,
    SaveRequested,
    LoadRequested,
}

/// What an edit toggle does to a node payload: a cell flips between live
/// and dead, a menu entry is left alone.
pub open spec fn toggle_payload(s: NodeType) -> NodeType {
    match s {
        NodeType::Cell(c) => NodeType::Cell(c.flip_spec()),
        NodeType::Menu(m) => NodeType::Menu(m),
    }
}

/// Every world cell of `post` is dead, over `pre`'s topology and
/// coordinates.
pub open spec fn world_cells_cleared(pre: Session, post: Session) -> bool {
    &&& post.world.edges@ == pre.world.edges@
    &&& post.world.nodes@.len() == pre.world.nodes@.len()
    &&& forall|i: int|
        0 <= i < pre.world.nodes@.len() ==> (#[trigger] post.world.nodes@[i]) == (NodeData {
            state: NodeType::Cell(CellState::Dead),
            ..pre.world.nodes@[i]
        })
}

/// `post`'s rule-editing grid displays `post`'s rule table, over `pre`'s
/// topology and coordinates.
pub open spec fn config_resynced(pre: Session, post: Session) -> bool {
    &&& post.config.edges@ == pre.config.edges@
    &&& post.config.nodes@.len() == 21
    &&& forall|n: int|
        0 <= n < 21 ==> (#[trigger] post.config.nodes@[n]) == (NodeData {
            state: config_state(post.rules, n),
            ..pre.config.nodes@[n]
        })
}

/// Exactly the entry at `(row, col)` is flipped between `pre` and `post`.
pub open spec fn rules_entry_toggled(pre: RuleTable, post: RuleTable, row: int, col: int) -> bool {
    &&& post.wf()
    &&& post.entry_spec(row, col) == pre.entry_spec(row, col).flip_spec()
    &&& forall|r: int, c: int|
        0 <= r < 2 && 0 <= c < 9 && (r != row || c != col) ==> post.entry_spec(r, c)
            == pre.entry_spec(r, c)
}

/// What activating the node under the config cursor does: a rule cell
/// flips its table entry and its mirrored display node, "New" clears the
/// world and restores Conway's rule, "Save" and "Load" change nothing and
/// hand the persistence action to the caller.
pub open spec fn config_activate_transition(pre: Session, post: Session, act: Action) -> bool {
    let m = pre.config_cursor.node as int;
    match pre.config.nodes@[m].state {
        NodeType::Cell(_) => {
            &&& post == (Session { config: post.config, rules: post.rules, ..pre })
            &&& rules_entry_toggled(pre.rules, post.rules, m / 9, m % 9)
            &&& post.config.edges@ == pre.config.edges@
            &&& post.config.nodes@ == pre.config.nodes@.update(
                m,
                (NodeData {
                    state: NodeType::Cell(post.rules.entry_spec(m / 9, m % 9)),
                    ..pre.config.nodes@[m]
                }),
            )
            &&& act == Action::Idle
        },
        NodeType::Menu(MenuType::New) => {
            &&& post == (Session {
                world: post.world,
                config: post.config,
                rules: post.rules,
                ..pre
            })
            &&& world_cells_cleared(pre, post)
            &&& post.rules.is_conway()
            &&& config_resynced(pre, post)
            &&& act == Action::Idle
        },
        NodeType::Menu(MenuType::Save) => post == pre && act == Action::SaveRequested,
        NodeType::Menu(MenuType::Load) => post == pre && act == Action::LoadRequested,
    }
}

/// The full transition relation of the mode state machine: given the
/// session before an event, it pins down the session after it and the
/// action handed back, for every mode and every event.
pub open spec fn event_transition(pre: Session, post: Session, ev: InputEvent, act: Action) -> bool {
    match pre.mode {
        Mode::Editing => match ev {
            InputEvent::StartStop => post == (Session { mode: Mode::Running, ..pre }) && act
                == Action::Idle,
            InputEvent::OpenConfig => post == (Session {
                mode: Mode::Configuring,
                config_cursor: (Cursor { node: 18 }),
                ..pre
            }) && act == Action::Idle,
            InputEvent::Move(d) => {
                &&& post == (Session { world_cursor: post.world_cursor, ..pre })
                &&& post.world_cursor.node as int == Cursor::move_target(
                    pre.world,
                    pre.world_cursor.node as int,
                    d,
                )
                &&& act == Action::Idle
            },
            InputEvent::Toggle => {
                &&& post == (Session { world: post.world, ..pre })
                &&& post.world.edges@ == pre.world.edges@
                &&& post.world.nodes@ == pre.world.nodes@.update(
                    pre.world_cursor.node as int,
                    (NodeData {
                        state: toggle_payload(
                            pre.world.nodes@[pre.world_cursor.node as int].state,
                        ),
                        ..pre.world.nodes@[pre.world_cursor.node as int]
                    }),
                )
                &&& act == Action::Idle
            },
            InputEvent::CloseConfig => post == pre && act == Action::Idle,
        },
        Mode::Running => match ev {
            InputEvent::StartStop => post == (Session { mode: Mode::Editing, ..pre }) && act
                == Action::Idle,
            _ => post == pre && act == Action::Idle,
        },
        Mode::Configuring => match ev {
            InputEvent::StartStop | InputEvent::OpenConfig | InputEvent::CloseConfig => post == (
            Session { mode: Mode::Editing, ..pre }) && act == Action::Idle,
            InputEvent::Move(d) => {
                &&& post == (Session { config_cursor: post.config_cursor, ..pre })
                &&& post.config_cursor.node as int == Cursor::move_target(
                    pre.config,
                    pre.config_cursor.node as int,
                    d,
                )
                &&& act == Action::Idle
            },
            InputEvent::Toggle => config_activate_transition(pre, post, act),
        },
    }
}

/// The whole simulation state: both graphs, the rule table, one cursor
/// per graph, and the mode that decides which of them is active.
pub struct Session {
    pub world: Graph,
    pub config: Graph,
    pub rules: RuleTable,
    pub world_cursor: Cursor,
    pub config_cursor: Cursor,
    pub mode: Mode,
    pub width: u16,
    pub height: u16,
}

impl Session {
    /// Session invariant: the world is a toroidal grid of cells, the
    /// rule-editing grid has its fixed shape and mirrors the rule table,
    /// and both cursors sit on valid nodes.
    pub open spec fn inv(self) -> bool {
        &&& is_grid(self.world, self.width as int, self.height as int)
        &&& forall|n: int|
            0 <= n < self.world.nodes@.len() ==> ((#[trigger] self.world.nodes@[n]).state matches
            NodeType::Cell(_))
        &&& is_config_graph(self.config, self.rules)
        &&& self.world_cursor.node < self.world.nodes@.len()
        &&& self.config_cursor.node < self.config.nodes@.len()
    }

    /// Starts a session in `Editing` mode: an all-dead world grid, the
    /// Conway rule table, the cursor on the world origin.
    pub fn new(width: u16, height: u16) -> (s: Session)
        requires
            3 <= width,
            3 <= height,
        ensures
            s.inv(),
            s.mode == Mode::Editing,
            s.width == width,
            s.height == height,
            s.rules.is_conway(),
            forall|n: int|
                0 <= n < s.world.nodes@.len() ==> (#[trigger] s.world.nodes@[n]).state
                    == NodeType::Cell(CellState::Dead),
            s.world_cursor.node == 0,
            s.config_cursor.node == 16,
    {
        let rules = RuleTable::conway();
        let world = grid::new_world(width, height);
        let config = grid::new_config_graph(&rules);
        proof {
            assert(9 <= (width as int) * (height as int)) by (nonlinear_arith)
                requires
                    3 <= width as int,
                    3 <= height as int,
            ;
        }
        let world_cursor = Cursor::new(&world, 0);
        let config_cursor = Cursor::new(&config, 16);
        Session {
            world,
            config,
            rules,
            world_cursor,
            config_cursor,
            mode: Mode::Editing,
            width,
            height,
        }
    }

    /// Rewrites every rule-cell of the editing grid to display the table
    /// entry at its coordinates. Menu nodes, coordinates and topology are
    /// untouched.
    fn sync_config(&mut self)
        requires
            old(self).rules.wf(),
            is_config_shape(old(self).config),
        ensures
            *final(self) == (Session { config: final(self).config, ..*old(self) }),
            is_config_shape(final(self).config),
            mirrors_rules(final(self).config, final(self).rules),
            final(self).config.edges@ == old(self).config.edges@,
            forall|n: int|
                0 <= n < 21 ==> (#[trigger] final(self).config.nodes@[n]) == (NodeData {
                    state: config_state(old(self).rules, n),
                    ..old(self).config.nodes@[n]
                }),
    {
        let ghost pre = *old(self);
        let mut n: usize = 0;
        while n < 18
            invariant
                self.world == pre.world,
                self.rules == pre.rules,
                self.world_cursor == pre.world_cursor,
                self.config_cursor == pre.config_cursor,
                self.mode == pre.mode,
                self.width == pre.width,
                self.height == pre.height,
                pre.rules.wf(),
                is_config_shape(pre.config),
                self.config.edges@ == pre.config.edges@,
                self.config.nodes@.len() == 21,
                n <= 18,
                forall|k: int|
                    0 <= k < n ==> (#[trigger] self.config.nodes@[k]) == (NodeData {
                        state: config_state(pre.rules, k),
                        ..pre.config.nodes@[k]
                    }),
                forall|k: int| n <= k < 21 ==> self.config.nodes@[k] == pre.config.nodes@[k],
            decreases 18 - n,
        {
            let row = n / 9;
            let col = n % 9;
            let v = self.rules.get(row, col);
            self.config.set_node_state(n, NodeType::Cell(v));
            n = n + 1;
        }
        proof {
            crate::graph::lemma_views_preserved(pre.config, final(self).config);
            assert forall|k: int|
                0 <= k < 21 implies (#[trigger] final(self).config.nodes@[k]) == (NodeData {
                state: config_state(pre.rules, k),
                ..pre.config.nodes@[k]
            }) by {
                if k >= 18 {
                    assert(final(self).config.nodes@[k] == pre.config.nodes@[k]);
                }
            }
        }
    }

    /// Flips the cell under the world cursor between live and dead; a
    /// non-cell payload is left alone.
    fn toggle_world_cell(&mut self)
        requires
            old(self).inv(),
        ensures
            final(self).inv(),
            *final(self) == (Session { world: final(self).world, ..*old(self) }),
            final(self).world.edges@ == old(self).world.edges@,
            final(self).world.nodes@ == old(self).world.nodes@.update(
                old(self).world_cursor.node as int,
                (NodeData {
                    state: toggle_payload(
                        old(self).world.nodes@[old(self).world_cursor.node as int].state,
                    ),
                    ..old(self).world.nodes@[old(self).world_cursor.node as int]
                }),
            ),
    {
        let n = self.world_cursor.node;
        match self.world.node_state(n) {
            NodeType::Cell(c) => {
                self.world.set_node_state(n, NodeType::Cell(c.flip()));
            },
            NodeType::Menu(_) => {},
        }
        proof {
            crate::graph::lemma_views_preserved(old(self).world, final(self).world);
            assert(final(self).world.nodes@ =~= old(self).world.nodes@.update(
                old(self).world_cursor.node as int,
                (NodeData {
                    state: toggle_payload(
                        old(self).world.nodes@[old(self).world_cursor.node as int].state,
                    ),
                    ..old(self).world.nodes@[old(self).world_cursor.node as int]
                }),
            ));
        }
    }

    /// The "New" menu action: every world cell dead, the rule table back
    /// to Conway's rule, and the rule-editing display refreshed.
    fn reset(&mut self)
        requires
            old(self).inv(),
        ensures
            final(self).inv(),
            *final(self) == (Session {
                world: final(self).world,
                config: final(self).config,
                rules: final(self).rules,
                ..*old(self)
            }),
            world_cells_cleared(*old(self), *final(self)),
            final(self).rules.is_conway(),
            config_resynced(*old(self), *final(self)),
    {
        let ghost pre = *old(self);
        let count = self.world.node_count();
        let mut i: usize = 0;
        while i < count
            invariant
                self.config == pre.config,
                self.rules == pre.rules,
                self.world_cursor == pre.world_cursor,
                self.config_cursor == pre.config_cursor,
                self.mode == pre.mode,
                self.width == pre.width,
                self.height == pre.height,
                pre.inv(),
                count == pre.world.nodes@.len(),
                self.world.edges@ == pre.world.edges@,
                self.world.nodes@.len() == count,
                i <= count,
                forall|k: int|
                    0 <= k < i ==> (#[trigger] self.world.nodes@[k]) == (NodeData {
                        state: NodeType::Cell(CellState::Dead),
                        ..pre.world.nodes@[k]
                    }),
                forall|k: int| i <= k < count ==> self.world.nodes@[k] == pre.world.nodes@[k],
            decreases count - i,
        {
            self.world.set_node_state(i, NodeType::Cell(CellState::Dead));
            i = i + 1;
        }
        self.rules = RuleTable::conway();
        self.sync_config();
        proof {
            crate::graph::lemma_views_preserved(pre.world, final(self).world);
        }
    }

    /// Activates the node under the config cursor: a rule cell flips its
    /// table entry and its display; "New" resets world and rules; "Save"
    /// and "Load" request the persistence action from the caller.
    fn activate_config_node(&mut self) -> (act: Action)
        requires
            old(self).inv(),
        ensures
            final(self).inv(),
            config_activate_transition(*old(self), *final(self), act),
    {
        let m = self.config_cursor.node;
        match self.config.node_state(m) {
            NodeType::Cell(_) => {
                proof {
                    assert(m < 18);
                }
                let row = m / 9;
                let col = m % 9;
                self.rules.toggle(row, col);
                let v = self.rules.get(row, col);
                self.config.set_node_state(m, NodeType::Cell(v));
                proof {
                    crate::graph::lemma_views_preserved(old(self).config, final(self).config);
                    assert(final(self).config.nodes@ =~= old(self).config.nodes@.update(
                        m as int,
                        (NodeData {
                            state: NodeType::Cell(
                                final(self).rules.entry_spec(m as int / 9, m as int % 9),
                            ),
                            ..old(self).config.nodes@[m as int]
                        }),
                    ));
                    assert forall|n: int|
                        0 <= n < 18 implies (#[trigger] final(self).config.nodes@[n]).state
                        == NodeType::Cell(final(self).rules.entry_spec(n / 9, n % 9)) by {
                        if n != m {
                            assert(n / 9 != m as int / 9 || n % 9 != m as int % 9);
                        }
                    }
                }
                Action::Idle
            },
            NodeType::Menu(mt) => match mt {
                MenuType::New => {
                    self.reset();
                    Action::Idle
                },
                MenuType::Save => Action::SaveRequested,
                MenuType::Load => Action::LoadRequested,
            },
        }
    }

    /// Performs exactly one generation step of the world grid if and only
    /// if the session is `Running`. The caller decides when the pacing
    /// interval has elapsed.
    pub fn tick(&mut self)
        requires
            old(self).inv(),
        ensures
            final(self).inv(),
            old(self).mode != Mode::Running ==> *final(self) == *old(self),
            old(self).mode == Mode::Running ==> {
                &&& *final(self) == (Session { world: final(self).world, ..*old(self) })
                &&& final(self).world.edges@ == old(self).world.edges@
                &&& final(self).world.nodes@.len() == old(self).world.nodes@.len()
                &&& forall|i: int|
                    0 <= i < old(self).world.nodes@.len() ==> {
                        &&& (#[trigger] final(self).world.nodes@[i]).x == old(self).world.nodes@[i].x
                        &&& final(self).world.nodes@[i].y == old(self).world.nodes@[i].y
                        &&& final(self).world.nodes@[i].first_outgoing_edge == old(
                            self,
                        ).world.nodes@[i].first_outgoing_edge
                        &&& final(self).world.nodes@[i].state == engine::next_node_state(
                            old(self).world,
                            old(self).rules,
                            i,
                        )
                    }
            },
    {
        match self.mode {
            Mode::Running => {
                proof {
                    let w = self.width as int;
                    let h = self.height as int;
                    assert forall|n: int|
                        0 <= n < self.world.nodes@.len() implies (
                    #[trigger] self.world.successors_spec(n)).len() <= 8 by {
                        grid::lemma_grid_degree(self.world, w, h, n);
                    }
                }
                engine::step(&mut self.world, &self.rules);
                proof {
                    crate::graph::lemma_views_preserved(old(self).world, final(self).world);
                }
            },
            _ => {},
        }
    }

    /// Handles one discrete input event under the current mode and
    /// reports which persistence action, if any, the caller must perform.
    pub fn handle_event(&mut self, ev: InputEvent) -> (act: Action)
        requires
            old(self).inv(),
        ensures
            final(self).inv(),
            event_transition(*old(self), *final(self), ev, act),
    {
        match self.mode {
            Mode::Editing => match ev {
                InputEvent::StartStop => {
                    self.mode = Mode::Running;
                    Action::Idle
                },
                InputEvent::OpenConfig => {
                    self.mode = Mode::Configuring;
                    self.config_cursor.set_position(&self.config, 18);
                    Action::Idle
                },
                InputEvent::Move(d) => {
                    self.world_cursor.move_cursor(&self.world, d);
                    Action::Idle
                },
                InputEvent::Toggle => {
                    self.toggle_world_cell();
                    Action::Idle
                },
                InputEvent::CloseConfig => Action::Idle,
            },
            Mode::Running => match ev {
                InputEvent::StartStop => {
                    self.mode = Mode::Editing;
                    Action::Idle
                },
                _ => Action::Idle,
            },
            Mode::Configuring => match ev {
                InputEvent::StartStop | InputEvent::OpenConfig | InputEvent::CloseConfig => {
                    self.mode = Mode::Editing;
                    Action::Idle
                },
                InputEvent::Move(d) => {
                    self.config_cursor.move_cursor(&self.config, d);
                    Action::Idle
                },
                InputEvent::Toggle => self.activate_config_node(),
            },
        }
    }

    /// Serializes the current world grid and rule table to the save
    /// image.
    pub fn save_world(&self) -> (r: Vec<u8>)
        requires
            self.rules.wf(),
        ensures
            r@ == codec::encode_spec(self.world.nodes@, self.rules),
            r@.len() == 1 + self.world.nodes@.len() + 18,
    {
        codec::encode(&self.world, &self.rules)
    }

    /// Restores world cell states and the rule table from a save image
    /// and refreshes the rule-editing display. A zero flag byte means no
    /// saved data exists and nothing changes.
    pub fn load_world(&mut self, bytes: &Vec<u8>)
        requires
            old(self).inv(),
            bytes@.len() >= 1 + old(self).world.nodes@.len() + 18,
        ensures
            final(self).inv(),
            bytes@[0] == 0 ==> *final(self) == *old(self),
            bytes@[0] != 0 ==> {
                &&& *final(self) == (Session {
                    world: final(self).world,
                    config: final(self).config,
                    rules: final(self).rules,
                    ..*old(self)
                })
                &&& final(self).world.edges@ == old(self).world.edges@
                &&& final(self).world.nodes@.len() == old(self).world.nodes@.len()
                &&& forall|i: int|
                    0 <= i < old(self).world.nodes@.len() ==> {
                        &&& (#[trigger] final(self).world.nodes@[i]).x == old(self).world.nodes@[i].x
                        &&& final(self).world.nodes@[i].y == old(self).world.nodes@[i].y
                        &&& final(self).world.nodes@[i].first_outgoing_edge == old(
                            self,
                        ).world.nodes@[i].first_outgoing_edge
                        &&& final(self).world.nodes@[i].state == codec::decode_cell(bytes@[1 + i])
                    }
                &&& forall|r: int, c: int|
                    0 <= r < 2 && 0 <= c < 9 ==> final(self).rules.entry_spec(r, c)
                        == codec::decode_rule(
                        bytes@[1 + old(self).world.nodes@.len() + r * 9 + c],
                    )
                &&& config_resynced(*old(self), *final(self))
            },
    {
        if bytes[0] == 0 {
            return ;
        }
        codec::decode(bytes, &mut self.world, &mut self.rules);
        self.sync_config();
        proof {
            crate::graph::lemma_views_preserved(old(self).world, final(self).world);
        }
    }

    /// The binding the current mode dictates.
    pub fn active_binding(&self) -> (b: Binding)
        ensures
            b == binding_of(self.mode),
    {
        match self.mode {
            Mode::Configuring => Binding::ConfigGrid,
            _ => Binding::WorldGrid,
        }
    }

    /// The node the active cursor stands on.
    pub fn active_cursor_node(&self) -> (n: usize)
        ensures
            n == (if binding_of(self.mode) is ConfigGrid {
                self.config_cursor.node
            } else {
                self.world_cursor.node
            }),
    {
        match self.mode {
            Mode::Configuring => self.config_cursor.node,
            _ => self.world_cursor.node,
        }
    }
}

} // verus!
