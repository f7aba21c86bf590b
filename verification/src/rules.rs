//! The life-like rule table: a 2 x 9 table mapping (current state, live
//! neighbor count 0..=8) to the next cell state. Row 0 rules dead cells,
//! row 1 rules live cells.

use vstd::prelude::*;

use crate::graph::CellState;

verus! {

/// Mutable rule state, edited live through the rule-editing grid and the
/// sole input besides the current grid to a generation step.
#[derive(Debug, PartialEq)]
pub struct RuleTable {
    pub entries: Vec<CellState>,
}

/// Row of the table that rules cells currently in state `s`.
pub open spec fn row_of(s: CellState) -> int {
    match s {
        CellState::Dead => 0,
        CellState::Live => 1,
    }
}

impl RuleTable {
    /// The table holds exactly 2 rows of 9 entries, row-major.
    pub open spec fn wf(self) -> bool {
        self.entries@.len() == 18
    }

    /// The entry at `row` (0 for dead, 1 for live) and neighbor count
    /// `col`.
    pub open spec fn entry_spec(self, row: int, col: int) -> CellState {
        self.entries@[row * 9 + col]
    }

    /// Next state of a cell in state `s` with `count` live neighbors.
    pub open spec fn next_spec(self, s: CellState, count: int) -> CellState {
        self.entry_spec(row_of(s), count)
    }

    /// The canonical Conway table: birth on exactly 3 live neighbors,
    /// survival on 2 or 3.
    pub open spec fn is_conway(self) -> bool {
        &&& self.wf()
        &&& forall|col: int|
            0 <= col < 9 ==> self.entry_spec(0, col) == (if col == 3 {
                CellState::Live
            } else {
                CellState::Dead
            })
        &&& forall|col: int|
            0 <= col < 9 ==> self.entry_spec(1, col) == (if col == 2 || col == 3 {
                CellState::Live
            } else {
                CellState::Dead
            })
    }

    /// A table with every entry dead: no cell is ever born and none
    /// survives.
    pub fn all_dead() -> (r: RuleTable)
        ensures
            r.wf(),
            forall|row: int, col: int|
                0 <= row < 2 && 0 <= col < 9 ==> r.entry_spec(row, col) == CellState::Dead,
    {
        let mut entries: Vec<CellState> = Vec::new();
        let mut i: usize = 0;
        while i < 18
            invariant
                i <= 18,
                entries@.len() == i,
                forall|k: int| 0 <= k < i ==> entries@[k] == CellState::Dead,
            decreases 18 - i,
        {
            entries.push(CellState::Dead);
            i = i + 1;
        }
        RuleTable { entries }
    }

    /// The Conway table.
    pub fn conway() -> (r: RuleTable)
        ensures
            r.is_conway(),
    {
        let mut r = RuleTable::all_dead();
        r.set_entry(0, 3, CellState::Live);
        r.set_entry(1, 2, CellState::Live);
        r.set_entry(1, 3, CellState::Live);
        r
    }

    /// Reads one entry.
    pub fn get(&self, row: usize, col: usize) -> (r: CellState)
        requires
            self.wf(),
            row < 2,
            col < 9,
        ensures
            r == self.entry_spec(row as int, col as int),
    {
        self.entries[row * 9 + col]
    }

    /// Overwrites one entry; every other entry is kept.
    pub fn set_entry(&mut self, row: usize, col: usize, v: CellState)
        requires
            old(self).wf(),
            row < 2,
            col < 9,
        ensures
            final(self).wf(),
            final(self).entry_spec(row as int, col as int) == v,
            forall|r: int, c: int|
                0 <= r < 2 && 0 <= c < 9 && (r != row || c != col) ==> final(self).entry_spec(r, c)
                    == old(self).entry_spec(r, c),
    {
        self.entries.set(row * 9 + col, v);
    }

    /// Flips one entry between dead and live; every other entry is kept.
    pub fn toggle(&mut self, row: usize, col: usize)
        requires
            old(self).wf(),
            row < 2,
            col < 9,
        ensures
            final(self).wf(),
            final(self).entry_spec(row as int, col as int) == old(self).entry_spec(
                row as int,
                col as int,
            ).flip_spec(),
            forall|r: int, c: int|
                0 <= r < 2 && 0 <= c < 9 && (r != row || c != col) ==> final(self).entry_spec(r, c)
                    == old(self).entry_spec(r, c),
    {
        let cur = self.get(row, col);
        self.set_entry(row, col, cur.flip());
    }

    /// Looks up the next state for a cell in state `s` with `count` live
    /// neighbors. Counts above 8 are a caller contract violation.
    pub fn next_state(&self, s: CellState, count: u16) -> (r: CellState)
        requires
            self.wf(),
            count <= 8,
        ensures
            r == self.next_spec(s, count as int),
    {
        let row: usize = match s {
            CellState::Dead => 0,
            CellState::Live => 1,
        };
        self.entries[row * 9 + count as usize]
    }
}

} // verus!
