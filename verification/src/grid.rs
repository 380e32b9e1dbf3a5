//! A toroidal lattice of cells with probabilistic local contagion.
//!
//! The lattice has `width` columns and `height` rows and wraps at its edges:
//! the row above the first is the last, the column after the last is the
//! first. The cell in row `row` and column `col` is stored at index
//! `row * width + col`. Every tick computes a whole new generation from the
//! current one into a second buffer and then exchanges the two, so nothing
//! ever sees a lattice that is half old and half new.
//!
//! The second buffer starts out filled with [`CellState::Unset`]. That state is
//! only ever written, never read: the live lattice holds none of it, and
//! [`Grid::tick`] proves so on every tick.

use vstd::prelude::*;
use vstd::arithmetic::div_mod::lemma_fundamental_div_mod_converse;
use vstd::pervasive::unreached;
use crate::census::Counts;
use crate::chance::{is_under, under};

verus! {

/// The state of a cell. `Unset` marks a slot of the spare buffer that no tick
/// has written yet; it is no state a cell can be in.
#[derive(Clone, Copy, Debug, PartialEq, Eq, Structural)]
pub enum CellState {
    Healthy,
    Infected,
    Cured,
    Dead,
    Unset,
}

impl CellState {
    /// How far along the course of the contagion a state lies.
    pub open spec fn stage(self) -> nat {
        match self {
            CellState::Healthy => 0,
            CellState::Infected => 1,
            _ => 2,
        }
    }

    /// `later` is this state or one further along: the partial order
    /// `Healthy < Infected < {Cured, Dead}`.
    pub open spec fn leads_to(self, later: CellState) -> bool {
        self == later || self.stage() < later.stage()
    }
}

/// One cell of the lattice.
#[derive(Clone, Copy, Debug, PartialEq, Eq, Structural)]
pub struct Cell {
    pub state: CellState,
}

/// The rates of the three transitions, see [`crate::chance`].
#[derive(Clone, Copy, Debug, PartialEq, Eq, Structural)]
pub struct Rates {
    /// The rate at which one infected neighbour infects a healthy cell.
    pub infection_rate: u64,
    /// The rate at which an infected cell dies.
    pub death_rate: u64,
    /// The threshold below which an infected cell that did not die is cured.
    pub cured_rate: u64,
}

/// No cell holds the sentinel.
pub open spec fn settled(cells: Seq<Cell>) -> bool {
    forall|k: int| 0 <= k < cells.len() ==> (#[trigger] cells[k]).state != CellState::Unset
}

/// `1` if the cell at the wrapped position is infected, else `0`.
pub open spec fn lit(cells: Seq<Cell>, width: int, height: int, row: int, col: int) -> nat {
    if cells[(row % height) * width + col % width].state == CellState::Infected {
        1
    } else {
        0
    }
}

/// The number of infected cells among the eight neighbours of a cell. On a
/// lattice with fewer than three rows or columns a cell can be its neighbour's
/// neighbour several times over, or its own; each of the eight positions
/// counts.
pub open spec fn infected_neighbors(
    cells: Seq<Cell>,
    width: int,
    height: int,
    row: int,
    col: int,
) -> nat {
    lit(cells, width, height, row - 1, col - 1) + lit(cells, width, height, row - 1, col) + lit(
        cells,
        width,
        height,
        row - 1,
        col + 1,
    ) + lit(cells, width, height, row, col - 1) + lit(cells, width, height, row, col + 1) + lit(
        cells,
        width,
        height,
        row + 1,
        col - 1,
    ) + lit(cells, width, height, row + 1, col) + lit(cells, width, height, row + 1, col + 1)
}

/// The state that follows `state` for a cell with `infected` infected
/// neighbours and the given draw.
///
/// A healthy cell is infected when the draw lies below the infection rate
/// times the number of infected neighbours. An infected cell dies when the
/// draw lies below the death rate; failing that it is cured when the same
/// draw lies below the cured rate, so a cure takes a draw between the two
/// thresholds. Every other cell stays as it is.
pub open spec fn next_state(state: CellState, infected: nat, draw: u32, rates: Rates) -> CellState {
    match state {
        CellState::Healthy => if is_under(draw, rates.infection_rate, infected) {
            CellState::Infected
        } else {
            CellState::Healthy
        },
        CellState::Infected => if is_under(draw, rates.death_rate, 1) {
            CellState::Dead
        } else if is_under(draw, rates.cured_rate, 1) {
            CellState::Cured
        } else {
            CellState::Infected
        },
        other => other,
    }
}

/// The generation that follows `cells`, each cell decided by the draw at its
/// own index and by its neighbours in `cells`.
pub open spec fn stepped(
    cells: Seq<Cell>,
    width: int,
    height: int,
    rates: Rates,
    draws: Seq<u32>,
) -> Seq<Cell> {
    Seq::new(
        cells.len(),
        |k: int|
            Cell {
                state: next_state(
                    cells[k].state,
                    infected_neighbors(cells, width, height, k / width, k % width),
                    draws[k],
                    rates,
                ),
            },
    )
}

/// How many cells are in the given state.
pub open spec fn count(cells: Seq<Cell>, state: CellState) -> nat
    decreases cells.len(),
{
    if cells.len() == 0 {
        0
    } else {
        count(cells.drop_last(), state) + if cells.last().state == state {
            1nat
        } else {
            0nat
        }
    }
}

/// Decides the next state of one cell, see [`next_state`]. The sentinel has
/// no next state: it is never handed in.
pub fn transition(state: CellState, infected: u8, draw: u32, rates: &Rates) -> (next: CellState)
    requires
        state != CellState::Unset,
    ensures
        next == next_state(state, infected as nat, draw, *rates),
        next != CellState::Unset,
        state.leads_to(next),
{
    match state {
        CellState::Healthy => {
            if under(draw, rates.infection_rate, infected) {
                CellState::Infected
            } else {
                CellState::Healthy
            }
        },
        CellState::Infected => {
            if under(draw, rates.death_rate, 1) {
                CellState::Dead
            } else if under(draw, rates.cured_rate, 1) {
                CellState::Cured
            } else {
                CellState::Infected
            }
        },
        CellState::Cured => CellState::Cured,
        CellState::Dead => CellState::Dead,
        CellState::Unset => unreached(),
    }
}

/// `leads_to` is a partial order on the states of a cell.
pub proof fn lemma_leads_to_partial_order(a: CellState, b: CellState, c: CellState)
    ensures
        a.leads_to(a),
        a.leads_to(b) && b.leads_to(a) ==> a == b,
        a.leads_to(b) && b.leads_to(c) ==> a.leads_to(c),
{
}

/// A generation computed from a lattice without the sentinel holds no
/// sentinel, has a cell for every cell, and moves no cell backward.
pub proof fn lemma_stepped_settled(
    cells: Seq<Cell>,
    width: int,
    height: int,
    rates: Rates,
    draws: Seq<u32>,
)
    requires
        settled(cells),
    ensures
        settled(stepped(cells, width, height, rates, draws)),
        stepped(cells, width, height, rates, draws).len() == cells.len(),
        forall|k: int|
            0 <= k < cells.len() ==> (#[trigger] cells[k]).state.leads_to(
                stepped(cells, width, height, rates, draws)[k].state,
            ),
{
    let after = stepped(cells, width, height, rates, draws);
    assert forall|k: int| 0 <= k < after.len() implies (#[trigger] after[k]).state
        != CellState::Unset by {
        assert(cells[k].state != CellState::Unset);
    }
}

/// A position one step along an axis of the given extent comes back in at
/// the other end.
pub proof fn lemma_wrap(x: int, extent: int)
    requires
        0 <= x < extent,
    ensures
        x % extent == x,
        (x - 1) % extent == if x == 0 {
            extent - 1
        } else {
            x - 1
        },
        (x + 1) % extent == if x + 1 == extent {
            0
        } else {
            x + 1
        },
{
    lemma_fundamental_div_mod_converse(x, extent, 0, x);
    if x == 0 {
        lemma_fundamental_div_mod_converse(x - 1, extent, -1, extent - 1);
    } else {
        lemma_fundamental_div_mod_converse(x - 1, extent, 0, x - 1);
    }
    if x + 1 == extent {
        lemma_fundamental_div_mod_converse(x + 1, extent, 1, 0);
    } else {
        lemma_fundamental_div_mod_converse(x + 1, extent, 0, x + 1);
    }
}

/// A row and a column inside the lattice name an index inside its storage,
/// and the index names them back.
pub proof fn lemma_index(row: int, col: int, width: int, height: int)
    requires
        0 <= row < height,
        0 <= col < width,
    ensures
        0 <= row * width + col < width * height,
        (row * width + col) / width == row,
        (row * width + col) % width == col,
{
    assert(0 <= row * width && row * width + width <= width * height) by (nonlinear_arith)
        requires
            0 <= row < height,
            0 < width,
    ;
    lemma_fundamental_div_mod_converse(row * width + col, width, row, col);
}

/// The lattice: the live generation and the spare buffer for the next one.
pub struct Grid {
    width: usize,
    height: usize,
    current: Vec<Cell>,
    next: Vec<Cell>,
}

impl View for Grid {
    type V = Seq<Cell>;

    closed spec fn view(&self) -> Seq<Cell> {
        self.current@
    }
}

impl Grid {
    /// Both buffers have a slot for every cell, and the live one holds no
    /// sentinel. Every lattice that [`Grid::new`] hands out is well formed,
    /// and every method keeps it so.
    pub closed spec fn wf(&self) -> bool {
        &&& self.current.len() == self.width * self.height
        &&& self.next.len() == self.width * self.height
        &&& settled(self.current@)
    }

    /// A well-formed lattice has `width * height` cells, none the sentinel.
    pub proof fn lemma_wf(&self)
        requires
            self.wf(),
        ensures
            self@.len() == self.spec_width() * self.spec_height(),
            settled(self@),
    {
    }

    /// The number of columns.
    pub closed spec fn spec_width(&self) -> nat {
        self.width as nat
    }

    /// The number of rows.
    pub closed spec fn spec_height(&self) -> nat {
        self.height as nat
    }

    /// A lattice of healthy cells, or `None` if that many cells cannot be
    /// indexed.
    pub fn new(width: usize, height: usize) -> (grid: Option<Grid>)
        ensures
            grid is Some <==> width * height <= usize::MAX,
            grid matches Some(g) ==> {
                &&& g.wf()
                &&& g.spec_width() == width
                &&& g.spec_height() == height
                &&& g@ == Seq::new(
                    (width * height) as nat,
                    |k: int| Cell { state: CellState::Healthy },
                )
            },
    {
        let total = match width.checked_mul(height) {
            Some(total) => total,
            None => {
                return None;
            },
        };
        let mut current: Vec<Cell> = Vec::new();
        let mut next: Vec<Cell> = Vec::new();
        let mut k: usize = 0;
        while k < total
            invariant
                k <= total,
                current@ == Seq::new(k as nat, |m: int| Cell { state: CellState::Healthy }),
                next@.len() == k,
            decreases total - k,
        {
            current.push(Cell { state: CellState::Healthy });
            next.push(Cell { state: CellState::Unset });
            k += 1;
        }
        Some(Grid { width, height, current, next })
    }

    /// The number of columns.
    pub fn width(&self) -> (w: usize)
        ensures
            w == self.spec_width(),
    {
        self.width
    }

    /// The number of rows.
    pub fn height(&self) -> (h: usize)
        ensures
            h == self.spec_height(),
    {
        self.height
    }

    /// The state of the cell in the given row and column, if the lattice has
    /// one there. It is never the sentinel.
    pub fn get(&self, row: usize, col: usize) -> (state: Option<CellState>)
        requires
            self.wf(),
        ensures
            state matches Some(s) ==> s != CellState::Unset,
            state == if row < self.spec_height() && col < self.spec_width() {
                Some(self@[row * self.spec_width() + col].state)
            } else {
                None
            },
    {
        if row < self.height && col < self.width {
            proof {
                lemma_index(row as int, col as int, self.width as int, self.height as int);
            }
            Some(self.current[row * self.width + col].state)
        } else {
            None
        }
    }

    /// Puts the cell in the given row and column into `state` and says
    /// whether it did. A position outside the lattice, or the sentinel for a
    /// state, changes nothing.
    pub fn set(&mut self, row: usize, col: usize, state: CellState) -> (done: bool)
        requires
            old(self).wf(),
        ensures
            final(self).wf(),
            final(self).spec_width() == old(self).spec_width(),
            final(self).spec_height() == old(self).spec_height(),
            done == (row < old(self).spec_height() && col < old(self).spec_width() && state
                != CellState::Unset),
            final(self)@ == if done {
                old(self)@.update(row * old(self).spec_width() + col, Cell { state })
            } else {
                old(self)@
            },
    {
        if row < self.height && col < self.width && state != CellState::Unset {
            proof {
                lemma_index(row as int, col as int, self.width as int, self.height as int);
            }
            self.current.set(row * self.width + col, Cell { state });
            true
        } else {
            false
        }
    }

    /// `1` if the cell that the position `(toward_row, toward_col)` wraps to
    /// is infected; `row` and `col` are where it wraps to.
    fn lit_at(
        &self,
        row: usize,
        col: usize,
        Ghost(toward_row): Ghost<int>,
        Ghost(toward_col): Ghost<int>,
    ) -> (n: u8)
        requires
            self.wf(),
            row < self.height,
            col < self.width,
            toward_row % (self.height as int) == row,
            toward_col % (self.width as int) == col,
        ensures
            n == lit(self.current@, self.width as int, self.height as int, toward_row, toward_col),
            n <= 1,
    {
        proof {
            lemma_index(row as int, col as int, self.width as int, self.height as int);
        }
        if self.current[row * self.width + col].state == CellState::Infected {
            1
        } else {
            0
        }
    }

    /// Counts the infected cells among the eight neighbours of a cell inside
    /// the lattice.
    fn infected_around(&self, row: usize, col: usize) -> (n: u8)
        requires
            self.wf(),
            row < self.height,
            col < self.width,
        ensures
            n == infected_neighbors(
                self.current@,
                self.width as int,
                self.height as int,
                row as int,
                col as int,
            ),
            n <= 8,
    {
        proof {
            lemma_wrap(row as int, self.height as int);
            lemma_wrap(col as int, self.width as int);
        }
        let up = if row == 0 {
            self.height - 1
        } else {
            row - 1
        };
        let down = if row + 1 == self.height {
            0
        } else {
            row + 1
        };
        let left = if col == 0 {
            self.width - 1
        } else {
            col - 1
        };
        let right = if col + 1 == self.width {
            0
        } else {
            col + 1
        };
        let ghost r = row as int;
        let ghost c = col as int;
        let a = self.lit_at(up, left, Ghost(r - 1), Ghost(c - 1));
        let b = self.lit_at(up, col, Ghost(r - 1), Ghost(c));
        let d = self.lit_at(up, right, Ghost(r - 1), Ghost(c + 1));
        let e = self.lit_at(row, left, Ghost(r), Ghost(c - 1));
        let f = self.lit_at(row, right, Ghost(r), Ghost(c + 1));
        let g = self.lit_at(down, left, Ghost(r + 1), Ghost(c - 1));
        let h = self.lit_at(down, col, Ghost(r + 1), Ghost(c));
        let i = self.lit_at(down, right, Ghost(r + 1), Ghost(c + 1));
        a + b + d + e + f + g + h + i
    }

    /// The number of infected cells among the eight neighbours of the cell in
    /// the given row and column, if the lattice has one there.
    pub fn infected_neighbors(&self, row: usize, col: usize) -> (n: Option<u8>)
        requires
            self.wf(),
        ensures
            n == if row < self.spec_height() && col < self.spec_width() {
                Some(
                    infected_neighbors(
                        self@,
                        self.spec_width() as int,
                        self.spec_height() as int,
                        row as int,
                        col as int,
                    ) as u8,
                )
            } else {
                None
            },
            n matches Some(m) ==> m <= 8,
    {
        if row < self.height && col < self.width {
            Some(self.infected_around(row, col))
        } else {
            None
        }
    }

    /// Counts the cells by state.
    pub fn census(&self) -> (counts: Counts)
        requires
            self.wf(),
        ensures
            counts.healthy == count(self@, CellState::Healthy),
            counts.infected == count(self@, CellState::Infected),
            counts.cured == count(self@, CellState::Cured),
            counts.dead == count(self@, CellState::Dead),
            counts.total() == self@.len(),
    {
        let n = self.current.len();
        let mut counts = Counts { healthy: 0, infected: 0, cured: 0, dead: 0 };
        let mut k: usize = 0;
        while k < n
            invariant
                k <= n,
                n == self.current@.len(),
                settled(self.current@),
                counts.healthy == count(self.current@.take(k as int), CellState::Healthy),
                counts.infected == count(self.current@.take(k as int), CellState::Infected),
                counts.cured == count(self.current@.take(k as int), CellState::Cured),
                counts.dead == count(self.current@.take(k as int), CellState::Dead),
                counts.total() == k,
            decreases n - k,
        {
            proof {
                let upto = self.current@.take(k + 1);
                assert(upto.drop_last() == self.current@.take(k as int));
                assert(upto.last() == self.current@[k as int]);
            }
            match self.current[k].state {
                CellState::Healthy => {
                    counts.healthy += 1;
                },
                CellState::Infected => {
                    counts.infected += 1;
                },
                CellState::Cured => {
                    counts.cured += 1;
                },
                CellState::Dead => {
                    counts.dead += 1;
                },
                CellState::Unset => {
                    unreached::<()>();
                },
            }
            k += 1;
        }
        proof {
            assert(self.current@.take(n as int) == self.current@);
        }
        counts
    }

    /// Advances the lattice by one generation and counts the result. The draw
    /// at a cell's index decides that cell; every cell is decided against the
    /// generation before the tick.
    pub fn tick(&mut self, rates: &Rates, draws: &Vec<u32>) -> (counts: Counts)
        requires
            old(self).wf(),
            draws@.len() == old(self)@.len(),
        ensures
            final(self).wf(),
            final(self).spec_width() == old(self).spec_width(),
            final(self).spec_height() == old(self).spec_height(),
            final(self)@ == stepped(
                old(self)@,
                old(self).spec_width() as int,
                old(self).spec_height() as int,
                *rates,
                draws@,
            ),
            settled(final(self)@),
            forall|k: int|
                0 <= k < old(self)@.len() ==> (#[trigger] old(self)@[k]).state.leads_to(
                    final(self)@[k].state,
                ),
            counts.healthy == count(final(self)@, CellState::Healthy),
            counts.infected == count(final(self)@, CellState::Infected),
            counts.cured == count(final(self)@, CellState::Cured),
            counts.dead == count(final(self)@, CellState::Dead),
            counts.total() == final(self)@.len(),
    {
        let n = self.current.len();
        let ghost before = self.current@;
        let ghost after = stepped(before, self.width as int, self.height as int, *rates, draws@);
        let mut k: usize = 0;
        while k < n
            invariant
                k <= n,
                n == self.width * self.height,
                self.wf(),
                self.width == old(self).width,
                self.height == old(self).height,
                self.current@ == before,
                before == old(self).current@,
                settled(before),
                self.current@.len() == n,
                self.next@.len() == n,
                draws@.len() == n,
                after == stepped(before, self.width as int, self.height as int, *rates, draws@),
                forall|m: int| 0 <= m < k ==> self.next@[m] == after[m],
                forall|m: int|
                    0 <= m < k ==> (#[trigger] self.next@[m]).state != CellState::Unset,
                forall|m: int|
                    0 <= m < k ==> (#[trigger] before[m]).state.leads_to(self.next@[m].state),
            decreases n - k,
        {
            assert(self.width != 0) by (nonlinear_arith)
                requires
                    k < self.width * self.height,
            ;
            let row = k / self.width;
            let col = k % self.width;
            assert(row < self.height) by (nonlinear_arith)
                requires
                    k < self.width * self.height,
                    row == k / self.width,
                    0 < self.width,
            ;
            let around = self.infected_around(row, col);
            let state = transition(self.current[k].state, around, draws[k], rates);
            self.next.set(k, Cell { state });
            k += 1;
        }
        std::mem::swap(&mut self.current, &mut self.next);
        assert(self.current@ == after);
        self.census()
    }
}

} // verus!
