//! The mathematical model of the double-buffered canvas.
//!
//! A [`Canvas`] is the state of the grid as contracts speak of it: its
//! size, the frame last shown (`front`), the frame being drawn (`back`)
//! and the flag that asks for a full repaint. The executable grid in
//! [`crate::buffer`] has a `Canvas` as its view.

use vstd::prelude::*;
use vstd::arithmetic::div_mod::lemma_fundamental_div_mod_converse;
use vstd::arithmetic::div_mod::lemma_fundamental_div_mod;
use vstd::arithmetic::div_mod::lemma_div_pos_is_pos;
use vstd::arithmetic::div_mod::lemma_mod_bound;
use crate::cell::Cell;

verus! {

/// One command for the terminal: move to `(column, row)` and print `cell`.
#[derive(Clone, Copy, Debug, PartialEq, Eq, Structural)]
pub struct CellWrite {
    pub column: usize,
    pub row: usize,
    pub cell: Cell,
}

impl CellWrite {
    /// The row-major index of the written cell in a grid `width` wide.
    pub open spec fn index(self, width: nat) -> int {
        self.row * width + self.column
    }
}

/// The state of a canvas.
pub struct Canvas {
    pub width: nat,
    pub height: nat,
    /// The frame last shown, row by row.
    pub front: Seq<Cell>,
    /// The frame being drawn, row by row.
    pub back: Seq<Cell>,
    /// Set by a change of size, cleared by a presentation.
    pub resized: bool,
}

impl Canvas {
    /// The number of cells of the grid.
    pub open spec fn cells(self) -> nat {
        self.width * self.height
    }

    /// Both frames hold one cell for each position of the grid, and the
    /// grid can be indexed by a machine word.
    pub open spec fn wf(self) -> bool {
        &&& self.front.len() == self.cells()
        &&& self.back.len() == self.cells()
        &&& self.cells() <= usize::MAX
    }

    /// A frame of `n` blank cells.
    pub open spec fn blank_frame(n: nat) -> Seq<Cell> {
        Seq::new(n, |i: int| Cell::blank())
    }

    /// The canvas before any size was given: no cells, nothing to repaint.
    pub open spec fn empty() -> Canvas {
        Canvas { width: 0, height: 0, front: Seq::empty(), back: Seq::empty(), resized: false }
    }

    /// The canvas after a request for the size `width` by `height`: itself
    /// where that is its size already, else two blank frames of the new
    /// size and the flag set.
    pub open spec fn resized_to(self, width: nat, height: nat) -> Canvas {
        if width == self.width && height == self.height {
            self
        } else {
            Canvas {
                width,
                height,
                front: Self::blank_frame(width * height),
                back: Self::blank_frame(width * height),
                resized: true,
            }
        }
    }

    /// The canvas with `back` as the frame being drawn.
    pub open spec fn painted(self, back: Seq<Cell>) -> Canvas {
        Canvas { back, ..self }
    }

    /// The canvas after a presentation: the frames change places and the
    /// flag is cleared.
    pub open spec fn presented(self) -> Canvas {
        Canvas { front: self.back, back: self.front, resized: false, ..self }
    }

    /// Whether the cell at index `i` has to be written: its two frames
    /// differ, or the whole grid is to be repainted.
    pub open spec fn dirty(self, i: int) -> bool {
        self.resized || self.front[i] != self.back[i]
    }

    /// The command that writes the cell at index `i` of the frame being
    /// drawn.
    pub open spec fn write_at(self, i: int) -> CellWrite {
        CellWrite {
            column: (i % (self.width as int)) as usize,
            row: (i / (self.width as int)) as usize,
            cell: self.back[i],
        }
    }

    /// The indices below `n` of the cells to write, in rising order.
    pub open spec fn dirty_below(self, n: nat) -> Seq<int> {
        Seq::new(n, |i: int| i).filter(|i: int| self.dirty(i))
    }

    /// The indices of the cells to write, in rising order.
    pub open spec fn dirty_cells(self) -> Seq<int> {
        self.dirty_below(self.back.len())
    }

    /// The commands for the cells with index below `n`.
    pub open spec fn writes_below(self, n: nat) -> Seq<CellWrite> {
        self.dirty_below(n).map_values(|i: int| self.write_at(i))
    }

    /// What a presentation hands to the terminal: one command for each
    /// cell to write, row by row and from left to right within a row.
    pub open spec fn writes(self) -> Seq<CellWrite> {
        self.writes_below(self.back.len())
    }

    /// Nothing lies below index 0.
    pub proof fn lemma_dirty_below_zero(self)
        ensures
            self.dirty_below(0) == Seq::<int>::empty(),
            self.writes_below(0) == Seq::<CellWrite>::empty(),
    {
        reveal(Seq::filter);
        assert(self.dirty_below(0) =~= Seq::<int>::empty());
        assert(self.writes_below(0) =~= Seq::<CellWrite>::empty());
    }

    /// Going from `n` to `n + 1` appends the cell `n` where it is dirty.
    pub proof fn lemma_dirty_below_step(self, n: nat)
        ensures
            self.dirty(n as int) ==> self.dirty_below(n + 1) == self.dirty_below(n).push(n as int),
            !self.dirty(n as int) ==> self.dirty_below(n + 1) == self.dirty_below(n),
            self.dirty(n as int) ==> self.writes_below(n + 1) == self.writes_below(n).push(
                self.write_at(n as int),
            ),
            !self.dirty(n as int) ==> self.writes_below(n + 1) == self.writes_below(n),
    {
        reveal(Seq::filter);
        let all = Seq::new(n + 1, |i: int| i);
        assert(all.drop_last() =~= Seq::new(n, |i: int| i));
        assert(all.last() == n);
        if self.dirty(n as int) {
            assert(self.dirty_below(n + 1) == self.dirty_below(n).push(n as int));
            assert(self.writes_below(n + 1) =~= self.writes_below(n).push(self.write_at(n as int)));
        }
    }

    /// The dirty indices below `n` rise strictly, lie below `n`, and are
    /// exactly the dirty ones.
    pub proof fn lemma_dirty_below(self, n: nat)
        ensures
            self.dirty_below(n).len() <= n,
            forall|k: int|
                0 <= k < self.dirty_below(n).len() ==> 0 <= #[trigger] self.dirty_below(n)[k] < n
                    && self.dirty(self.dirty_below(n)[k]),
            forall|j: int, k: int|
                0 <= j < k < self.dirty_below(n).len() ==> #[trigger] self.dirty_below(n)[j]
                    < #[trigger] self.dirty_below(n)[k],
            forall|i: int|
                0 <= i < n && self.dirty(i) ==> #[trigger] self.dirty_below(n).contains(i),
        decreases n,
    {
        if n == 0 {
            self.lemma_dirty_below_zero();
        } else {
            let m = (n - 1) as nat;
            self.lemma_dirty_below(m);
            self.lemma_dirty_below_step(m);
            let before = self.dirty_below(m);
            let now = self.dirty_below(n);
            assert forall|i: int| 0 <= i < n && self.dirty(i) implies #[trigger] now.contains(i) by {
                if i < m {
                    assert(before.contains(i));
                    let k = choose|k: int| 0 <= k < before.len() && before[k] == i;
                    assert(now[k] == i);
                } else {
                    assert(now[now.len() - 1] == i);
                }
            }
        }
    }

    /// With the flag set every cell is dirty: the dirty indices are all
    /// the indices.
    pub proof fn lemma_all_dirty(self, n: nat)
        requires
            self.resized,
        ensures
            self.dirty_below(n) == Seq::new(n, |i: int| i),
        decreases n,
    {
        if n == 0 {
            self.lemma_dirty_below_zero();
        } else {
            let m = (n - 1) as nat;
            self.lemma_all_dirty(m);
            self.lemma_dirty_below_step(m);
        }
        assert(self.dirty_below(n) =~= Seq::new(n, |i: int| i));
    }

    /// With no dirty cell nothing is written.
    pub proof fn lemma_none_dirty(self, n: nat)
        requires
            forall|i: int| 0 <= i < n ==> !self.dirty(i),
        ensures
            self.dirty_below(n) == Seq::<int>::empty(),
        decreases n,
    {
        if n == 0 {
            self.lemma_dirty_below_zero();
        } else {
            let m = (n - 1) as nat;
            self.lemma_none_dirty(m);
            self.lemma_dirty_below_step(m);
        }
    }

    /// The command for a cell names that cell's column and row: taken
    /// back to an index it gives the cell's own.
    pub proof fn lemma_write_at_position(self, i: int)
        requires
            self.wf(),
            0 <= i < self.cells(),
        ensures
            self.write_at(i).column == i % (self.width as int),
            self.write_at(i).row == i / (self.width as int),
            self.write_at(i).column < self.width,
            self.write_at(i).row < self.height,
            self.write_at(i).index(self.width) == i,
            self.write_at(i).cell == self.back[i],
    {
        let w = self.width as int;
        let h = self.height as int;
        assert(w > 0 && h > 0) by (nonlinear_arith)
            requires
                0 <= i < w * h,
                w >= 0,
                h >= 0,
        ;
        lemma_fundamental_div_mod(i, w);
        lemma_mod_bound(i, w);
        lemma_div_pos_is_pos(i, w);
        let q = i / w;
        let r = i % w;
        assert(q < h) by (nonlinear_arith)
            requires
                i == w * q + r,
                0 <= r < w,
                0 <= i < w * h,
                q >= 0,
        ;
        assert(q * w == w * q) by (nonlinear_arith);
    }

    /// The cell in column `column` of row `row` has the index
    /// `row * width + column`, and its command names that position.
    pub proof fn lemma_position_index(self, column: int, row: int)
        requires
            self.wf(),
            0 <= column < self.width,
            0 <= row < self.height,
        ensures
            0 <= row * self.width + column < self.cells(),
            self.write_at(row * self.width + column).column == column,
            self.write_at(row * self.width + column).row == row,
    {
        let w = self.width as int;
        let h = self.height as int;
        let i = row * w + column;
        assert(0 <= i < w * h) by (nonlinear_arith)
            requires
                i == row * w + column,
                0 <= column < w,
                0 <= row < h,
        ;
        lemma_fundamental_div_mod_converse(i, w, row, column);
    }
}

} // verus!
