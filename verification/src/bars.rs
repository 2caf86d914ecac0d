//! The painter of the spectrum: one bar for each column.

use vstd::prelude::*;
use vstd::arithmetic::div_mod::lemma_div_pos_is_pos;
use vstd::arithmetic::div_mod::lemma_fundamental_div_mod;
use vstd::arithmetic::div_mod::lemma_fundamental_div_mod_converse;
use vstd::arithmetic::div_mod::lemma_mod_bound;
use crate::cell::Cell;
use crate::cell::Color;
use crate::painter::Painter;

verus! {

/// Draws one bar for each level it is given, from the bottom row upwards.
///
/// The level of a column is the whole part of its height: a cell that
/// lies `depth` rows above the bottom row belongs to the bar where
/// `depth` is at most the level.
#[derive(Clone, Copy, Debug, PartialEq, Eq, Structural)]
pub struct Bars {
    /// The cell that a bar is made of.
    pub bar: Cell,
    /// The cell above a bar.
    pub rest: Cell,
}

impl Bars {
    /// Bars in the terminal's own colours under a black background.
    pub open spec fn spec_plain() -> Bars {
        Bars { bar: Cell::blank(), rest: Cell::on(Color::Black) }
    }

    #[verifier::when_used_as_spec(spec_plain)]
    pub fn plain() -> (bars: Bars)
        ensures
            bars == Bars::spec_plain(),
    {
        Bars { bar: Cell::blank(), rest: Cell::on(Color::Black) }
    }

    /// The cell of a column with level `level`, `depth` rows above the
    /// bottom row.
    pub open spec fn cell_at(self, level: int, depth: int) -> Cell {
        if level < depth {
            self.rest
        } else {
            self.bar
        }
    }

    /// The frame `before` with the first `columns` of `levels` drawn: in
    /// those columns every row is set, the others are left as they were.
    pub open spec fn drawn(
        self,
        before: Seq<Cell>,
        width: nat,
        height: nat,
        levels: Seq<i64>,
        columns: nat,
    ) -> Seq<Cell> {
        Seq::new(
            before.len(),
            |i: int|
                if width > 0 && i % (width as int) < columns {
                    self.cell_at(
                        levels[i % (width as int)] as int,
                        height - 1 - i / (width as int),
                    )
                } else {
                    before[i]
                },
        )
    }

    /// The frame `before` with all of `levels` drawn.
    pub open spec fn frame(self, before: Seq<Cell>, width: nat, height: nat, levels: Seq<i64>) -> Seq<
        Cell,
    > {
        self.drawn(before, width, height, levels, levels.len())
    }

    /// Whether a column of level `level` leaves the row `depth` rows
    /// above the bottom to the background.
    fn above(level: i64, depth: usize) -> (above: bool)
        ensures
            above == (level < depth),
    {
        level < 0 || (level as u64) < (depth as u64)
    }
}

impl Painter for Bars {
    type Data = Vec<i64>;

    /// One level for each column at most. On a grid without rows nothing
    /// is drawn, and any number of levels will do.
    open spec fn accepts(&self, width: nat, height: nat, data: Vec<i64>) -> bool {
        data@.len() <= width || height == 0
    }

    open spec fn paints(
        &self,
        next: &Self,
        before: Seq<Cell>,
        width: nat,
        height: nat,
        data: Vec<i64>,
        after: Seq<Cell>,
    ) -> bool {
        &&& *next == *self
        &&& height > 0 ==> after == self.frame(before, width, height, data@)
        &&& height == 0 ==> after == before
    }

    fn paint(&mut self, frame: &mut [Cell], width: usize, height: usize, data: Vec<i64>) {
        let ghost before = frame@;
        let ghost w = width as int;
        let ghost h = height as int;
        let cells = frame.len();
        if height == 0 {
            assert(frame@.len() == 0) by (nonlinear_arith)
                requires
                    frame@.len() == width * height,
                    height == 0,
            ;
            return ;
        }
        assert(frame@ =~= self.drawn(before, width as nat, height as nat, data@, 0));
        let mut col: usize = 0;
        while col < data.len()
            invariant
                *self == *old(self),
                before == old(frame)@,
                w == width,
                h == height,
                h > 0,
                col <= data@.len() <= width,
                frame@.len() == before.len(),
                before.len() == width * height,
                before.len() == cells,
                frame@ == self.drawn(before, width as nat, height as nat, data@, col as nat),
            decreases data@.len() - col,
        {
            let level = data[col];
            let ghost start = frame@;
            let mut depth: usize = 0;
            while depth < height
                invariant
                    *self == *old(self),
                    w == width,
                    h == height,
                    col < data@.len() <= width,
                    level == data@[col as int],
                    depth <= height,
                    frame@.len() == before.len(),
                    before.len() == width * height,
                    before.len() == cells,
                    start == self.drawn(before, width as nat, height as nat, data@, col as nat),
                    forall|i: int|
                        0 <= i < frame@.len() ==> #[trigger] frame@[i] == if i % w == col && 0 <= h
                            - 1 - i / w < depth {
                            self.cell_at(level as int, h - 1 - i / w)
                        } else {
                            start[i]
                        },
                decreases height - depth,
            {
                let row = height - 1 - depth;
                assert(0 <= row * w + col < w * h) by (nonlinear_arith)
                    requires
                        0 <= row < h,
                        0 <= col < w,
                ;
                let idx = row * width + col;
                proof {
                    lemma_fundamental_div_mod_converse(idx as int, w, row as int, col as int);
                }
                let ghost prior = frame@;
                let cell = if Self::above(level, depth) {
                    self.rest
                } else {
                    self.bar
                };
                frame[idx] = cell;
                assert(frame@ == prior.update(idx as int, cell));
                assert forall|i: int| 0 <= i < frame@.len() implies #[trigger] frame@[i] == if i
                    % w == col && 0 <= h - 1 - i / w < depth + 1 {
                    self.cell_at(level as int, h - 1 - i / w)
                } else {
                    start[i]
                } by {
                    if i % w == col && i / w == row {
                        lemma_fundamental_div_mod(i, w);
                        lemma_fundamental_div_mod(idx as int, w);
                        assert(i == idx);
                    }
                }
                depth += 1;
            }
            proof {
                let target = self.drawn(before, width as nat, height as nat, data@, (col + 1) as nat);
                assert forall|i: int| 0 <= i < frame@.len() implies frame@[i] == target[i] by {
                    lemma_fundamental_div_mod(i, w);
                    lemma_mod_bound(i, w);
                    lemma_div_pos_is_pos(i, w);
                    let q = i / w;
                    let r = i % w;
                    assert(q < h) by (nonlinear_arith)
                        requires
                            i == w * q + r,
                            0 <= r < w,
                            0 <= i < w * h,
                            q >= 0,
                    ;
                }
                assert(frame@ =~= target);
            }
            col += 1;
        }
    }
}

} // verus!
