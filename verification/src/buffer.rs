//! The double-buffered grid.

use vstd::prelude::*;
use crate::canvas::Canvas;
use crate::canvas::CellWrite;
use crate::cell::Cell;
use crate::painter::Painter;

verus! {

/// A grid of cells kept twice: the frame last shown and the frame being
/// drawn. A presentation hands out the cells in which the two differ.
pub struct Buffer<P: Painter> {
    front: Vec<Cell>,
    back: Vec<Cell>,
    width: usize,
    height: usize,
    on_update: Option<P>,
    resized: bool,
}

impl<P: Painter> View for Buffer<P> {
    type V = Canvas;

    closed spec fn view(&self) -> Canvas {
        Canvas {
            width: self.width as nat,
            height: self.height as nat,
            front: self.front@,
            back: self.back@,
            resized: self.resized,
        }
    }
}

impl<P: Painter> Buffer<P> {
    /// The invariant of the grid: both frames hold `width * height` cells.
    pub open spec fn wf(&self) -> bool {
        self@.wf()
    }

    /// The installed painter, if any.
    pub closed spec fn painter(&self) -> Option<P> {
        self.on_update
    }

    /// A grid of no cells, with no painter.
    pub fn new() -> (buffer: Self)
        ensures
            buffer.wf(),
            buffer@ == Canvas::empty(),
            buffer.painter() is None,
    {
        Buffer {
            front: Vec::new(),
            back: Vec::new(),
            width: 0,
            height: 0,
            on_update: None,
            resized: false,
        }
    }

    /// Installs `painter` in place of any earlier one.
    pub fn on_update(&mut self, painter: P)
        requires
            old(self).wf(),
        ensures
            final(self).wf(),
            final(self)@ == old(self)@,
            final(self).painter() == Some(painter),
    {
        self.on_update = Some(painter);
    }

    /// The number of columns.
    pub fn width(&self) -> (width: usize)
        ensures
            width == self@.width,
    {
        self.width
    }

    /// The number of rows.
    pub fn height(&self) -> (height: usize)
        ensures
            height == self@.height,
    {
        self.height
    }

    /// Gives the grid the size `new_w` by `new_h`. With the size it has
    /// already nothing changes. Otherwise both frames become blank frames
    /// of the new size and the next presentation repaints every cell.
    pub fn resize(&mut self, new_w: usize, new_h: usize)
        requires
            old(self).wf(),
            new_w * new_h <= usize::MAX,
        ensures
            final(self).wf(),
            final(self)@ == old(self)@.resized_to(new_w as nat, new_h as nat),
            final(self).painter() == old(self).painter(),
    {
        if self.width == new_w && self.height == new_h {
            return ;
        }
        let new_size: usize = new_w * new_h;
        self.front = vec![Cell::blank(); new_size];
        self.back = vec![Cell::blank(); new_size];
        self.width = new_w;
        self.height = new_h;
        self.resized = true;
        assert(self.front@ =~= Canvas::blank_frame(new_size as nat));
        assert(self.back@ =~= Canvas::blank_frame(new_size as nat));
    }

    /// Lets the installed painter draw `data` into the frame being drawn.
    /// Without a painter nothing happens.
    pub fn update(&mut self, data: P::Data)
        requires
            old(self).wf(),
            old(self).painter() matches Some(p) ==> p.accepts(
                old(self)@.width,
                old(self)@.height,
                data,
            ),
        ensures
            final(self).wf(),
            final(self)@ == old(self)@.painted(final(self)@.back),
            match old(self).painter() {
                Some(p) => final(self).painter() matches Some(q) && p.paints(
                    &q,
                    old(self)@.back,
                    old(self)@.width,
                    old(self)@.height,
                    data,
                    final(self)@.back,
                ),
                None => final(self)@ == old(self)@ && final(self).painter() is None,
            },
    {
        match &mut self.on_update {
            Some(painter) => {
                painter.paint(self.back.as_mut_slice(), self.width, self.height, data);
            },
            None => {},
        }
    }

    /// Hands out the commands that bring the terminal from the frame last
    /// shown to the frame being drawn: one for each cell in which the two
    /// differ, or one for every cell after a change of size. The frames
    /// then change places and the repaint flag is cleared.
    pub fn present(&mut self) -> (writes: Vec<CellWrite>)
        requires
            old(self).wf(),
        ensures
            final(self).wf(),
            writes@ == old(self)@.writes(),
            final(self)@ == old(self)@.presented(),
            final(self).painter() == old(self).painter(),
    {
        let ghost canvas = self@;
        let mut writes: Vec<CellWrite> = Vec::new();
        let mut idx: usize = 0;
        let mut y: usize = 0;
        proof {
            canvas.lemma_dirty_below_zero();
        }
        while y < self.height
            invariant
                *self == *old(self),
                canvas == self@,
                canvas.wf(),
                y <= self.height,
                idx == y * self.width,
                writes@ == canvas.writes_below(idx as nat),
            decreases self.height - y,
        {
            let mut x: usize = 0;
            while x < self.width
                invariant
                    *self == *old(self),
                    canvas == self@,
                    canvas.wf(),
                    y < self.height,
                    x <= self.width,
                    idx == y * self.width + x,
                    writes@ == canvas.writes_below(idx as nat),
                decreases self.width - x,
            {
                proof {
                    canvas.lemma_position_index(x as int, y as int);
                    canvas.lemma_dirty_below_step(idx as nat);
                }
                if self.resized || self.front[idx] != self.back[idx] {
                    writes.push(CellWrite { column: x, row: y, cell: self.back[idx] });
                }
                x += 1;
                idx += 1;
            }
            assert((y + 1) * self.width == y * self.width + self.width) by (nonlinear_arith);
            y += 1;
        }
        assert(idx == canvas.back.len()) by (nonlinear_arith)
            requires
                idx == self.height * self.width,
                canvas.back.len() == self.width * self.height,
        ;
        self.resized = false;
        std::mem::swap(&mut self.front, &mut self.back);
        writes
    }
}

} // verus!
