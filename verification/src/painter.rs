//! The update strategy of a canvas.

use vstd::prelude::*;
use crate::cell::Cell;

verus! {

/// What draws a frame from the data of one period.
///
/// The canvas hands the painter the frame being drawn as it was left two
/// presentations ago, never cleared: a painter sets every cell that it
/// wants to differ from that.
pub trait Painter: Sized {
    /// The data handed over with each update.
    type Data;

    /// The data that the painter can draw on a grid `width` by `height`:
    /// any, unless the painter says otherwise.
    open spec fn accepts(&self, width: nat, height: nat, data: Self::Data) -> bool {
        true
    }

    /// Whether painting `data` over the frame `before` may leave the frame
    /// `after` and the painter `next`. A painter that says no more may
    /// leave any frame of the same length.
    open spec fn paints(
        &self,
        next: &Self,
        before: Seq<Cell>,
        width: nat,
        height: nat,
        data: Self::Data,
        after: Seq<Cell>,
    ) -> bool {
        after.len() == before.len()
    }

    /// Draws `data` into `frame`, which holds the rows of a grid `width`
    /// by `height` one after the other. A slice cannot change its length,
    /// which is all that the first clause states.
    fn paint(&mut self, frame: &mut [Cell], width: usize, height: usize, data: Self::Data)
        requires
            old(frame)@.len() == width * height,
            old(self).accepts(width as nat, height as nat, data),
        ensures
            final(frame)@.len() == old(frame)@.len(),
            old(self).paints(
                final(self),
                old(frame)@,
                width as nat,
                height as nat,
                data,
                final(frame)@,
            ),
    ;
}

} // verus!
