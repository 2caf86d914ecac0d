//! What holds of every canvas, over several operations.

use vstd::prelude::*;
use crate::canvas::Canvas;
use crate::canvas::CellWrite;
use crate::cell::Cell;

verus! {

/// A presentation writes the dirty cells and no others, each once, in
/// rising order of their index, and each with its cell of the frame being
/// drawn.
pub proof fn lemma_writes_are_the_dirty_cells(canvas: Canvas)
    requires
        canvas.wf(),
    ensures
        canvas.writes().len() == canvas.dirty_cells().len(),
        canvas.writes().len() <= canvas.cells(),
        forall|k: int|
            0 <= k < canvas.writes().len() ==> {
                let i = canvas.dirty_cells()[k];
                &&& 0 <= i < canvas.cells()
                &&& canvas.dirty(i)
                &&& #[trigger] canvas.writes()[k] == canvas.write_at(i)
                &&& canvas.writes()[k].index(canvas.width) == i
                &&& canvas.writes()[k].cell == canvas.back[i]
            },
        forall|j: int, k: int|
            0 <= j < k < canvas.writes().len() ==> (#[trigger] canvas.writes()[j]).index(
                canvas.width,
            ) < (#[trigger] canvas.writes()[k]).index(canvas.width),
        forall|i: int|
            0 <= i < canvas.cells() && canvas.dirty(i) ==> exists|k: int|
                0 <= k < canvas.writes().len() && (#[trigger] canvas.writes()[k]).index(
                    canvas.width,
                ) == i,
{
    let n = canvas.back.len();
    let dirty = canvas.dirty_cells();
    let writes = canvas.writes();
    canvas.lemma_dirty_below(n);
    assert forall|k: int| 0 <= k < writes.len() implies {
        let i = dirty[k];
        &&& 0 <= i < canvas.cells()
        &&& canvas.dirty(i)
        &&& #[trigger] writes[k] == canvas.write_at(i)
        &&& writes[k].index(canvas.width) == i
        &&& writes[k].cell == canvas.back[i]
    } by {
        canvas.lemma_write_at_position(dirty[k]);
    }
    assert forall|j: int, k: int| 0 <= j < k < writes.len() implies (#[trigger] writes[j]).index(
        canvas.width,
    ) < (#[trigger] writes[k]).index(canvas.width) by {
        assert(dirty[j] < dirty[k]);
        canvas.lemma_write_at_position(dirty[j]);
        canvas.lemma_write_at_position(dirty[k]);
    }
    assert forall|i: int| 0 <= i < canvas.cells() && canvas.dirty(i) implies exists|k: int|
        0 <= k < writes.len() && (#[trigger] writes[k]).index(canvas.width) == i by {
        assert(dirty.contains(i));
        let k = choose|k: int| 0 <= k < dirty.len() && dirty[k] == i;
        canvas.lemma_write_at_position(dirty[k]);
        assert(writes[k].index(canvas.width) == i);
    }
}

/// A cell that is not dirty is not written.
pub proof fn lemma_clean_cell_is_not_written(canvas: Canvas, i: int)
    requires
        canvas.wf(),
        0 <= i < canvas.cells(),
        !canvas.dirty(i),
    ensures
        forall|k: int|
            0 <= k < canvas.writes().len() ==> (#[trigger] canvas.writes()[k]).index(canvas.width)
                != i,
{
    lemma_writes_are_the_dirty_cells(canvas);
    assert forall|k: int| 0 <= k < canvas.writes().len() implies (#[trigger] canvas.writes()[k]).index(
        canvas.width,
    ) != i by {
        assert(canvas.dirty(canvas.dirty_cells()[k]));
    }
}

/// While the repaint flag is set a presentation writes every cell of the
/// grid exactly once: the command at place `i` writes the cell of index
/// `i`, whatever the two frames hold.
pub proof fn lemma_repaint_writes_every_cell(canvas: Canvas)
    requires
        canvas.wf(),
        canvas.resized,
    ensures
        canvas.writes().len() == canvas.cells(),
        forall|i: int|
            0 <= i < canvas.cells() ==> {
                &&& #[trigger] canvas.writes()[i] == canvas.write_at(i)
                &&& canvas.writes()[i].index(canvas.width) == i
                &&& canvas.writes()[i].column == i % (canvas.width as int)
                &&& canvas.writes()[i].row == i / (canvas.width as int)
                &&& canvas.writes()[i].cell == canvas.back[i]
            },
{
    canvas.lemma_all_dirty(canvas.back.len());
    assert forall|i: int| 0 <= i < canvas.cells() implies {
        &&& #[trigger] canvas.writes()[i] == canvas.write_at(i)
        &&& canvas.writes()[i].index(canvas.width) == i
        &&& canvas.writes()[i].column == i % (canvas.width as int)
        &&& canvas.writes()[i].row == i / (canvas.width as int)
        &&& canvas.writes()[i].cell == canvas.back[i]
    } by {
        canvas.lemma_write_at_position(i);
    }
}

/// Full repaint: after a request for a size other than the current one,
/// the next presentation writes each of the `width * height` cells of the
/// new grid exactly once, whatever the frames held before and whatever
/// frame `back` the updates in between have drawn.
pub proof fn lemma_full_repaint_after_resize(
    canvas: Canvas,
    width: nat,
    height: nat,
    back: Seq<Cell>,
)
    requires
        canvas.wf(),
        width != canvas.width || height != canvas.height,
        width * height <= usize::MAX,
        back.len() == width * height,
    ensures
        ({
            let next = canvas.resized_to(width, height).painted(back);
            &&& next.wf()
            &&& next.writes().len() == width * height
            &&& forall|i: int|
                0 <= i < width * height ==> {
                    &&& #[trigger] next.writes()[i] == next.write_at(i)
                    &&& next.writes()[i].index(width) == i
                    &&& next.writes()[i].cell == back[i]
                }
        }),
{
    let next = canvas.resized_to(width, height).painted(back);
    lemma_repaint_writes_every_cell(next);
}

/// Diff suppression: take a cell that is the same in both frames when the
/// canvas is presented, and let the updates that follow leave it as the
/// presentation left it, with no change of size. Then the second
/// presentation does not write that cell.
///
/// The frames change places at a presentation, so a cell that differed
/// at the first one and is left untouched differs again at the second:
/// of such a cell nothing is claimed.
pub proof fn lemma_untouched_cell_is_not_rewritten(canvas: Canvas, back: Seq<Cell>, i: int)
    requires
        canvas.wf(),
        0 <= i < canvas.cells(),
        canvas.front[i] == canvas.back[i],
        back.len() == canvas.cells(),
        back[i] == canvas.presented().back[i],
    ensures
        ({
            let second = canvas.presented().painted(back);
            &&& second.wf()
            &&& forall|k: int|
                0 <= k < second.writes().len() ==> (#[trigger] second.writes()[k]).index(
                    second.width,
                ) != i
        }),
{
    let second = canvas.presented().painted(back);
    lemma_clean_cell_is_not_written(second, i);
}

/// A cell that an update draws again as it was last shown is not written
/// again, whether or not it was written before.
pub proof fn lemma_redrawn_cell_is_not_rewritten(canvas: Canvas, back: Seq<Cell>, i: int)
    requires
        canvas.wf(),
        0 <= i < canvas.cells(),
        back.len() == canvas.cells(),
        back[i] == canvas.back[i],
    ensures
        ({
            let second = canvas.presented().painted(back);
            &&& second.wf()
            &&& forall|k: int|
                0 <= k < second.writes().len() ==> (#[trigger] second.writes()[k]).index(
                    second.width,
                ) != i
        }),
{
    let second = canvas.presented().painted(back);
    lemma_clean_cell_is_not_written(second, i);
}

/// Drawing the frame that was just presented once more and presenting
/// again writes nothing.
pub proof fn lemma_same_frame_writes_nothing(canvas: Canvas)
    requires
        canvas.wf(),
    ensures
        canvas.presented().painted(canvas.back).writes() == Seq::<CellWrite>::empty(),
{
    let second = canvas.presented().painted(canvas.back);
    second.lemma_none_dirty(second.back.len());
    assert(second.writes() =~= Seq::<CellWrite>::empty());
}

/// A request for the size that the canvas has changes nothing: no frame
/// is replaced and the repaint flag is not set.
pub proof fn lemma_resize_to_same_size(canvas: Canvas)
    ensures
        canvas.resized_to(canvas.width, canvas.height) == canvas,
{
}

/// Two requests for one size in a row leave what the first one left.
pub proof fn lemma_resize_is_idempotent(canvas: Canvas, width: nat, height: nat)
    ensures
        canvas.resized_to(width, height).resized_to(width, height) == canvas.resized_to(
            width,
            height,
        ),
        canvas.resized_to(width, height).width == width,
        canvas.resized_to(width, height).height == height,
{
}

/// A request for the same size after a presentation does not bring the
/// full repaint back: a further presentation of the same frame writes
/// nothing.
pub proof fn lemma_same_size_keeps_suppression(canvas: Canvas)
    requires
        canvas.wf(),
    ensures
        ({
            let shown = canvas.presented().painted(canvas.back);
            let again = shown.presented().resized_to(canvas.width, canvas.height).painted(
                canvas.back,
            );
            &&& !again.resized
            &&& again.writes() == Seq::<CellWrite>::empty()
        }),
{
    let shown = canvas.presented().painted(canvas.back);
    let again = shown.presented().resized_to(canvas.width, canvas.height).painted(canvas.back);
    again.lemma_none_dirty(again.back.len());
    assert(again.writes() =~= Seq::<CellWrite>::empty());
}

/// Every operation keeps both frames at `width * height` cells.
pub proof fn lemma_operations_keep_the_frames(
    canvas: Canvas,
    width: nat,
    height: nat,
    back: Seq<Cell>,
)
    requires
        canvas.wf(),
        width * height <= usize::MAX,
        back.len() == canvas.cells(),
    ensures
        Canvas::empty().wf(),
        canvas.resized_to(width, height).wf(),
        canvas.painted(back).wf(),
        canvas.presented().wf(),
{
}

} // verus!
