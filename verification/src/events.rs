//! Terminal events and what the canvas does on them.

use vstd::prelude::*;
use crate::buffer::Buffer;
use crate::canvas::Canvas;
use crate::painter::Painter;

verus! {

/// An event of the terminal, as far as the display cares.
#[derive(Clone, Copy, Debug, PartialEq, Eq, Structural)]
pub enum Event {
    /// The user asked to leave.
    Quit,
    /// The terminal now has `width` columns and `height` rows.
    Resize { width: u16, height: u16 },
    /// Anything else.
    Other,
}

/// What is left to do outside the canvas once the pending events have
/// been applied.
#[derive(Clone, Copy, Debug, PartialEq, Eq, Structural)]
pub struct Outcome {
    /// Whether the user asked to leave.
    pub quit: bool,
    /// The transform size to rebuild the spectrum state for: the width
    /// of the last change of size, if there was one.
    pub rebuild: Option<usize>,
}

impl Event {
    /// The event that a character key stands for: `q` asks to leave, and
    /// so does `c` where `control` says that Control, and no other
    /// modifier, is held.
    pub open spec fn spec_from_key(symbol: char, control: bool) -> Event {
        if symbol == 'q' || (symbol == 'c' && control) {
            Event::Quit
        } else {
            Event::Other
        }
    }

    #[verifier::when_used_as_spec(spec_from_key)]
    pub fn from_key(symbol: char, control: bool) -> (event: Event)
        ensures
            event == Event::spec_from_key(symbol, control),
    {
        if symbol == 'q' || (symbol == 'c' && control) {
            Event::Quit
        } else {
            Event::Other
        }
    }
}

/// The canvas after one event: a change of size is passed on to it,
/// nothing else touches it.
pub open spec fn canvas_after(canvas: Canvas, event: Event) -> Canvas {
    match event {
        Event::Resize { width, height } => canvas.resized_to(width as nat, height as nat),
        _ => canvas,
    }
}

/// The outcome after one more event.
pub open spec fn outcome_after(outcome: Outcome, event: Event) -> Outcome {
    match event {
        Event::Quit => Outcome { quit: true, ..outcome },
        Event::Resize { width, height } => Outcome { rebuild: Some(width as usize), ..outcome },
        Event::Other => outcome,
    }
}

/// The canvas after the events, taken in order.
pub open spec fn canvas_after_all(canvas: Canvas, events: Seq<Event>) -> Canvas
    decreases events.len(),
{
    if events.len() == 0 {
        canvas
    } else {
        canvas_after(canvas_after_all(canvas, events.drop_last()), events.last())
    }
}

/// The outcome of the events, taken in order.
pub open spec fn outcome_of(events: Seq<Event>) -> Outcome
    decreases events.len(),
{
    if events.len() == 0 {
        Outcome { quit: false, rebuild: None }
    } else {
        outcome_after(outcome_of(events.drop_last()), events.last())
    }
}

/// Applies one event to the canvas and folds it into `outcome`.
pub fn apply<P: Painter>(canvas: &mut Buffer<P>, outcome: Outcome, event: Event) -> (next: Outcome)
    requires
        old(canvas).wf(),
    ensures
        final(canvas).wf(),
        final(canvas)@ == canvas_after(old(canvas)@, event),
        final(canvas).painter() == old(canvas).painter(),
        next == outcome_after(outcome, event),
{
    match event {
        Event::Quit => Outcome { quit: true, rebuild: outcome.rebuild },
        Event::Resize { width, height } => {
            assert(width * height <= usize::MAX) by (nonlinear_arith)
                requires
                    0 <= width <= 0xffff,
                    0 <= height <= 0xffff,
                    usize::MAX >= 0xffff_ffff,
            ;
            canvas.resize(width as usize, height as usize);
            Outcome { quit: outcome.quit, rebuild: Some(width as usize) }
        },
        Event::Other => outcome,
    }
}

/// Applies the pending events in order. This is done at the start of a
/// period, so that what is drawn in it has the size of the last change.
pub fn drain<P: Painter>(canvas: &mut Buffer<P>, events: &Vec<Event>) -> (outcome: Outcome)
    requires
        old(canvas).wf(),
    ensures
        final(canvas).wf(),
        final(canvas)@ == canvas_after_all(old(canvas)@, events@),
        final(canvas).painter() == old(canvas).painter(),
        outcome == outcome_of(events@),
{
    let mut outcome = Outcome { quit: false, rebuild: None };
    let mut i: usize = 0;
    while i < events.len()
        invariant
            i <= events@.len(),
            canvas.wf(),
            canvas@ == canvas_after_all(old(canvas)@, events@.take(i as int)),
            canvas.painter() == old(canvas).painter(),
            outcome == outcome_of(events@.take(i as int)),
        decreases events@.len() - i,
    {
        assert(events@.take(i + 1).drop_last() =~= events@.take(i as int));
        outcome = apply(canvas, outcome, events[i]);
        i += 1;
    }
    assert(events@.take(i as int) =~= events@);
    outcome
}

/// The last change of size decides: after the events the canvas has the
/// size of the last `Resize` among them, and the outcome asks for a
/// rebuild at its width. Without one the canvas is as it was and nothing
/// is to be rebuilt.
pub proof fn lemma_last_resize_wins(canvas: Canvas, events: Seq<Event>)
    ensures
        match outcome_of(events).rebuild {
            Some(size) => exists|k: int|
                0 <= k < events.len() && #[trigger] is_last_resize(events, k) && size
                    == events[k]->width && canvas_after_all(canvas, events).width
                    == events[k]->width && canvas_after_all(canvas, events).height
                    == events[k]->height,
            None => canvas_after_all(canvas, events) == canvas && forall|k: int|
                0 <= k < events.len() ==> !(#[trigger] events[k] is Resize),
        },
        outcome_of(events).quit <==> exists|k: int|
            0 <= k < events.len() && #[trigger] events[k] is Quit,
    decreases events.len(),
{
    if events.len() > 0 {
        let rest = events.drop_last();
        let n = events.len() - 1;
        lemma_last_resize_wins(canvas, rest);
        match events.last() {
            Event::Resize { width, height } => {
                assert(is_last_resize(events, n));
            },
            _ => {
                match outcome_of(rest).rebuild {
                    Some(size) => {
                        let k = choose|k: int|
                            0 <= k < rest.len() && #[trigger] is_last_resize(rest, k) && size
                                == rest[k]->width && canvas_after_all(canvas, rest).width
                                == rest[k]->width && canvas_after_all(canvas, rest).height
                                == rest[k]->height;
                        assert(events[k] == rest[k]);
                        assert forall|j: int| k < j < events.len() implies !(
                        #[trigger] events[j] is Resize) by {
                            if j < n {
                                assert(rest[j] == events[j]);
                            }
                        }
                        assert(is_last_resize(events, k));
                    },
                    None => {
                        assert forall|k: int| 0 <= k < events.len() implies !(
                        #[trigger] events[k] is Resize) by {
                            if k < n {
                                assert(rest[k] == events[k]);
                            }
                        }
                    },
                }
            },
        }
        if outcome_of(rest).quit {
            let k = choose|k: int| 0 <= k < rest.len() && #[trigger] rest[k] is Quit;
            assert(events[k] is Quit);
        }
        if events.last() is Quit {
            assert(events[n] is Quit);
        }
        if exists|k: int| 0 <= k < events.len() && #[trigger] events[k] is Quit {
            let k = choose|k: int| 0 <= k < events.len() && #[trigger] events[k] is Quit;
            if k < n {
                assert(rest[k] is Quit);
            }
        }
    }
}

/// Whether the event at `k` is a change of size with none after it.
pub open spec fn is_last_resize(events: Seq<Event>, k: int) -> bool {
    &&& 0 <= k < events.len()
    &&& events[k] is Resize
    &&& forall|j: int| k < j < events.len() ==> !(#[trigger] events[j] is Resize)
}

} // verus!
