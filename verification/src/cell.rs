//! Cells: one character with its colours.

use vstd::prelude::*;

verus! {

/// A terminal colour.
#[derive(Clone, Copy, Debug, PartialEq, Eq, Structural)]
pub enum Color {
    Reset,
    Black,
    DarkGrey,
    Red,
    DarkRed,
    Green,
    DarkGreen,
    Yellow,
    DarkYellow,
    Blue,
    DarkBlue,
    Magenta,
    DarkMagenta,
    Cyan,
    DarkCyan,
    White,
    Grey,
    Rgb { r: u8, g: u8, b: u8 },
    AnsiValue(u8),
}

/// One character of the display with its colours. `None` leaves the
/// terminal's own colour in place.
#[derive(Clone, Copy, Debug, PartialEq, Eq, Structural)]
pub struct Cell {
    pub symbol: char,
    pub foreground: Option<Color>,
    pub background: Option<Color>,
}

impl Cell {
    /// The cell that a fresh frame is filled with: a space in the
    /// terminal's own colours.
    pub open spec fn spec_blank() -> Cell {
        Cell { symbol: ' ', foreground: None, background: None }
    }

    /// A space on the given background colour.
    pub open spec fn spec_on(color: Color) -> Cell {
        Cell { symbol: ' ', foreground: None, background: Some(color) }
    }

    #[verifier::when_used_as_spec(spec_blank)]
    pub fn blank() -> (cell: Cell)
        ensures
            cell == Cell::spec_blank(),
    {
        Cell { symbol: ' ', foreground: None, background: None }
    }

    #[verifier::when_used_as_spec(spec_on)]
    pub fn on(color: Color) -> (cell: Cell)
        ensures
            cell == Cell::spec_on(color),
    {
        Cell { symbol: ' ', foreground: None, background: Some(color) }
    }
}

} // verus!
