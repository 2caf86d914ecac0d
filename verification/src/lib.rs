//! A double-buffered terminal canvas for a spectrum display.
//!
//! The canvas keeps two frames of cells, the one last shown and the one
//! being drawn, and on each presentation hands out only the cells that
//! have to be written to the terminal.

pub mod bars;
pub mod buffer;
pub mod canvas;
pub mod cell;
pub mod events;
pub mod laws;
pub mod painter;
pub mod period;
