//! Rendering-support and edit-history core of a terminal text editor:
//! display-column-accurate string metrics, viewport position arithmetic,
//! and a reversible history of edit events.
use vstd::prelude::*;

pub mod terminal;
pub mod undo;
pub mod util;

verus! {

/// A zero-based document coordinate: grapheme column `x` on line row `y`.
#[derive(Clone, Copy, Debug, PartialEq, Eq, Structural)]
pub struct Position {
    pub x: usize,
    pub y: usize,
}

} // verus!
