use vstd::prelude::*;
use crate::util::GridCoords;

verus! {

/// The cell the player points at while browsing.
#[derive(Clone, Copy, Debug, Default, PartialEq, Eq, Structural)]
pub struct Cursor {
    pub position: GridCoords,
}

/// The unit, by registry index, whose path is being drawn.
#[derive(Clone, Copy, Debug, PartialEq, Eq, Structural)]
pub struct Targeted {
    pub unit: usize,
}

} // verus!
