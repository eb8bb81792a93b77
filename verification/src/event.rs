//! Edge-triggered transition notifications, consumed by the presentation
//! layer within the tick that emits them.

use vstd::prelude::*;

use crate::region::{BoardRef, CellRef};

verus! {

/// A hover or activation edge for one region.
#[derive(Clone, Copy, Debug, PartialEq, Eq, Structural)]
pub enum Transition {
    CellEntered(CellRef),
    CellExited(CellRef),
    BoardEntered(BoardRef),
    BoardExited(BoardRef),
    BoardActivated(BoardRef),
    BoardDeactivated(BoardRef),
}

} // verus!
