//! The drag-and-drop subsystem's persistent state: the single held-piece
//! slot and the drag highlight paired with it.

use vstd::prelude::*;
use crate::board::Position;

verus! {

/// The drag subsystem. Its single slot enforces drag exclusivity (at most
/// one piece detached at a time), and the paired highlight exists exactly
/// while a drag is in progress: created on pickup, destroyed on the matching
/// drop.
#[derive(Clone, Copy, PartialEq, Eq, Structural, Debug)]
pub struct DragPlugin {
    /// Handle of the piece currently held, if a drag is in progress.
    pub held: Option<u64>,
    /// Cell of the drag highlight: the grid cell under the pointer at
    /// pickup.
    pub highlight: Option<Position>,
}

impl DragPlugin {
    /// Highlight pairing: a drag highlight exists iff a drag is in progress.
    pub open spec fn wf(self) -> bool {
        self.held is Some <==> self.highlight is Some
    }

    /// The idle subsystem: nothing held, no highlight.
    pub fn idle() -> (d: DragPlugin)
        ensures
            d == (DragPlugin { held: None::<u64>, highlight: None::<Position> }),
            d.wf(),
    {
        DragPlugin { held: None, highlight: None }
    }

    /// Whether a drag is in progress.
    pub fn is_dragging(&self) -> (b: bool)
        ensures
            b == (self.held is Some),
    {
        self.held.is_some()
    }
}

} // verus!
