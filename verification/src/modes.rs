//! The cursor-mode state machine and the auxiliary army/colour selections,
//! all driven by key press edges.

use vstd::prelude::*;
use crate::pieces::{Army, PieceColor, PieceType};

verus! {

/// The active interaction mode: free drag-and-drop editing, erase mode, or
/// place-a-specific-piece-type mode. Exactly one is active at a time.
#[derive(Clone, Copy, PartialEq, Eq, Structural, Debug)]
pub enum CursorMode {
    DragDrop,
    Trash,
    Place(PieceType),
}

/// The key press edges of one tick. Each field is true exactly when that key
/// went from not-pressed to pressed this tick; holding a key sets no edge.
#[derive(Clone, Copy, PartialEq, Eq, Structural, Debug, Default)]
pub struct KeyEdges {
    pub digit0: bool,
    pub digit1: bool,
    pub digit2: bool,
    pub digit3: bool,
    pub digit4: bool,
    pub digit5: bool,
    pub digit6: bool,
    pub digit7: bool,
    pub numpad0: bool,
    pub numpad1: bool,
    pub numpad2: bool,
    pub numpad3: bool,
    pub numpad4: bool,
    pub numpad5: bool,
    pub numpad6: bool,
    pub numpad7: bool,
    pub key_a: bool,
    pub key_d: bool,
    pub arrow_left: bool,
    pub arrow_right: bool,
    pub space: bool,
}

/// The mode selected by this tick's key edges. Each digit key pairs with its
/// numpad twin through an exclusive-or gate, so pressing both in one tick
/// cancels. The checks run in the fixed order 1, 0, 2..7 and each overwrites
/// the previous, so when two different mode keys fire in one tick the last
/// one evaluated wins. While the primary button is held every transition is
/// suppressed, so the mode cannot change mid-drag.
pub open spec fn spec_mode_after(m: CursorMode, k: KeyEdges, left_pressed: bool) -> CursorMode {
    if left_pressed {
        m
    } else {
        let m1 = if k.digit1 != k.numpad1 {
            CursorMode::DragDrop
        } else {
            m
        };
        let m2 = if k.digit0 != k.numpad0 {
            CursorMode::Trash
        } else {
            m1
        };
        let m3 = if k.digit2 != k.numpad2 {
            CursorMode::Place(PieceType::King)
        } else {
            m2
        };
        let m4 = if k.digit3 != k.numpad3 {
            CursorMode::Place(PieceType::Queen)
        } else {
            m3
        };
        let m5 = if k.digit4 != k.numpad4 {
            CursorMode::Place(PieceType::Rook)
        } else {
            m4
        };
        let m6 = if k.digit5 != k.numpad5 {
            CursorMode::Place(PieceType::Bishop)
        } else {
            m5
        };
        let m7 = if k.digit6 != k.numpad6 {
            CursorMode::Place(PieceType::Knight)
        } else {
            m6
        };
        if k.digit7 != k.numpad7 {
            CursorMode::Place(PieceType::Pawn)
        } else {
            m7
        }
    }
}

/// Applies this tick's mode-key edges to the current mode.
pub fn next_mode(m: CursorMode, k: &KeyEdges, left_pressed: bool) -> (r: CursorMode)
    ensures
        r == spec_mode_after(m, *k, left_pressed),
{
    if left_pressed {
        return m;
    }
    let mut r = m;
    if k.digit1 != k.numpad1 {
        r = CursorMode::DragDrop;
    }
    if k.digit0 != k.numpad0 {
        r = CursorMode::Trash;
    }
    if k.digit2 != k.numpad2 {
        r = CursorMode::Place(PieceType::King);
    }
    if k.digit3 != k.numpad3 {
        r = CursorMode::Place(PieceType::Queen);
    }
    if k.digit4 != k.numpad4 {
        r = CursorMode::Place(PieceType::Rook);
    }
    if k.digit5 != k.numpad5 {
        r = CursorMode::Place(PieceType::Bishop);
    }
    if k.digit6 != k.numpad6 {
        r = CursorMode::Place(PieceType::Knight);
    }
    if k.digit7 != k.numpad7 {
        r = CursorMode::Place(PieceType::Pawn);
    }
    r
}

/// The piece type a `Place` mode creates. Every mode outside `Place(..)`
/// falls to the explicit default arm and yields a pawn; the placement
/// dispatch keeps that rule deliberately rather than treating an unmatched
/// mode as an error.
pub open spec fn spec_place_kind(m: CursorMode) -> PieceType {
    match m {
        CursorMode::Place(k) => k,
        _ => PieceType::Pawn,
    }
}

/// The piece type placement creates for the current mode, with the
/// deliberate default-to-pawn arm for every mode the dispatch does not
/// match.
pub fn place_kind(m: CursorMode) -> (k: PieceType)
    ensures
        k == spec_place_kind(m),
{
    match m {
        CursorMode::Place(k) => k,
        _ => PieceType::Pawn,
    }
}

/// The fixed ordered army catalog, by index.
pub open spec fn spec_army_at(i: int) -> Army {
    if i == 0 {
        Army::Classic
    } else if i == 1 {
        Army::Nemesis
    } else if i == 2 {
        Army::Empowered
    } else if i == 3 {
        Army::Reaper
    } else if i == 4 {
        Army::TwoKings
    } else {
        Army::Animals
    }
}

/// One wrapping step down the army catalog.
pub open spec fn spec_army_dec(i: int) -> int {
    if i == 0 {
        5
    } else {
        i - 1
    }
}

/// One wrapping step up the army catalog.
pub open spec fn spec_army_inc(i: int) -> int {
    (i + 1) % 6
}

/// Whether this tick's keys decrement the army selection: left/A pressed
/// and neither right nor D pressed.
pub open spec fn spec_army_dec_gate(k: KeyEdges) -> bool {
    (k.key_a || k.arrow_left) && !(k.key_d || k.arrow_right)
}

/// Whether this tick's keys increment the army selection: right/D pressed
/// and neither left nor A pressed. The two gates are exact mirrors, so any
/// simultaneous press of opposite keys cancels: no change.
pub open spec fn spec_army_inc_gate(k: KeyEdges) -> bool {
    (k.key_d || k.arrow_right) && !(k.key_a || k.arrow_left)
}

/// The army index after one tick of key edges.
pub open spec fn spec_army_index_after(i: int, k: KeyEdges) -> int {
    if spec_army_dec_gate(k) {
        spec_army_dec(i)
    } else if spec_army_inc_gate(k) {
        spec_army_inc(i)
    } else {
        i
    }
}

/// The army selection: an index into the fixed six-element catalog, cycled
/// with wrap-around by the left/A and right/D key edges.
#[derive(Clone, Copy, PartialEq, Eq, Structural, Debug)]
pub struct ArmySelection {
    pub index: usize,
}

impl ArmySelection {
    pub open spec fn wf(self) -> bool {
        self.index < 6
    }

    /// The selection at startup: the first army of the catalog.
    pub fn start() -> (s: ArmySelection)
        ensures
            s.index == 0,
            s.wf(),
    {
        ArmySelection { index: 0 }
    }

    /// The army the selection currently points at.
    pub fn army(&self) -> (a: Army)
        requires
            self.wf(),
        ensures
            a == spec_army_at(self.index as int),
    {
        if self.index == 0 {
            Army::Classic
        } else if self.index == 1 {
            Army::Nemesis
        } else if self.index == 2 {
            Army::Empowered
        } else if self.index == 3 {
            Army::Reaper
        } else if self.index == 4 {
            Army::TwoKings
        } else {
            Army::Animals
        }
    }

    /// Applies this tick's army-cycling key edges.
    pub fn step(&mut self, k: &KeyEdges)
        requires
            old(self).wf(),
        ensures
            final(self).index == spec_army_index_after(old(self).index as int, *k),
            final(self).wf(),
    {
        if (k.key_a || k.arrow_left) && !(k.key_d || k.arrow_right) {
            self.index = if self.index == 0 {
                5
            } else {
                self.index - 1
            };
        } else if (k.key_d || k.arrow_right) && !(k.key_a || k.arrow_left) {
            self.index = (self.index + 1) % 6;
        }
    }
}

/// Mode cycling wraps downward: from the first army, one decrement selects
/// the last army of the six-element catalog.
pub proof fn lemma_army_decrement_wraps()
    ensures
        spec_army_dec(0) == 5,
        spec_army_at(spec_army_dec(0)) == Army::Animals,
{
}

/// Mode cycling wraps around: from any index, six increments return to the
/// original index.
pub proof fn lemma_army_increment_cycle(i: int)
    requires
        0 <= i < 6,
    ensures
        spec_army_inc(
            spec_army_inc(spec_army_inc(spec_army_inc(spec_army_inc(spec_army_inc(i))))),
        ) == i,
{
}

/// The colour index after one tick: the dedicated toggle key steps through
/// the two-element colour list with wrap-around index arithmetic.
pub open spec fn spec_color_index_after(i: int, k: KeyEdges) -> int {
    if k.space {
        if i == 0 {
            1
        } else {
            i - 1
        }
    } else {
        i
    }
}

/// The colour of the two-element list at index `i`.
pub open spec fn spec_color_at(i: int) -> PieceColor {
    if i == 0 {
        PieceColor::White
    } else {
        PieceColor::Black
    }
}

/// The colour selection for newly placed pieces: toggled between the two
/// catalog colours by the space key's press edge.
#[derive(Clone, Copy, PartialEq, Eq, Structural, Debug)]
pub struct ColorSelection {
    pub index: usize,
}

impl ColorSelection {
    pub open spec fn wf(self) -> bool {
        self.index < 2
    }

    /// The selection at startup: white.
    pub fn start() -> (s: ColorSelection)
        ensures
            s.index == 0,
            s.wf(),
    {
        ColorSelection { index: 0 }
    }

    /// The colour the selection currently points at.
    pub fn color(&self) -> (c: PieceColor)
        requires
            self.wf(),
        ensures
            c == spec_color_at(self.index as int),
    {
        if self.index == 0 {
            PieceColor::White
        } else {
            PieceColor::Black
        }
    }

    /// Applies this tick's colour-toggle key edge.
    pub fn step(&mut self, k: &KeyEdges)
        requires
            old(self).wf(),
        ensures
            final(self).index == spec_color_index_after(old(self).index as int, *k),
            final(self).wf(),
    {
        if k.space {
            self.index = if self.index == 0 {
                1
            } else {
                self.index - 1
            };
        }
    }
}

/// Whether this tick's keyboard state requests a screenshot: either control
/// key held together with a fresh press of the capture key.
pub fn screenshot_requested(ctrl_left: bool, ctrl_right: bool, capture_edge: bool) -> (r: bool)
    ensures
        r == ((ctrl_left || ctrl_right) && capture_edge),
{
    (ctrl_left || ctrl_right) && capture_edge
}

} // verus!
