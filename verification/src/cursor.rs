//! Pointer translation: the latest pointer-moved event of a tick, converted
//! to a centre-relative pixel offset (for free-following drag visuals) and a
//! discrete grid coordinate.

use vstd::prelude::*;
use crate::board::Position;

verus! {

/// Largest window dimension, in pixels, the translator accepts.
pub const MAX_WINDOW_DIM: u32 = 65536;

/// A raw pointer-moved event: the pointer's position in window pixel space,
/// with the origin at the window's lower-left corner.
#[derive(Clone, Copy, PartialEq, Eq, Structural, Debug)]
pub struct PointerMove {
    pub x: u32,
    pub y: u32,
}

/// The last known pointer position of the session: its offset from the
/// window centre in whole pixels, and the grid cell it falls in. Grid
/// components are never clamped; values at or past the board edge mean
/// "off-board".
#[derive(Clone, Copy, PartialEq, Eq, Structural, Debug)]
pub struct CursorPos {
    pub cursor_x: i32,
    pub cursor_y: i32,
    pub grid: Position,
}

/// The translation of one pointer event under a `w` by `h` window: the
/// centre-relative offset, and per axis the cell index
/// `floor(pixel / (dimension / 8))`, written here over the integers as
/// `8 * pixel / dimension`.
pub open spec fn spec_sample(m: PointerMove, w: u32, h: u32) -> CursorPos {
    CursorPos {
        cursor_x: (m.x as int - (w / 2) as int) as i32,
        cursor_y: (m.y as int - (h / 2) as int) as i32,
        grid: Position {
            x: (8 * m.x as int / w as int) as i32,
            y: (8 * m.y as int / h as int) as i32,
        },
    }
}

/// The cursor state after a tick: only the last pointer-moved event of the
/// tick is sampled; with no event the previous sample stands.
pub open spec fn spec_cursor_after(c: CursorPos, moves: Seq<PointerMove>, w: u32, h: u32) -> CursorPos {
    if moves.len() == 0 {
        c
    } else {
        spec_sample(moves.last(), w, h)
    }
}

/// Bounds every sample satisfies, and the initial state too: the offset fits
/// in half a maximal window, the grid cell in `[0, 8]` per axis.
pub open spec fn cursor_in_range(c: CursorPos) -> bool {
    &&& -0x8000 <= c.cursor_x <= 0x8000
    &&& -0x8000 <= c.cursor_y <= 0x8000
    &&& 0 <= c.grid.x <= 8
    &&& 0 <= c.grid.y <= 8
}

impl CursorPos {
    /// The state before any pointer event has been seen.
    pub fn start() -> (c: CursorPos)
        ensures
            c == (CursorPos { cursor_x: 0i32, cursor_y: 0i32, grid: Position { x: 0i32, y: 0i32 } }),
            cursor_in_range(c),
    {
        CursorPos { cursor_x: 0, cursor_y: 0, grid: Position { x: 0, y: 0 } }
    }

    /// Folds a tick's pointer-moved events into the cursor state. Only the
    /// last event is used: intermediate moves within the tick are discarded,
    /// not queued.
    pub fn observe(&mut self, moves: &Vec<PointerMove>, w: u32, h: u32)
        requires
            1 <= w <= MAX_WINDOW_DIM,
            1 <= h <= MAX_WINDOW_DIM,
            forall|i: int|
                0 <= i < moves@.len() ==> (#[trigger] moves@[i]).x <= w && moves@[i].y <= h,
            cursor_in_range(*old(self)),
        ensures
            *final(self) == spec_cursor_after(*old(self), moves@, w, h),
            cursor_in_range(*final(self)),
    {
        let n = moves.len();
        if n > 0 {
            let m = moves[n - 1];
            assert(m == moves@.last());
            let gx = 8 * (m.x as u64) / (w as u64);
            let gy = 8 * (m.y as u64) / (h as u64);
            assert(8 * m.x as int / w as int <= 8 && 8 * m.y as int / h as int <= 8)
                by (nonlinear_arith)
                requires
                    m.x <= w,
                    m.y <= h,
                    1 <= w,
                    1 <= h,
            ;
            self.cursor_x = (m.x as i64 - (w / 2) as i64) as i32;
            self.cursor_y = (m.y as i64 - (h / 2) as i64) as i32;
            self.grid = Position { x: gx as i32, y: gy as i32 };
        }
    }
}

} // verus!
