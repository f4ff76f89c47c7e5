//! Static board geometry: cell coordinates, the detached-piece sentinel, and
//! the fixed light/dark colouring of the 64 squares.

use vstd::prelude::*;

verus! {

/// Number of cells along each side of the board.
pub const BOARD_SIZE: i32 = 8;

/// A cell address on the board. Valid on-board cells have both components in
/// `[0, BOARD_SIZE)`; `(-1, -1)` is the sentinel meaning "currently detached
/// from the grid" (a piece in mid-drag). Pointer translation never clamps, so
/// coordinates at or beyond `BOARD_SIZE` can occur and mean "off-board".
#[derive(Clone, Copy, PartialEq, Eq, Structural, Debug)]
pub struct Position {
    pub x: i32,
    pub y: i32,
}

impl Position {
    /// Whether this coordinate addresses one of the 64 on-board cells.
    pub open spec fn on_board(self) -> bool {
        &&& 0 <= self.x < BOARD_SIZE
        &&& 0 <= self.y < BOARD_SIZE
    }

    /// Whether this is the detached-from-the-grid sentinel.
    pub open spec fn is_sentinel(self) -> bool {
        self.x == -1 && self.y == -1
    }

    /// The sentinel coordinate held by a piece while it is being dragged.
    pub fn sentinel() -> (r: Position)
        ensures
            r == (Position { x: -1i32, y: -1i32 }),
            r.is_sentinel(),
    {
        Position { x: -1, y: -1 }
    }
}

/// The two square colours of the checkered board.
#[derive(Clone, Copy, PartialEq, Eq, Structural, Debug)]
pub enum Shade {
    Light,
    Dark,
}

/// The shade of the cell at `(x, y)`: light exactly when `(x + y + 1)` is even.
pub open spec fn spec_shade_of(x: int, y: int) -> Shade {
    if (x + y + 1) % 2 == 0 {
        Shade::Light
    } else {
        Shade::Dark
    }
}

/// The deterministic light/dark colouring of a cell, derived from
/// `(x + y + 1) mod 2`.
pub fn shade_of(x: i32, y: i32) -> (s: Shade)
    requires
        0 <= x < BOARD_SIZE,
        0 <= y < BOARD_SIZE,
    ensures
        s == spec_shade_of(x as int, y as int),
{
    if (x + y + 1) % 2 == 0 {
        Shade::Light
    } else {
        Shade::Dark
    }
}

/// A static, immutable cell descriptor: its coordinate plus its fixed shade.
/// Squares are created once at board setup and never mutated or destroyed.
#[derive(Clone, Copy, PartialEq, Eq, Structural, Debug)]
pub struct Square {
    pub pos: Position,
    pub shade: Shade,
}

/// The 64 squares of the board in setup order: `x` outer, `y` inner, so the
/// square at index `i` sits at `(i / 8, i % 8)`.
pub fn board_squares() -> (v: Vec<Square>)
    ensures
        v@.len() == 64,
        forall|i: int|
            0 <= i < 64 ==> v@[i] == (Square {
                pos: Position { x: (i / 8) as i32, y: (i % 8) as i32 },
                shade: spec_shade_of(i / 8, i % 8),
            }),
{
    let mut v: Vec<Square> = Vec::new();
    let mut x: i32 = 0;
    while x < 8
        invariant
            0 <= x <= 8,
            v@.len() == 8 * x,
            forall|i: int|
                0 <= i < v@.len() ==> v@[i] == (Square {
                    pos: Position { x: (i / 8) as i32, y: (i % 8) as i32 },
                    shade: spec_shade_of(i / 8, i % 8),
                }),
        decreases 8 - x,
    {
        let mut y: i32 = 0;
        while y < 8
            invariant
                0 <= x < 8,
                0 <= y <= 8,
                v@.len() == 8 * x + y,
                forall|i: int|
                    0 <= i < v@.len() ==> v@[i] == (Square {
                        pos: Position { x: (i / 8) as i32, y: (i % 8) as i32 },
                        shade: spec_shade_of(i / 8, i % 8),
                    }),
            decreases 8 - y,
        {
            let sq = Square { pos: Position { x, y }, shade: shade_of(x, y) };
            v.push(sq);
            assert((8 * x + y) / 8 == x && (8 * x + y) % 8 == y) by (nonlinear_arith)
                requires
                    0 <= x < 8,
                    0 <= y < 8,
            ;
            y = y + 1;
        }
        x = x + 1;
    }
    v
}

} // verus!
