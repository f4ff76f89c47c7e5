//! The typed tokens placed on the board and the catalog triple
//! (type, army, colour) the rendering collaborator resolves assets from.

use vstd::prelude::*;
use crate::board::Position;

verus! {

/// The six piece types a piece can have.
#[derive(Clone, Copy, PartialEq, Eq, Structural, Debug)]
pub enum PieceType {
    King,
    Queen,
    Rook,
    Bishop,
    Knight,
    Pawn,
}

/// The six armies (visual/piece-type theme sets) pieces can be drawn from.
#[derive(Clone, Copy, PartialEq, Eq, Structural, Debug)]
pub enum Army {
    Classic,
    Nemesis,
    Empowered,
    Reaper,
    TwoKings,
    Animals,
}

/// The two colours a piece can be drawn in.
#[derive(Clone, Copy, PartialEq, Eq, Structural, Debug)]
pub enum PieceColor {
    White,
    Black,
}

/// A piece on the board: a stable identity handle, its current cell (the
/// sentinel while mid-drag), and the catalog triple the renderer draws it
/// with. At most one piece occupies a given on-board cell at quiescence.
#[derive(Clone, Copy, PartialEq, Eq, Structural, Debug)]
pub struct Piece {
    pub id: u64,
    pub pos: Position,
    pub kind: PieceType,
    pub army: Army,
    pub color: PieceColor,
}

} // verus!
