//! Board-state and interaction core of an 8x8 grid board editor.
//!
//! The library owns the logical model of the board: which cells the typed
//! pieces occupy, the cursor-mode state machine, the translation of raw
//! pointer input to grid coordinates, and the per-tick decision logic that
//! keeps occupancy, drag previews, highlights and markers consistent under
//! arbitrary interleavings of mouse and keyboard input. Rendering, asset
//! loading and window management live outside; they consume the coordinates
//! and catalog triples this core produces.

pub mod board;
pub mod cursor;
pub mod drag;
pub mod events;
pub mod grid;
pub mod modes;
pub mod pieces;
pub mod pipeline;
