//! A falling-block puzzle game as a library: the playfield, the pieces, the
//! piece queue and the engine that advances a game by fixed ticks.
//!
//! The library reads no keys, draws no random numbers and paints nothing.
//! A tick is handed the keys and the draws that it may use, and a frame is
//! handed back as rectangles to paint.

pub mod block;
pub mod engine;
pub mod grid;
pub mod queue;
pub mod render;
pub mod score;
