//! Game logic of a single-player memory-matching game: an entropy accumulator,
//! board construction from a seeded generator, the two-step reveal protocol and
//! the read-only views of a match.
pub mod board;
pub mod entropy;
pub mod game;
pub mod generator;
pub mod laws;
pub mod msg;
pub mod query;
