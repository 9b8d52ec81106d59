//! Evaluation of positions in the second generation.
pub mod evaluate;
pub mod laws;
pub mod prices;
