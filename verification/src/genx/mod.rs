//! Evaluation of positions in the modern generations.
pub mod switches;
pub mod pokemon;
pub mod prices;
pub mod worth;
pub mod matchups;
pub mod hits;
pub mod active;
pub mod formula;
pub mod threat;
pub mod evaluate;
pub mod laws;
pub mod locks;
pub mod uses;
pub mod overlord;
