//! What policy and value networks read, and what becomes of their answers.
pub mod moves;
pub mod chart;
pub mod v2;
pub mod v2_places;
pub mod v3;
pub mod v3_places;
pub mod bulky;
pub mod bulky_places;
pub mod material;
pub mod priors;
pub mod value;
