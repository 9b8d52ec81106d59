//! The statistics tree behind Monte Carlo tree search with simultaneous moves.
pub mod node;
pub mod sampling;
pub mod path;
pub mod update;
pub mod whole;
pub mod tree;
pub mod leaf;
pub mod batch;
pub mod flight;
pub mod ledger;
pub mod descent;
pub mod chance;
pub mod schedule;
pub mod facts;
