//! A verified decision core for a monster-battle engine: exact position
//! evaluation, the statistics tree behind Monte Carlo tree search, game
//! bookkeeping, and the feature encoders that feed policy and value networks.
//!
//! All quantities are exact. Scores and features are fractions
//! ([`numbers::Ratio`]) whose contracts are stated over the mathematical reals;
//! chances and rollout results are fixed-point integers. What needs a square
//! root, a logarithm or a network is left to the caller, which hands back plain
//! integers.
pub mod numbers;
pub mod types;
pub mod state;
pub mod text;
pub mod genx;
pub mod gen2;
pub mod matchup;
pub mod stages;
pub mod mcts;
pub mod game;
pub mod policy;
