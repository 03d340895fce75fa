//! A Schelling-point dispute game: a time-gated period state machine, juror
//! admission and weighted drawing, commit-reveal voting (binary and scalar)
//! and incentive settlement.
//!
//! The weighted sortition tree, the currency ledger and the randomness
//! beacon are collaborators of the host: the engine tells the host what to
//! credit or register, and the host hands back what those services answered.

pub mod types;
pub mod game;
pub mod period;
pub mod jurors;
pub mod encoding;
pub mod hashing;
pub mod binary_vote;
pub mod score_vote;
pub mod stats;
pub mod incentives;
pub mod laws;
