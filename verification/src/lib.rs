//! Proof-gated mission tracking: mission creation and capacity tracking,
//! session orchestration against a game-session collaborator, score
//! accumulation, proof-gated completion, leaderboard and rank maintenance,
//! and immutable trail evidence recording.
//!
//! Every mutating operation takes the acting principal (an authenticated
//! identity, represented as a `u64`) as an explicit argument; the host that
//! authenticates principals is outside this crate.

pub mod game_hub;
pub mod registry;
pub mod trails;
pub mod zk_verifier;
