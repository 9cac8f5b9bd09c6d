//! Brute-force search for integers whose SHA-256 digest, written in
//! hexadecimal, ends in a required number of `'0'` characters.
//!
//! The library holds the digest evaluator and the decisions of the search:
//! what a worker does with a claimed candidate, and what the coordinator does
//! with a delivered match. Threads, the shared counter, the channel and the
//! console belong to the program that drives these state machines; the
//! module `protocol` says what holds of every way in which it may drive them.

pub mod config;
pub mod coordinator;
pub mod encoding;
pub mod evaluator;
pub mod protocol;
pub mod worker;

pub use config::{validate_args, Args};
pub use coordinator::{Coordinator, CLAIM_STEP, FIRST_CANDIDATE};
pub use evaluator::{calculate_hash, has_required_zeros};
pub use worker::{hash_worker, WorkerAction, WorkerEvent};
