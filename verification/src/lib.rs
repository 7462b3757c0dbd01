//! Orchestration core for a cluster of interactive blockchain worker
//! processes: a randomized peer-topology sampler, the text handling of a
//! synchronous console protocol, the phase state machine that sequences
//! spawn, connect and production start, and a round-robin transaction
//! load-test planner.

pub mod codec;
pub mod console;
pub mod controller;
pub mod errors;
pub mod loadtest;
pub mod node;
mod rng;
pub mod sampler;

use vstd::prelude::*;

verus! {

} // verus!
