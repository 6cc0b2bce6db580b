//! A coverage-guided fuzzing core: corpus stores, feedbacks, schedulers,
//! minimization and the decisions of the fuzzing loop, each with a contract.
use vstd::prelude::*;

pub mod cli;
pub mod corpus;
mod digest;
pub mod emu;
pub mod error;
pub mod events;
pub mod feedback;
pub mod fuzzer;
pub mod level;
pub mod minimizer;
pub mod mips;
pub mod mutational;
pub mod mutators;
pub mod restart;
pub mod runtime;
pub mod scheduler;
pub mod stage;
pub mod tmin;
pub mod tracing;

verus! {

} // verus!
