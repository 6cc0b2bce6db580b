//! The mutational stage: a random number of havoc mutants of the scheduled
//! entry per round.
use vstd::prelude::*;

use crate::error::Error;
use crate::fuzzer::FuzzerState;
use crate::mutators::{havoc, romu_step, spec_havoc, token_seqs, MutationResult, StdRand};

verus! {

/// The default upper bound of mutants per round.
pub const DEFAULT_MUTATIONAL_MAX_ITERATIONS: u64 = 128;

/// Mutates the scheduled entry's input a random number of times per round.
#[derive(Clone, Copy, Debug, PartialEq, Eq, Structural)]
pub struct StdMutationalStage {
    pub max_iterations: u64,
}

impl StdMutationalStage {
    pub fn new() -> (r: StdMutationalStage)
        ensures
            r.max_iterations == DEFAULT_MUTATIONAL_MAX_ITERATIONS,
    {
        StdMutationalStage { max_iterations: DEFAULT_MUTATIONAL_MAX_ITERATIONS }
    }

    /// How many mutants this round tries: between 1 and the bound.
    pub fn iterations(&self, rand: &mut StdRand) -> (r: u64)
        requires
            self.max_iterations > 0,
        ensures
            1 <= r <= self.max_iterations,
            r == 1 + romu_step(old(rand).x, old(rand).y).0 % self.max_iterations,
            final(rand).x == romu_step(old(rand).x, old(rand).y).1,
            final(rand).y == romu_step(old(rand).x, old(rand).y).2,
    {
        1 + rand.below(self.max_iterations)
    }

    /// A mutant of the scheduled entry's input, within the state's max size,
    /// or `None` when havoc declined. Without a scheduled entry this is an
    /// illegal state, and with a cursor on a missing entry `KeyNotFound`.
    pub fn mutant(&self, state: &FuzzerState, tokens: &Vec<Vec<u8>>, rand: &mut StdRand) -> (r: Result<Option<Vec<u8>>, Error>)
        requires
            state.wf(),
        ensures
            r.is_ok() <==> state.corpus@.current.is_some() && state.corpus@.contains(state.corpus@.current.unwrap().0),
            state.corpus@.current.is_none() ==> r == Err::<Option<Vec<u8>>, Error>(Error::IllegalState),
            state.corpus@.current.is_some() && r.is_err() ==> r == Err::<Option<Vec<u8>>, Error>(Error::KeyNotFound),
            r.is_ok() && r.unwrap().is_some() && state.corpus@.get(state.corpus@.current.unwrap().0).input@.len()
                <= state.max_size ==> r.unwrap().unwrap()@.len() <= state.max_size,
            r.is_err() ==> *final(rand) == *old(rand),
            r.is_ok() ==> {
                let cur = state.corpus@.get(state.corpus@.current.unwrap().0).input@;
                let h = spec_havoc(cur, state.max_size, token_seqs(tokens@), cur, old(rand).x, old(rand).y);
                &&& final(rand).x == h.2
                &&& final(rand).y == h.3
                &&& (r.unwrap().is_some() <==> h.0 == MutationResult::Mutated)
                &&& r.unwrap().is_some() ==> r.unwrap().unwrap()@ == h.1
            },
    {
        let mut input = state.current_input_cloned()?;
        let other = input.clone();
        assert(other@ =~= input@);
        match havoc(&mut input, state.max_size, tokens, &other, rand) {
            MutationResult::Mutated => Ok(Some(input)),
            MutationResult::Skipped => Ok(None),
        }
    }
}

} // verus!
