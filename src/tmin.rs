//! Minimization of corpus entries: shrink the scheduled input while its
//! observer digest stays that of the first run.
use vstd::prelude::*;

use crate::corpus::{CorpusId, Testcase};
use crate::digest::fixed_seed_hash;
use crate::error::Error;
use crate::feedback::{Feedback, Observation};
use crate::scheduler::Scheduler;
use crate::fuzzer::{evaluation, fresh_testcase, FuzzerState, StdFuzzer};
use crate::stage::{stage_name, stage_name_of, ExecutionCountRestartHelper, StageIds};

verus! {

/// Digest of the edge map of an observation (fixed keys; comparable within
/// one process).
pub fn observer_digest(obs: &Observation) -> (r: u64) {
    fixed_seed_hash(obs.map.as_slice())
}

/// Digest of an input (fixed keys; comparable within one process).
pub fn input_digest(input: &Vec<u8>) -> (r: u64) {
    fixed_seed_hash(input.as_slice())
}

/// Interesting when the observer digest equals the one of the first run.
#[derive(Clone, Copy, Debug, PartialEq, Eq, Structural)]
pub struct ObserverEqualityFeedback {
    pub orig_hash: u64,
    pub last_result: Option<bool>,
}

impl ObserverEqualityFeedback {
    pub fn name(&self) -> (r: &'static str)
        ensures
            r@ == "ObserverEq"@,
    {
        "ObserverEq"
    }

    /// Whether `digest` is the starting one; remembered as the last result.
    pub fn matches_digest(&mut self, digest: u64) -> (r: bool)
        ensures
            r == (digest == old(self).orig_hash),
            final(self).orig_hash == old(self).orig_hash,
            final(self).last_result == Some(r),
    {
        let r = digest == self.orig_hash;
        self.last_result = Some(r);
        r
    }

    /// Digests the observation and compares it with the starting digest.
    pub fn is_interesting(&mut self, obs: &Observation) -> (r: bool)
        ensures
            final(self).orig_hash == old(self).orig_hash,
            final(self).last_result == Some(r),
    {
        let d = observer_digest(obs);
        self.matches_digest(d)
    }

    /// The result of the last judgement; asking before any is an illegal state.
    pub fn last_result(&self) -> (r: Result<bool, Error>)
        ensures
            self.last_result.is_some() ==> r == Ok::<bool, Error>(self.last_result.unwrap()),
            self.last_result.is_none() ==> r == Err::<bool, Error>(Error::IllegalState),
    {
        match self.last_result {
            Some(b) => Ok(b),
            None => Err(Error::IllegalState),
        }
    }
}

/// Builds observer-equality feedbacks bound to the digest of a first run.
#[derive(Clone, Copy, Debug, PartialEq, Eq, Structural)]
pub struct ObserverEqualityFactory {}

impl ObserverEqualityFactory {
    pub fn new() -> (r: ObserverEqualityFactory) {
        ObserverEqualityFactory {}
    }

    /// A feedback bound to the digest of `obs`.
    pub fn create_feedback(&self, obs: &Observation) -> (r: ObserverEqualityFeedback)
        ensures
            r.last_result.is_none(),
    {
        ObserverEqualityFeedback { orig_hash: observer_digest(obs), last_result: None }
    }
}

/// Runs of the target since the stage's progress started (none before it starts).
pub open spec fn progress_since(h: ExecutionCountRestartHelper, executions: u64) -> u64 {
    match h.started_at {
        None => 0,
        Some(start) => if executions >= start {
            (executions - start) as u64
        } else {
            0
        },
    }
}

/// The minimizing stage: for a fixed number of runs per entry it tries
/// mutants of the scheduled input that are shorter than the current best,
/// and keeps one when the fuzzer found nothing new with it and its observer
/// digest is the starting one.
pub struct StdTMinMutationalStage<M> {
    name: String,
    mutator: M,
    factory: ObserverEqualityFactory,
    runs: usize,
    restart_helper: ExecutionCountRestartHelper,
}

/// Where a minimization starts: the entry, its input and the runs to do.
pub struct TminStart {
    pub base_id: CorpusId,
    pub base: Vec<u8>,
    pub num: usize,
}

impl<M> StdTMinMutationalStage<M> {
    pub closed spec fn spec_name(&self) -> Seq<char> {
        self.name@
    }

    pub closed spec fn spec_runs(&self) -> usize {
        self.runs
    }

    pub closed spec fn spec_mutator(&self) -> M {
        self.mutator
    }

    pub closed spec fn spec_restart_helper(&self) -> ExecutionCountRestartHelper {
        self.restart_helper
    }

    /// A stage named `tmin:k`, with `k` a fresh stage id.
    pub fn new(mutator: M, factory: ObserverEqualityFactory, runs: usize, ids: &mut StageIds) -> (r: Self)
        requires
            old(ids).spec_next() < usize::MAX,
        ensures
            r.spec_name() == stage_name_of("tmin"@, old(ids).spec_next() as nat),
            final(ids).spec_next() == old(ids).spec_next() + 1,
            r.spec_runs() == runs,
            r.spec_mutator() == mutator,
            r.spec_restart_helper().started_at.is_none(),
    {
        let id = ids.fresh();
        StdTMinMutationalStage {
            name: stage_name("tmin", id),
            mutator,
            factory,
            runs,
            restart_helper: ExecutionCountRestartHelper::new(),
        }
    }

    pub fn name(&self) -> (r: &String)
        ensures
            r@ == self.spec_name(),
    {
        &self.name
    }

    /// The mutator, to produce the candidates of a minimization.
    pub fn mutator_mut(&mut self) -> (r: &mut M)
        ensures
            *r == old(self).spec_mutator(),
            final(self).spec_mutator() == *final(r),
            final(self).spec_name() == old(self).spec_name(),
            final(self).spec_runs() == old(self).spec_runs(),
            final(self).spec_restart_helper() == old(self).spec_restart_helper(),
    {
        &mut self.mutator
    }

    /// The number of runs per entry.
    pub fn iterations(&self) -> (r: usize)
        ensures
            r == self.spec_runs(),
    {
        self.runs
    }

    /// Runs of the target since this stage started on the current entry.
    pub fn execs_since_progress_start(&mut self, state: &FuzzerState) -> (r: u64)
        ensures
            old(self).spec_restart_helper().started_at.is_none() ==> r == 0
                && final(self).spec_restart_helper().started_at == Some(state.executions),
            old(self).spec_restart_helper().started_at.is_some() ==> final(self).spec_restart_helper()
                == old(self).spec_restart_helper() && r == if state.executions >= old(
                self,
            ).spec_restart_helper().started_at.unwrap() {
                (state.executions - old(self).spec_restart_helper().started_at.unwrap()) as u64
            } else {
                0u64
            },
            final(self).spec_name() == old(self).spec_name(),
            final(self).spec_runs() == old(self).spec_runs(),
            final(self).spec_mutator() == old(self).spec_mutator(),
    {
        self.restart_helper.execs_since_progress_start(state.executions)
    }

    /// Always runs; marks the start of the stage's progress.
    pub fn should_restart(&mut self, state: &FuzzerState) -> (r: bool)
        ensures
            r,
    {
        self.restart_helper.should_restart(state.executions)
    }

    /// Forgets the progress on the current entry.
    pub fn clear_progress(&mut self)
        ensures
            final(self).spec_restart_helper().started_at.is_none(),
            final(self).spec_name() == old(self).spec_name(),
            final(self).spec_runs() == old(self).spec_runs(),
            final(self).spec_mutator() == old(self).spec_mutator(),
    {
        self.restart_helper.clear_progress();
    }

    /// A feedback bound to the digest of `obs`.
    pub fn create_feedback(&self, obs: &Observation) -> (r: ObserverEqualityFeedback)
        ensures
            r.last_result.is_none(),
    {
        self.factory.create_feedback(obs)
    }

    /// Starts a minimization of the scheduled entry. Without a scheduled entry
    /// this is an illegal state. The runs left are the stage's runs less the
    /// executions since its progress started; with none left the result is
    /// `None`. Otherwise the entry's input is handed out, to be run once.
    pub fn begin(&mut self, state: &FuzzerState) -> (r: Result<Option<TminStart>, Error>)
        requires
            state.wf(),
        ensures
            final(self).spec_name() == old(self).spec_name(),
            final(self).spec_runs() == old(self).spec_runs(),
            final(self).spec_mutator() == old(self).spec_mutator(),
            state.corpus@.current.is_none() ==> r == Err::<Option<TminStart>, Error>(Error::IllegalState),
            state.corpus@.current.is_some() ==> {
                let since = progress_since(old(self).spec_restart_helper(), state.executions);
                let id = state.corpus@.current.unwrap();
                if since >= old(self).spec_runs() {
                    r == Ok::<Option<TminStart>, Error>(None)
                } else if !state.corpus@.contains(id.0) {
                    r == Err::<Option<TminStart>, Error>(Error::KeyNotFound)
                } else {
                    &&& r.is_ok() && r.unwrap().is_some()
                    &&& r.unwrap().unwrap().base_id == id
                    &&& r.unwrap().unwrap().base@ == state.corpus@.get(id.0).input@
                    &&& r.unwrap().unwrap().num == old(self).spec_runs() - since
                }
            },
    {
        let base_id = match state.corpus.current() {
            Some(id) => id,
            None => return Err(Error::IllegalState),
        };
        let since = self.execs_since_progress_start(state);
        let num: usize = if since >= self.runs as u64 {
            0
        } else {
            self.runs - since as usize
        };
        if num == 0 {
            return Ok(None);
        }
        let base = state.current_input_cloned()?;
        Ok(Some(TminStart { base_id, base, num }))
    }
}

/// A minimization in progress.
pub struct TminRun {
    base_id: CorpusId,
    base: Vec<u8>,
    orig: Ghost<Seq<u8>>,
    orig_max_size: usize,
    base_hash: u64,
    feedback: ObserverEqualityFeedback,
    base_digest: u64,
    i: usize,
    num: usize,
}

impl TminRun {
    /// The current best is no longer than the starting input, and when it differs
    /// from that input it is shorter and its run had the starting digest.
    pub closed spec fn wf(&self) -> bool {
        &&& self.base@.len() <= self.orig@.len()
        &&& self.base@ != self.orig@ ==> self.base@.len() < self.orig@.len()
            && self.base_digest == self.feedback.orig_hash
        &&& self.i <= self.num
    }

    pub closed spec fn spec_base(&self) -> Seq<u8> {
        self.base@
    }

    pub closed spec fn spec_orig(&self) -> Seq<u8> {
        self.orig@
    }

    pub closed spec fn spec_base_id(&self) -> CorpusId {
        self.base_id
    }

    /// Digest observed on the run of the current best.
    pub closed spec fn spec_base_digest(&self) -> u64 {
        self.base_digest
    }

    /// Digest observed on the first run of the starting input.
    pub closed spec fn spec_orig_digest(&self) -> u64 {
        self.feedback.orig_hash
    }

    /// Digest of the starting input.
    pub closed spec fn spec_orig_input_digest(&self) -> u64 {
        self.base_hash
    }

    pub closed spec fn spec_iteration(&self) -> usize {
        self.i
    }

    pub closed spec fn spec_num(&self) -> usize {
        self.num
    }

    pub closed spec fn spec_orig_max_size(&self) -> usize {
        self.orig_max_size
    }

    /// Starts from the first run of the entry's input, observed as `obs`. The
    /// state's max size is remembered, to be restored at the end.
    pub fn new<M>(stage: &StdTMinMutationalStage<M>, start: TminStart, state: &FuzzerState, obs: &Observation) -> (r: TminRun)
        ensures
            r.wf(),
            r.spec_base() == start.base@,
            r.spec_orig() == start.base@,
            r.spec_base_id() == start.base_id,
            r.spec_iteration() == 0,
            r.spec_num() == start.num,
            r.spec_orig_max_size() == state.max_size,
    {
        let base_hash = input_digest(&start.base);
        let feedback = stage.create_feedback(obs);
        let base_digest = feedback.orig_hash;
        let ghost orig = start.base@;
        TminRun {
            base_id: start.base_id,
            base: start.base,
            orig: Ghost(orig),
            orig_max_size: state.max_size,
            base_hash,
            feedback,
            base_digest,
            i: 0,
            num: start.num,
        }
    }

    /// Whether all runs are spent.
    pub fn is_done(&self) -> (r: bool)
        ensures
            r == (self.spec_iteration() >= self.spec_num()),
    {
        self.i >= self.num
    }

    /// The current best input, to be cloned and mutated.
    pub fn base(&self) -> (r: &Vec<u8>)
        ensures
            r@ == self.spec_base(),
    {
        &self.base
    }

    /// Caps the mutators at the length of the current best.
    pub fn prepare_mutation(&self, state: &mut FuzzerState)
        ensures
            final(state).max_size == self.spec_base().len(),
            final(state).corpus == old(state).corpus,
            final(state).solutions == old(state).solutions,
            final(state).executions == old(state).executions,
            final(state).scheduler_metadata == old(state).scheduler_metadata,
            final(state).stop_requested == old(state).stop_requested,
    {
        state.max_size = self.base.len();
    }

    /// Whether a mutant is worth running: only one shorter than the current
    /// best is. Any other spends one run without being executed. (A declined
    /// mutation is not reported and spends nothing.)
    pub fn should_execute(&mut self, candidate: &Vec<u8>) -> (r: bool)
        requires
            old(self).wf(),
            old(self).spec_iteration() < old(self).spec_num(),
        ensures
            final(self).wf(),
            r == (candidate@.len() < old(self).spec_base().len()),
            r ==> *final(self) == *old(self),
            !r ==> final(self).spec_iteration() == old(self).spec_iteration() + 1
                && final(self).spec_base() == old(self).spec_base()
                && final(self).spec_base_id() == old(self).spec_base_id()
                && final(self).spec_orig_max_size() == old(self).spec_orig_max_size()
                && final(self).spec_orig_input_digest() == old(self).spec_orig_input_digest()
                && final(self).spec_base_digest() == old(self).spec_base_digest()
                && final(self).spec_orig_digest() == old(self).spec_orig_digest()
                && final(self).spec_orig() == old(self).spec_orig()
                && final(self).spec_num() == old(self).spec_num(),
    {
        if candidate.len() < self.base.len() {
            true
        } else {
            self.i = self.i + 1;
            false
        }
    }

    /// Decides on a shorter mutant given the digest of its run and whether the
    /// fuzzer stored anything when it evaluated that run. The mutant becomes
    /// the current best, and the runs start over, exactly when nothing was
    /// stored and the digest is the starting one; otherwise one run is spent.
    pub fn accept_or_spend(&mut self, candidate: Vec<u8>, found_new: bool, digest: u64) -> (accepted: bool)
        requires
            old(self).wf(),
            old(self).spec_iteration() < old(self).spec_num(),
            candidate@.len() < old(self).spec_base().len(),
        ensures
            final(self).wf(),
            accepted == (!found_new && digest == old(self).spec_orig_digest()),
            final(self).spec_orig() == old(self).spec_orig(),
            final(self).spec_orig_digest() == old(self).spec_orig_digest(),
            final(self).spec_num() == old(self).spec_num(),
            final(self).spec_base_id() == old(self).spec_base_id(),
            final(self).spec_orig_max_size() == old(self).spec_orig_max_size(),
            final(self).spec_orig_input_digest() == old(self).spec_orig_input_digest(),
            accepted ==> final(self).spec_base() == candidate@ && final(self).spec_iteration() == 0
                && final(self).spec_base_digest() == digest,
            !accepted ==> final(self).spec_base() == old(self).spec_base()
                && final(self).spec_iteration() == old(self).spec_iteration() + 1
                && final(self).spec_base_digest() == old(self).spec_base_digest(),
    {
        let same = self.feedback.matches_digest(digest);
        if !found_new && same {
            self.base = candidate;
            self.base_digest = digest;
            self.i = 0;
            true
        } else {
            self.i = self.i + 1;
            false
        }
    }

    /// Evaluates the run of a shorter mutant with the fuzzer, then decides on
    /// it as `accept_or_spend` does, with "found new" meaning that the corpus
    /// or the solutions grew. Returns whether it was accepted and what the
    /// fuzzer's evaluation returned.
    pub fn report<F: Feedback, O: Feedback, S: Scheduler>(
        &mut self,
        fuzzer: &mut StdFuzzer<F, O, S>,
        state: &mut FuzzerState,
        candidate: Vec<u8>,
        obs: &Observation,
    ) -> (r: (bool, (bool, Option<CorpusId>)))
        requires
            old(self).wf(),
            old(self).spec_iteration() < old(self).spec_num(),
            candidate@.len() < old(self).spec_base().len(),
            old(state).wf(),
            old(state).corpus@.next_id < usize::MAX,
            old(state).solutions@.next_id < usize::MAX,
        ensures
            final(self).wf(),
            final(state).wf(),
            final(self).spec_orig() == old(self).spec_orig(),
            final(self).spec_orig_digest() == old(self).spec_orig_digest(),
            final(self).spec_num() == old(self).spec_num(),
            final(self).spec_base_id() == old(self).spec_base_id(),
            final(self).spec_orig_max_size() == old(self).spec_orig_max_size(),
            final(self).spec_orig_input_digest() == old(self).spec_orig_input_digest(),
            evaluation(*old(fuzzer), *final(fuzzer), *old(state), *final(state), candidate@, obs, r.1),
            r.0 ==> final(self).spec_base() == candidate@ && final(self).spec_iteration() == 0
                && final(state).corpus@.count() == old(state).corpus@.count()
                && final(state).solutions@.count() == old(state).solutions@.count(),
            !r.0 ==> final(self).spec_base() == old(self).spec_base()
                && final(self).spec_iteration() == old(self).spec_iteration() + 1,
    {
        let corpus_count = state.corpus.count();
        let solution_count = state.solutions.count();
        let outcome = fuzzer.evaluate_execution(state, &candidate, obs);
        let found_new = state.corpus.count() != corpus_count || state.solutions.count() != solution_count;
        let digest = observer_digest(obs);
        let accepted = self.accept_or_spend(candidate, found_new, digest);
        (accepted, outcome)
    }

    /// The minimized input when it must replace the entry, given its digest
    /// now: exactly when that differs from the digest of the starting input.
    /// It is to be run once more before `commit`.
    pub fn replacement(&self, new_hash: u64) -> (r: Option<&Vec<u8>>)
        ensures
            r.is_some() <==> new_hash != self.spec_orig_input_digest(),
            r.is_some() ==> r.unwrap()@ == self.spec_base(),
    {
        if new_hash != self.base_hash {
            Some(&self.base)
        } else {
            None
        }
    }

    /// Ends a minimization without a replacement: restores the max size.
    pub fn finish(self, state: &mut FuzzerState)
        ensures
            final(state).max_size == self.spec_orig_max_size(),
            final(state).corpus == old(state).corpus,
            final(state).solutions == old(state).solutions,
            final(state).executions == old(state).executions,
            final(state).scheduler_metadata == old(state).scheduler_metadata,
            final(state).stop_requested == old(state).stop_requested,
    {
        state.max_size = self.orig_max_size;
    }

    /// Replaces the entry in place (same id) with the minimized input, given
    /// the observation of its last run: the fuzzer's feedback judges that run
    /// (to keep its novelty state current), the new testcase gets the
    /// executions counter, the entry as parent and the feedback's metadata.
    /// The max size is restored. Returns the previous testcase; an entry that
    /// went away is an illegal state. The stored input is no longer than the
    /// starting input, and when it differs from it, it is shorter and its run during
    /// the minimization had the starting observer digest.
    pub fn commit<F: Feedback, O: Feedback, S: Scheduler>(
        self,
        fuzzer: &mut StdFuzzer<F, O, S>,
        state: &mut FuzzerState,
        obs: &Observation,
    ) -> (r: Result<Testcase, Error>)
        requires
            self.wf(),
            old(state).wf(),
        ensures
            final(state).wf(),
            final(state).max_size == self.spec_orig_max_size(),
            final(state).solutions == old(state).solutions,
            final(state).executions == old(state).executions,
            final(fuzzer).objective == old(fuzzer).objective,
            old(fuzzer).feedback.spec_step(obs, &final(fuzzer).feedback),
            r.is_ok() <==> old(state).corpus@.contains(self.spec_base_id().0),
            r.is_err() ==> r == Err::<Testcase, Error>(Error::IllegalState) && final(state).corpus@ == old(state).corpus@,
            r.is_ok() ==> {
                let stored = final(state).corpus@.get(self.spec_base_id().0);
                &&& final(state).corpus@ == old(state).corpus@.replace(self.spec_base_id().0, stored)
                &&& r.unwrap() == old(state).corpus@.get(self.spec_base_id().0)
                &&& stored.input@ == self.spec_base()
                &&& exists|t: Testcase|
                    fresh_testcase(t, self.spec_base(), old(state).executions, Some(self.spec_base_id()))
                    && stored == final(fuzzer).feedback.spec_metadata(obs, t)
                &&& stored.input@.len() <= self.spec_orig().len()
                &&& stored.input@ != self.spec_orig() ==> stored.input@.len() < self.spec_orig().len()
                    && self.spec_base_digest() == self.spec_orig_digest()
            },
    {
        fuzzer.feedback.is_interesting(obs);
        let ghost base = self.base@;
        let mut tc = Testcase::new(self.base);
        tc.executions = state.executions;
        tc.parent_id = Some(self.base_id);
        let ghost fresh = tc;
        fuzzer.feedback.append_metadata(obs, &mut tc);
        let prev = state.corpus.replace(self.base_id, tc);
        state.max_size = self.orig_max_size;
        proof {
            if prev.is_ok() {
                old(state).corpus.lemma_wf();
                crate::corpus::lemma_replace(old(state).corpus@, self.base_id.0, tc);
                assert(fresh_testcase(fresh, self.base@, old(state).executions, Some(self.base_id)));
            }
        }
        prev
    }
}

/// Minimization never grows the input, and a changed input had the starting
/// observer digest on its run: for every minimization in progress.
pub proof fn lemma_tmin_shrinks_and_keeps_digest(run: TminRun)
    requires
        run.wf(),
    ensures
        run.spec_base().len() <= run.spec_orig().len(),
        run.spec_base() != run.spec_orig() ==> run.spec_base_digest() == run.spec_orig_digest(),
{
}

} // verus!
