//! The fuzzer state and the orchestration of one evaluation: objective first,
//! then feedback, then store.
use vstd::prelude::*;

use crate::corpus::{Corpus, CorpusId, CorpusModel, Testcase};
use crate::error::{Error, ExitKind};
use crate::feedback::{CrashFeedback, FastOr, Feedback, Observation, TimeoutFeedback};
use crate::scheduler::{round_robin_pick, Scheduler, SchedulerMetadata};

verus! {

/// What one fuzzing worker owns.
pub struct FuzzerState {
    /// Inputs worth fuzzing further.
    pub corpus: Corpus,
    /// Inputs that triggered the objective.
    pub solutions: Corpus,
    /// Runs of the target so far.
    pub executions: u64,
    /// Largest input the mutators may produce.
    pub max_size: usize,
    /// Power-schedule metadata, once a power scheduler created it.
    pub scheduler_metadata: Option<SchedulerMetadata>,
    /// Set when a stop was requested; checked between iterations.
    pub stop_requested: bool,
}

impl FuzzerState {
    pub open spec fn wf(&self) -> bool {
        &&& self.corpus.wf()
        &&& self.solutions.wf()
        &&& self.scheduler_metadata.is_some() ==> self.scheduler_metadata.unwrap().wf()
    }

    /// A state with empty stores.
    pub fn new(max_size: usize) -> (r: FuzzerState)
        ensures
            r.wf(),
            r.corpus@.ids.len() == 0,
            r.corpus@.next_id == 0,
            r.corpus@.current.is_none(),
            r.solutions@.ids.len() == 0,
            r.solutions@.next_id == 0,
            r.executions == 0,
            r.max_size == max_size,
            r.scheduler_metadata.is_none(),
            !r.stop_requested,
    {
        FuzzerState {
            corpus: Corpus::new(),
            solutions: Corpus::new(),
            executions: 0,
            max_size,
            scheduler_metadata: None,
            stop_requested: false,
        }
    }

    /// Counts one run of the target.
    pub fn count_execution(&mut self)
        requires
            old(self).executions < u64::MAX,
        ensures
            final(self).executions == old(self).executions + 1,
            final(self).corpus == old(self).corpus,
            final(self).solutions == old(self).solutions,
            final(self).max_size == old(self).max_size,
            final(self).scheduler_metadata == old(self).scheduler_metadata,
            final(self).stop_requested == old(self).stop_requested,
    {
        self.executions = self.executions + 1;
    }

    /// The input of the entry under the scheduler's cursor, cloned.
    pub fn current_input_cloned(&self) -> (r: Result<Vec<u8>, Error>)
        requires
            self.wf(),
        ensures
            r.is_ok() <==> self.corpus@.current.is_some() && self.corpus@.contains(self.corpus@.current.unwrap().0),
            r.is_ok() ==> r.unwrap()@ == self.corpus@.get(self.corpus@.current.unwrap().0).input@,
            self.corpus@.current.is_none() ==> r == Err::<Vec<u8>, Error>(Error::IllegalState),
            self.corpus@.current.is_some() && r.is_err() ==> r == Err::<Vec<u8>, Error>(Error::KeyNotFound),
    {
        match self.corpus.current() {
            None => Err(Error::IllegalState),
            Some(id) => {
                let tc = self.corpus.get(id)?;
                Ok(tc.input.clone())
            },
        }
    }
}

/// `tc` is a testcase of `input` found at `executions` runs, under `parent`,
/// with no other metadata yet.
pub open spec fn fresh_testcase(tc: Testcase, input: Seq<u8>, executions: u64, parent: Option<CorpusId>) -> bool {
    &&& tc.input@ == input
    &&& tc.executions == executions
    &&& tc.parent_id == parent
    &&& tc.crash_cause.is_none()
    &&& tc.exec_time_nanos.is_none()
    &&& tc.depth == 0
    &&& tc.n_fuzz_entry.is_none()
}

/// `new` is `old` with `stored` added under the next id.
pub open spec fn added_one(old: CorpusModel, new: CorpusModel, stored: Testcase) -> bool {
    new == old.add(stored)
}

/// What one evaluation does, from fuzzer `f0` and state `s0` to fuzzer `f1`
/// and state `s1`, for `input` observed as `obs` with result `r`.
pub open spec fn evaluation<F: Feedback, O: Feedback, S: Scheduler>(
    f0: StdFuzzer<F, O, S>,
    f1: StdFuzzer<F, O, S>,
    s0: FuzzerState,
    s1: FuzzerState,
    input: Seq<u8>,
    obs: &Observation,
    r: (bool, Option<CorpusId>),
) -> bool {
    &&& s1.wf()
    &&& s1.executions == s0.executions
    &&& s1.max_size == s0.max_size
    &&& s1.scheduler_metadata == s0.scheduler_metadata
    &&& s1.stop_requested == s0.stop_requested
    &&& f0.objective.spec_step(obs, &f1.objective)
    &&& r.0 == f0.objective.spec_interesting(obs)
    &&& r.0 ==> {
        &&& r.1.is_none()
        &&& f1.feedback == f0.feedback
        &&& f1.scheduler == f0.scheduler
        &&& s1.corpus@ == s0.corpus@
        &&& exists|base: Testcase|
            fresh_testcase(base, input, s0.executions, None)
            && added_one(
                s0.solutions@,
                s1.solutions@,
                f1.objective.spec_metadata(obs, Testcase { crash_cause: Some(obs.exit_kind), ..base }),
            )
    }
    &&& !r.0 ==> {
        &&& s1.solutions@ == s0.solutions@
        &&& f0.feedback.spec_step(obs, &f1.feedback)
        &&& r.1.is_some() == f0.feedback.spec_interesting(obs)
        &&& r.1.is_none() ==> s1.corpus@ == s0.corpus@ && f1.scheduler == f0.scheduler
        &&& r.1.is_some() ==> r.1.unwrap().0 == s0.corpus@.next_id
            && exists|base: Testcase, mid: CorpusModel|
                fresh_testcase(base, input, s0.executions, s0.corpus@.current)
                && added_one(s0.corpus@, mid, f1.feedback.spec_metadata(obs, base))
                && f0.scheduler.spec_added(mid, r.1.unwrap(), obs, &f1.scheduler, s1.corpus@)
    }
}

/// The feedback, the objective and the scheduler of one worker.
pub struct StdFuzzer<F, O, S> {
    pub feedback: F,
    pub objective: O,
    pub scheduler: S,
}

impl<F: Feedback, O: Feedback, S: Scheduler> StdFuzzer<F, O, S> {
    pub fn new(scheduler: S, feedback: F, objective: O) -> (r: StdFuzzer<F, O, S>)
        ensures
            r.feedback == feedback,
            r.objective == objective,
            r.scheduler == scheduler,
    {
        StdFuzzer { feedback, objective, scheduler }
    }

    /// Judges one run. The objective is asked first: if it holds, the input is
    /// stored as a solution with the exit kind as its cause and the result is
    /// `(true, None)`. Otherwise the feedback is asked: if it holds, the input is
    /// added to the corpus with the executions counter, the current entry as
    /// parent and the feedback's metadata, the scheduler is told of it, and
    /// the result is `(false, Some(id))`.
    /// Otherwise nothing is stored and the result is `(false, None)`.
    pub fn evaluate_execution(&mut self, state: &mut FuzzerState, input: &Vec<u8>, obs: &Observation) -> (r: (bool, Option<CorpusId>))
        requires
            old(state).wf(),
            old(state).corpus@.next_id < usize::MAX,
            old(state).solutions@.next_id < usize::MAX,
        ensures
            evaluation(*old(self), *final(self), *old(state), *final(state), input@, obs, r),
    {
        if self.objective.is_interesting(obs) {
            let bytes = input.clone();
            assert(bytes@ =~= input@);
            let mut tc = Testcase::new(bytes);
            tc.executions = state.executions;
            let ghost base = tc;
            tc.crash_cause = Some(obs.exit_kind);
            let ghost pre = tc;
            self.objective.append_metadata(obs, &mut tc);
            let ghost stored = tc;
            state.solutions.add(tc);
            assert(fresh_testcase(base, input@, old(state).executions, None));
            assert(pre == Testcase { crash_cause: Some(obs.exit_kind), ..base });
            return (true, None);
        }
        if self.feedback.is_interesting(obs) {
            let bytes = input.clone();
            assert(bytes@ =~= input@);
            let mut tc = Testcase::new(bytes);
            tc.executions = state.executions;
            tc.parent_id = state.corpus.current();
            let ghost base = tc;
            self.feedback.append_metadata(obs, &mut tc);
            let id = state.corpus.add(tc);
            let ghost mid = state.corpus@;
            proof {
                state.corpus.lemma_wf();
                let j = mid.ids.len() - 1;
                assert(mid.ids[j] == id.0);
            }
            let ghost sched0 = self.scheduler;
            self.scheduler.on_corpus_add(&mut state.corpus, id, obs);
            assert(fresh_testcase(base, input@, old(state).executions, old(state).corpus@.current));
            assert(added_one(old(state).corpus@, mid, self.feedback.spec_metadata(obs, base)));
            assert(sched0.spec_added(mid, id, obs, &self.scheduler, state.corpus@));
            (false, Some(id))
        } else {
            (false, None)
        }
    }

    /// Picks the entry to fuzz next, round-robin.
    pub fn next_scheduled(&mut self, state: &mut FuzzerState) -> (r: Result<CorpusId, Error>)
        requires
            old(state).wf(),
            old(self).scheduler.spec_ready(&*old(state)),
        ensures
            final(state).wf(),
            final(self).feedback == old(self).feedback,
            final(self).objective == old(self).objective,
            final(state).solutions == old(state).solutions,
            final(state).executions == old(state).executions,
            old(state).corpus@.count() == 0 <==> r.is_err(),
            r.is_err() ==> r == Err::<CorpusId, Error>(Error::Empty),
            r.is_ok() ==> r.unwrap() == round_robin_pick(old(state).corpus@).0
                && final(state).corpus@ == (CorpusModel { current: Some(r.unwrap()), ..old(state).corpus@ }),
    {
        self.scheduler.next_entry(state)
    }
}

/// Solution persistence: under the standard objective (crash, then timeout,
/// short-circuit), a run that crashed or timed out satisfies the objective,
/// so `evaluate_execution` stores its input among the solutions with that cause.
pub proof fn lemma_faults_are_solutions<F: Feedback, S: Scheduler>(
    fuzzer: StdFuzzer<F, FastOr<CrashFeedback, TimeoutFeedback>, S>,
    obs: Observation,
)
    requires
        obs.exit_kind == ExitKind::Crash || obs.exit_kind == ExitKind::Timeout,
    ensures
        fuzzer.objective.spec_interesting(&obs),
{
}

/// The options of a libFuzzer-compatible run that decide when to stop.
#[derive(Clone, Copy, Debug, PartialEq, Eq, Structural)]
pub struct LibfuzzerOptions {
    pub ignore_crashes: bool,
    pub ignore_timeouts: bool,
    pub ignore_ooms: bool,
    /// Number of fuzzing iterations; 0 means until stopped.
    pub runs: usize,
}

/// What the fuzzing loop does next.
#[derive(Clone, Copy, Debug, PartialEq, Eq, Structural)]
pub enum FuzzPlan {
    /// Fuzz until a stop is requested.
    Forever,
    /// Run this many iterations.
    Iterations(usize),
}

/// Whether a solution with this cause stops the run under `options`.
pub open spec fn halts_on(options: LibfuzzerOptions, kind: ExitKind) -> bool {
    match kind {
        ExitKind::Oom => !options.ignore_ooms,
        ExitKind::Crash => !options.ignore_crashes,
        ExitKind::Timeout => !options.ignore_timeouts,
        ExitKind::Normal => false,
    }
}

/// Decides how a libFuzzer-compatible run goes on. If the newest solution's
/// cause is not ignored by `options`, the run shuts down (`ShuttingDown`); a
/// newest solution without a cause is `KeyNotFound`. Otherwise the run
/// fuzzes forever when `runs` is 0, and `runs` iterations else.
pub fn do_fuzz(options: &LibfuzzerOptions, state: &FuzzerState) -> (r: Result<FuzzPlan, Error>)
    requires
        state.wf(),
    ensures
        ({
            let sols = state.solutions@;
            match sols.last() {
                Some(last) => {
                    let cause = sols.get(last.0).crash_cause;
                    if cause.is_none() {
                        r == Err::<FuzzPlan, Error>(Error::KeyNotFound)
                    } else if halts_on(*options, cause.unwrap()) {
                        r == Err::<FuzzPlan, Error>(Error::ShuttingDown)
                    } else {
                        r == Ok::<FuzzPlan, Error>(
                            if options.runs == 0 { FuzzPlan::Forever } else { FuzzPlan::Iterations(options.runs) },
                        )
                    }
                },
                None => r == Ok::<FuzzPlan, Error>(
                    if options.runs == 0 { FuzzPlan::Forever } else { FuzzPlan::Iterations(options.runs) },
                ),
            }
        }),
{
    proof {
        state.solutions.lemma_wf();
    }
    if let Some(last) = state.solutions.last() {
        proof {
            let m = state.solutions@;
            crate::corpus::lemma_position_unique(m, m.ids.len() - 1);
        }
        let tc = state.solutions.get(last)?;
        let kind = match tc.crash_cause {
            Some(k) => k,
            None => return Err(Error::KeyNotFound),
        };
        let halt = match kind {
            ExitKind::Oom => !options.ignore_ooms,
            ExitKind::Crash => !options.ignore_crashes,
            ExitKind::Timeout => !options.ignore_timeouts,
            ExitKind::Normal => false,
        };
        if halt {
            return Err(Error::ShuttingDown);
        }
    }
    if options.runs == 0 {
        Ok(FuzzPlan::Forever)
    } else {
        Ok(FuzzPlan::Iterations(options.runs))
    }
}

} // verus!
