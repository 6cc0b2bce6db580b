//! The tracing stage: runs a secondary, instrumented executor once on the
//! scheduled entry so that its observers can enrich the entry's metadata.
use vstd::prelude::*;

use crate::error::{Error, ExitKind};
use crate::fuzzer::FuzzerState;
use crate::stage::{stage_name, stage_name_of, RetryCountRestartHelper, StageIds};

verus! {

/// Runs the target with observers attached. Implemented by users for their
/// harness or tracer.
pub trait Executor {
    /// Prepares the observers for a run on `input`.
    fn pre_exec_observers(&mut self, input: &Vec<u8>) -> Result<(), Error>;

    /// Runs the target once on `input`.
    fn run_target(&mut self, input: &Vec<u8>) -> Result<ExitKind, Error>;

    /// Lets the observers collect what the run left behind.
    fn post_exec_observers(&mut self, input: &Vec<u8>, exit_kind: ExitKind) -> Result<(), Error>;
}

/// One call that a stage made on its executor, with the input it handed over.
pub enum ExecutorCall {
    PreExec(Seq<u8>),
    Run(Seq<u8>),
    PostExec(Seq<u8>, ExitKind),
}

/// A stage that runs a tracer executor. It must not be used with the
/// in-process executor, and it is never retried on an entry that killed the
/// worker.
pub struct TracingStage<TE> {
    name: String,
    tracer_executor: TE,
    restart_helper: RetryCountRestartHelper,
    calls: Ghost<Seq<ExecutorCall>>,
}

impl<TE: Executor> TracingStage<TE> {
    pub closed spec fn spec_name(&self) -> Seq<char> {
        self.name@
    }

    pub closed spec fn spec_executor(&self) -> TE {
        self.tracer_executor
    }

    pub closed spec fn spec_restart_helper(&self) -> RetryCountRestartHelper {
        self.restart_helper
    }

    /// The calls this stage made on its tracer executor so far, in order.
    pub closed spec fn spec_calls(&self) -> Seq<ExecutorCall> {
        self.calls@
    }

    /// A stage named `tracing:k`, with `k` a fresh stage id.
    pub fn new(tracer_executor: TE, ids: &mut StageIds) -> (r: Self)
        requires
            old(ids).spec_next() < usize::MAX,
        ensures
            r.spec_name() == stage_name_of("tracing"@, old(ids).spec_next() as nat),
            final(ids).spec_next() == old(ids).spec_next() + 1,
            r.spec_executor() == tracer_executor,
            r.spec_restart_helper().attempted.is_none(),
            r.spec_calls() == Seq::<ExecutorCall>::empty(),
    {
        let id = ids.fresh();
        TracingStage {
            name: stage_name("tracing", id),
            tracer_executor,
            restart_helper: RetryCountRestartHelper::new(),
            calls: Ghost(Seq::empty()),
        }
    }

    pub fn name(&self) -> (r: &String)
        ensures
            r@ == self.spec_name(),
    {
        &self.name
    }

    /// The tracer executor.
    pub fn executor(&self) -> (r: &TE)
        ensures
            *r == self.spec_executor(),
    {
        &self.tracer_executor
    }

    /// The tracer executor, mutably.
    pub fn executor_mut(&mut self) -> (r: &mut TE)
        ensures
            *r == old(self).spec_executor(),
            final(self).spec_executor() == *final(r),
            final(self).spec_name() == old(self).spec_name(),
            final(self).spec_restart_helper() == old(self).spec_restart_helper(),
    {
        &mut self.tracer_executor
    }

    /// Runs the tracer once on the scheduled entry's input: observers before,
    /// the target, observers after, each once and in this order, each on that
    /// input, stopping at the first executor error. Returns how the run ended.
    /// Without a scheduled entry this is an illegal state, and with a cursor
    /// on a missing entry `KeyNotFound`; nothing is called then.
    pub fn trace(&mut self, state: &FuzzerState) -> (r: Result<ExitKind, Error>)
        requires
            state.wf(),
        ensures
            state.corpus@.current.is_none() ==> r == Err::<ExitKind, Error>(Error::IllegalState)
                && final(self).spec_calls() == old(self).spec_calls(),
            state.corpus@.current.is_some() && !state.corpus@.contains(state.corpus@.current.unwrap().0) ==> r
                == Err::<ExitKind, Error>(Error::KeyNotFound) && final(self).spec_calls() == old(self).spec_calls(),
            r.is_ok() ==> state.corpus@.current.is_some() && state.corpus@.contains(state.corpus@.current.unwrap().0),
            state.corpus@.current.is_some() && state.corpus@.contains(state.corpus@.current.unwrap().0) ==> {
                let x = state.corpus@.get(state.corpus@.current.unwrap().0).input@;
                let added = final(self).spec_calls().subrange(
                    old(self).spec_calls().len() as int,
                    final(self).spec_calls().len() as int,
                );
                &&& old(self).spec_calls().len() <= final(self).spec_calls().len()
                &&& final(self).spec_calls().subrange(0, old(self).spec_calls().len() as int) == old(self).spec_calls()
                &&& r.is_ok() ==> added == seq![
                    ExecutorCall::PreExec(x),
                    ExecutorCall::Run(x),
                    ExecutorCall::PostExec(x, r.unwrap()),
                ]
                &&& r.is_err() ==> {
                    &&& 1 <= added.len() <= 3
                    &&& added[0] == ExecutorCall::PreExec(x)
                    &&& added.len() >= 2 ==> added[1] == ExecutorCall::Run(x)
                    &&& added.len() == 3 ==> (added[2] matches ExecutorCall::PostExec(y, _) && y == x)
                }
            },
            final(self).spec_name() == old(self).spec_name(),
            final(self).spec_restart_helper() == old(self).spec_restart_helper(),
    {
        let input = state.current_input_cloned()?;
        let ghost x = input@;
        let ghost c0 = self.calls@;
        let pre = self.tracer_executor.pre_exec_observers(&input);
        self.calls = Ghost(self.calls@.push(ExecutorCall::PreExec(x)));
        proof {
            assert(self.calls@.subrange(c0.len() as int, self.calls@.len() as int) =~= seq![ExecutorCall::PreExec(x)]);
            assert(self.calls@.subrange(0, c0.len() as int) =~= c0);
        }
        pre?;
        let run = self.tracer_executor.run_target(&input);
        self.calls = Ghost(self.calls@.push(ExecutorCall::Run(x)));
        proof {
            assert(self.calls@.subrange(c0.len() as int, self.calls@.len() as int) =~= seq![
                ExecutorCall::PreExec(x),
                ExecutorCall::Run(x),
            ]);
            assert(self.calls@.subrange(0, c0.len() as int) =~= c0);
        }
        let exit_kind = run?;
        let post = self.tracer_executor.post_exec_observers(&input, exit_kind);
        self.calls = Ghost(self.calls@.push(ExecutorCall::PostExec(x, exit_kind)));
        proof {
            assert(self.calls@.subrange(c0.len() as int, self.calls@.len() as int) =~= seq![
                ExecutorCall::PreExec(x),
                ExecutorCall::Run(x),
                ExecutorCall::PostExec(x, exit_kind),
            ]);
            assert(self.calls@.subrange(0, c0.len() as int) =~= c0);
        }
        post?;
        Ok(exit_kind)
    }

    /// One run of the stage.
    pub fn perform(&mut self, state: &FuzzerState) -> (r: Result<ExitKind, Error>)
        requires
            state.wf(),
        ensures
            r.is_ok() ==> state.corpus@.current.is_some() && state.corpus@.contains(
                state.corpus@.current.unwrap().0,
            ),
            final(self).spec_name() == old(self).spec_name(),
    {
        self.trace(state)
    }

    /// Whether to run on the scheduled entry: only if this stage was not
    /// already attempted on it. Without a scheduled entry this is an illegal state.
    pub fn should_restart(&mut self, state: &FuzzerState) -> (r: Result<bool, Error>)
        ensures
            state.corpus@.current.is_none() ==> r == Err::<bool, Error>(Error::IllegalState)
                && final(self).spec_restart_helper() == old(self).spec_restart_helper(),
            state.corpus@.current.is_some() ==> r == Ok::<bool, Error>(
                old(self).spec_restart_helper().attempted != state.corpus@.current,
            ) && final(self).spec_restart_helper().attempted == state.corpus@.current,
            final(self).spec_name() == old(self).spec_name(),
            final(self).spec_executor() == old(self).spec_executor(),
    {
        match state.corpus.current() {
            Some(id) => Ok(self.restart_helper.no_retry(id)),
            None => Err(Error::IllegalState),
        }
    }

    /// Forgets the attempt on the current entry.
    pub fn clear_progress(&mut self)
        ensures
            final(self).spec_restart_helper().attempted.is_none(),
            final(self).spec_name() == old(self).spec_name(),
            final(self).spec_executor() == old(self).spec_executor(),
    {
        self.restart_helper.clear_progress();
    }
}

} // verus!
