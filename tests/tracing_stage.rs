use fuzzcore::corpus::Testcase;
use fuzzcore::error::{Error, ExitKind};
use fuzzcore::fuzzer::FuzzerState;
use fuzzcore::stage::StageIds;
use fuzzcore::tracing::{Executor, TracingStage};

#[derive(Default)]
struct Recorder {
    seen: Vec<Vec<u8>>,
    calls: Vec<&'static str>,
}

impl Executor for Recorder {
    fn pre_exec_observers(&mut self, _input: &Vec<u8>) -> Result<(), Error> {
        self.calls.push("pre");
        Ok(())
    }

    fn run_target(&mut self, input: &Vec<u8>) -> Result<ExitKind, Error> {
        self.calls.push("run");
        self.seen.push(input.clone());
        if input == &vec![0xEE] {
            return Err(Error::IO);
        }
        Ok(if input.is_empty() { ExitKind::Crash } else { ExitKind::Normal })
    }

    fn post_exec_observers(&mut self, _input: &Vec<u8>, _exit_kind: ExitKind) -> Result<(), Error> {
        self.calls.push("post");
        Ok(())
    }
}

#[test]
fn trace_runs_the_scheduled_input_once() {
    let mut ids = StageIds::new();
    let mut stage = TracingStage::new(Recorder::default(), &mut ids);
    assert_eq!(stage.name(), "tracing:0");
    let mut state = FuzzerState::new(8);
    assert_eq!(stage.trace(&state), Err(Error::IllegalState));
    assert!(stage.executor().seen.is_empty());
    let id = state.corpus.add(Testcase::new(vec![5, 6]));
    state.corpus.set_current(Some(id));
    assert_eq!(stage.perform(&state), Ok(ExitKind::Normal));
    assert_eq!(stage.executor().seen, vec![vec![5, 6]]);
    assert_eq!(stage.executor().calls, vec!["pre", "run", "post"]);
    stage.executor_mut().seen.clear();
    assert!(stage.executor().seen.is_empty());
}

#[test]
fn tracing_is_not_retried_on_the_same_entry() {
    let mut ids = StageIds::new();
    let mut stage = TracingStage::new(Recorder::default(), &mut ids);
    let mut state = FuzzerState::new(8);
    assert_eq!(stage.should_restart(&state), Err(Error::IllegalState));
    let id = state.corpus.add(Testcase::new(vec![]));
    state.corpus.set_current(Some(id));
    assert_eq!(stage.should_restart(&state), Ok(true));
    assert_eq!(stage.should_restart(&state), Ok(false));
    stage.clear_progress();
    assert_eq!(stage.should_restart(&state), Ok(true));
    assert_eq!(stage.trace(&state), Ok(ExitKind::Crash));
}

#[test]
fn executor_errors_stop_the_trace() {
    let mut ids = StageIds::new();
    let mut stage = TracingStage::new(Recorder::default(), &mut ids);
    let mut state = FuzzerState::new(8);
    let id = state.corpus.add(Testcase::new(vec![0xEE]));
    state.corpus.set_current(Some(id));
    assert_eq!(stage.trace(&state), Err(Error::IO));
    assert_eq!(stage.executor().calls, vec!["pre", "run"]);
}
