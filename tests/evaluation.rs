use fuzzcore::corpus::CorpusId;
use fuzzcore::error::{Error, ExitKind};
use fuzzcore::feedback::{feedback_or, feedback_or_fast, CrashFeedback, MaxMapFeedback, Observation, TimeFeedback, TimeoutFeedback};
use fuzzcore::fuzzer::{do_fuzz, FuzzPlan, FuzzerState, LibfuzzerOptions, StdFuzzer};
use fuzzcore::minimizer::MinimizerScheduler;
use fuzzcore::scheduler::{PowerQueueScheduler, PowerSchedule, QueueScheduler};

type Std = StdFuzzer<
    fuzzcore::feedback::EagerOr<MaxMapFeedback, TimeFeedback>,
    fuzzcore::feedback::FastOr<CrashFeedback, TimeoutFeedback>,
    QueueScheduler,
>;

fn fuzzer() -> Std {
    StdFuzzer::new(
        QueueScheduler::new(),
        feedback_or(MaxMapFeedback::new(), TimeFeedback::new()),
        feedback_or_fast(CrashFeedback::new(), TimeoutFeedback::new()),
    )
}

/// Coverage: one edge per distinct byte value seen.
fn harness(input: &[u8]) -> Observation {
    let mut map = vec![0u8; 256];
    for b in input {
        map[*b as usize] = 1;
    }
    let kind = if input.contains(&0xFF) { ExitKind::Crash } else { ExitKind::Normal };
    Observation { exit_kind: kind, map, exec_time_nanos: 10 }
}

#[test]
fn discover_a_single_new_edge_until_crash() {
    let mut f = fuzzer();
    let mut state = FuzzerState::new(1024);
    let seed = vec![0x00u8];
    let o = harness(&seed);
    state.count_execution();
    assert_eq!(f.evaluate_execution(&mut state, &seed, &o), (false, Some(CorpusId(0))));
    let mut input = seed.clone();
    let mut found = false;
    for _ in 0..300 {
        // a deterministic byte-increment mutation
        input[0] = input[0].wrapping_add(1);
        let o = harness(&input);
        state.count_execution();
        let (is_solution, _) = f.evaluate_execution(&mut state, &input, &o);
        if is_solution {
            found = true;
            break;
        }
    }
    assert!(found);
    assert!(state.solutions.count() >= 1);
    let last = state.solutions.last().unwrap();
    let sol = state.solutions.get(last).unwrap();
    assert_eq!(sol.crash_cause, Some(ExitKind::Crash));
    assert_eq!(sol.input, vec![0xFF]);
    assert_eq!(sol.executions, 256);
}

#[test]
fn objective_or_order_on_timeout() {
    let mut f = fuzzer();
    let mut state = FuzzerState::new(16);
    let o = Observation { exit_kind: ExitKind::Timeout, map: vec![1], exec_time_nanos: 5 };
    let r = f.evaluate_execution(&mut state, &vec![7], &o);
    assert_eq!(r, (true, None));
    let sol = state.solutions.get(CorpusId(0)).unwrap();
    assert_eq!(sol.crash_cause, Some(ExitKind::Timeout));
    assert_eq!(f.objective.first.hits, 0);
    assert_eq!(f.objective.second.hits, 1);
    // the feedback was not asked: its novelty map did not learn the map
    assert!(f.feedback.first.history.is_empty());
    assert_eq!(state.corpus.count(), 0);
}

#[test]
fn crash_skips_the_timeout_leaf() {
    let mut f = fuzzer();
    let mut state = FuzzerState::new(16);
    let o = Observation { exit_kind: ExitKind::Crash, map: vec![1], exec_time_nanos: 5 };
    assert_eq!(f.evaluate_execution(&mut state, &vec![1], &o), (true, None));
    assert_eq!(f.objective.second.evaluations, 0);
}

#[test]
fn interesting_input_is_added_with_metadata() {
    let mut f = fuzzer();
    let mut state = FuzzerState::new(16);
    state.count_execution();
    state.count_execution();
    let o = Observation { exit_kind: ExitKind::Normal, map: vec![0, 2], exec_time_nanos: 42 };
    assert_eq!(f.evaluate_execution(&mut state, &vec![3, 4], &o), (false, Some(CorpusId(0))));
    let t = state.corpus.get(CorpusId(0)).unwrap();
    assert_eq!(t.input, vec![3, 4]);
    assert_eq!(t.executions, 2);
    assert_eq!(t.exec_time_nanos, Some(42));
    assert_eq!(t.parent_id, None);
    // same coverage again: nothing is stored
    assert_eq!(f.evaluate_execution(&mut state, &vec![5], &o), (false, None));
    assert_eq!(state.corpus.count(), 1);
}

#[test]
fn fuzz_one_picks_entries_round_robin() {
    let mut f = fuzzer();
    let mut state = FuzzerState::new(16);
    assert_eq!(f.next_scheduled(&mut state), Err(Error::Empty));
    let o = Observation { exit_kind: ExitKind::Normal, map: vec![1], exec_time_nanos: 1 };
    f.evaluate_execution(&mut state, &vec![1], &o);
    assert_eq!(f.next_scheduled(&mut state), Ok(CorpusId(0)));
    assert_eq!(state.current_input_cloned(), Ok(vec![1]));
}

fn options(runs: usize) -> LibfuzzerOptions {
    LibfuzzerOptions { ignore_crashes: false, ignore_timeouts: true, ignore_ooms: false, runs }
}

#[test]
fn do_fuzz_plans_runs() {
    let state = FuzzerState::new(16);
    assert_eq!(do_fuzz(&options(0), &state), Ok(FuzzPlan::Forever));
    assert_eq!(do_fuzz(&options(7), &state), Ok(FuzzPlan::Iterations(7)));
}

#[test]
fn do_fuzz_halts_on_unignored_solution() {
    let mut f = fuzzer();
    let mut state = FuzzerState::new(16);
    let crash = Observation { exit_kind: ExitKind::Crash, map: vec![], exec_time_nanos: 1 };
    f.evaluate_execution(&mut state, &vec![1], &crash);
    assert_eq!(do_fuzz(&options(3), &state), Err(Error::ShuttingDown));
}

#[test]
fn do_fuzz_ignores_ignored_solution() {
    let mut f = fuzzer();
    let mut state = FuzzerState::new(16);
    let timeout = Observation { exit_kind: ExitKind::Timeout, map: vec![], exec_time_nanos: 1 };
    f.evaluate_execution(&mut state, &vec![1], &timeout);
    assert_eq!(do_fuzz(&options(3), &state), Ok(FuzzPlan::Iterations(3)));
}

#[test]
fn do_fuzz_needs_a_crash_cause() {
    let mut state = FuzzerState::new(16);
    state.solutions.add(fuzzcore::corpus::Testcase::new(vec![1]));
    assert_eq!(do_fuzz(&options(3), &state), Err(Error::KeyNotFound));
}

#[test]
fn png_dictionary_reaches_the_magic() {
    let magic: Vec<u8> = vec![0x89, 0x50, 0x4E, 0x47, 0x0D, 0x0A, 0x1A, 0x0A];
    let tokens: Vec<Vec<u8>> =
        vec![magic.clone(), b"IHDR".to_vec(), b"IDAT".to_vec(), b"PLTE".to_vec(), b"IEND".to_vec()];
    let png_harness = |input: &[u8]| {
        let mut map = vec![0u8; 4];
        map[0] = 1;
        if input.starts_with(&magic) {
            map[1] = 1;
        }
        Observation { exit_kind: ExitKind::Normal, map, exec_time_nanos: 3 }
    };
    let mut f = fuzzer();
    let mut state = FuzzerState::new(64);
    let seed: Vec<u8> = vec![];
    f.evaluate_execution(&mut state, &seed, &png_harness(&seed));
    let mut found = false;
    for i in 0..20usize {
        // token insertion at the front of the scheduled entry
        let id = f.next_scheduled(&mut state).unwrap();
        let mut input = state.corpus.get(id).unwrap().input.clone();
        let tok = &tokens[i % tokens.len()];
        input.splice(0..0, tok.iter().cloned());
        let o = png_harness(&input);
        state.count_execution();
        f.evaluate_execution(&mut state, &input, &o);
        let mut cur = state.corpus.first();
        while let Some(c) = cur {
            if state.corpus.get(c).unwrap().input.starts_with(&magic) {
                found = true;
            }
            cur = state.corpus.next(c);
        }
        if found {
            break;
        }
    }
    assert!(found);
}

#[test]
fn power_scheduler_is_told_of_new_entries() {
    let mut state = FuzzerState::new(16);
    let sched = PowerQueueScheduler::new(&mut state.scheduler_metadata, PowerSchedule::FAST);
    let mut f = StdFuzzer::new(
        sched,
        feedback_or(MaxMapFeedback::new(), TimeFeedback::new()),
        feedback_or_fast(CrashFeedback::new(), TimeoutFeedback::new()),
    );
    let o = Observation { exit_kind: ExitKind::Normal, map: vec![1], exec_time_nanos: 1 };
    f.evaluate_execution(&mut state, &vec![1], &o);
    assert_eq!(f.next_scheduled(&mut state), Ok(CorpusId(0)));
    let m = state.scheduler_metadata.as_mut().unwrap();
    f.scheduler.on_evaluation_hash(m, 77);
    let o = Observation { exit_kind: ExitKind::Normal, map: vec![1, 1], exec_time_nanos: 1 };
    assert_eq!(f.evaluate_execution(&mut state, &vec![2], &o), (false, Some(CorpusId(1))));
    let t = state.corpus.get(CorpusId(1)).unwrap();
    assert_eq!(t.parent_id, Some(CorpusId(0)));
    assert_eq!(t.depth, 1);
    assert_eq!(t.n_fuzz_entry, Some(77));
    assert_eq!(f.next_scheduled(&mut state), Ok(CorpusId(1)));
}

#[test]
fn minimizer_scheduler_is_told_of_new_entries() {
    let mut state = FuzzerState::new(16);
    let mut f = StdFuzzer::new(
        MinimizerScheduler::new(QueueScheduler::new()),
        feedback_or(MaxMapFeedback::new(), TimeFeedback::new()),
        feedback_or_fast(CrashFeedback::new(), TimeoutFeedback::new()),
    );
    let o = Observation { exit_kind: ExitKind::Normal, map: vec![0, 1, 0, 1], exec_time_nanos: 10 };
    f.evaluate_execution(&mut state, &vec![1, 2, 3], &o);
    assert_eq!(f.scheduler.top_rated(1), Some(CorpusId(0)));
    assert_eq!(f.scheduler.top_rated(3), Some(CorpusId(0)));
    assert_eq!(f.scheduler.top_rated(0), None);
    let o = Observation { exit_kind: ExitKind::Normal, map: vec![0, 2, 0, 1], exec_time_nanos: 1 };
    f.evaluate_execution(&mut state, &vec![1], &o);
    assert_eq!(f.scheduler.top_rated(1), Some(CorpusId(1)));
    assert!(f.scheduler.is_favored(CorpusId(0)) || f.scheduler.is_favored(CorpusId(1)));
}
