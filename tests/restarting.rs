use fuzzcore::corpus::{CorpusId, Testcase};
use fuzzcore::error::{Error, ExitKind};
use fuzzcore::feedback::{feedback_or, feedback_or_fast, CrashFeedback, MaxMapFeedback, Observation, TimeFeedback, TimeoutFeedback};
use fuzzcore::fuzzer::{FuzzerState, StdFuzzer};
use fuzzcore::restart::{load_state, save_state};
use fuzzcore::runtime::{on_worker_exit, LauncherAction, WorkerExit, WorkerSlot};
use fuzzcore::scheduler::QueueScheduler;

fn harness(input: &[u8]) -> Observation {
    let mut map = vec![0u8; 256];
    for b in input {
        map[*b as usize] = map[*b as usize].saturating_add(1);
    }
    let kind = if input.first() == Some(&0xAA) { ExitKind::Crash } else { ExitKind::Normal };
    Observation { exit_kind: kind, map, exec_time_nanos: 2 }
}

#[test]
fn saved_state_loads_back() {
    let mut state = FuzzerState::new(32);
    let mut t = Testcase::new(vec![1, 2, 3]);
    t.executions = 9;
    t.parent_id = Some(CorpusId(0));
    t.crash_cause = None;
    t.exec_time_nanos = Some(12);
    t.depth = 2;
    t.n_fuzz_entry = Some(77);
    state.corpus.add(Testcase::new(vec![]));
    let kept = state.corpus.add(t);
    assert!(state.corpus.remove(CorpusId(0)).is_ok());
    state.corpus.set_current(Some(kept));
    let mut sol = Testcase::new(vec![0xAA]);
    sol.crash_cause = Some(ExitKind::Oom);
    state.solutions.add(sol);
    for _ in 0..5 {
        state.count_execution();
    }
    let image = save_state(&state);
    let back = load_state(&image, 64).unwrap();
    assert_eq!(back.executions, 5);
    assert_eq!(back.max_size, 64);
    assert_eq!(back.corpus.count(), 1);
    assert_eq!(back.corpus.next_id(), 2);
    assert_eq!(back.corpus.current(), Some(kept));
    let t = back.corpus.get(kept).unwrap();
    assert_eq!(t.input, vec![1, 2, 3]);
    assert_eq!(t.executions, 9);
    assert_eq!(t.parent_id, Some(CorpusId(0)));
    assert_eq!(t.exec_time_nanos, Some(12));
    assert_eq!(t.depth, 2);
    assert_eq!(t.n_fuzz_entry, Some(77));
    assert_eq!(back.solutions.count(), 1);
    assert_eq!(back.solutions.get(CorpusId(0)).unwrap().crash_cause, Some(ExitKind::Oom));
}

#[test]
fn malformed_images_are_rejected() {
    let state = FuzzerState::new(32);
    let image = save_state(&state);
    assert_eq!(image.len(), 8 + 2 * (8 + 8 + 8));
    assert!(load_state(&image, 1).is_ok());
    assert!(matches!(load_state(&image[..image.len() - 1], 1), Err(Error::Serialize)));
    let mut longer = image.clone();
    longer.push(0);
    assert!(matches!(load_state(&longer, 1), Err(Error::Serialize)));
    let mut bad_tag = image.clone();
    bad_tag[16] = 7;
    assert!(matches!(load_state(&bad_tag, 1), Err(Error::Serialize)));
    assert!(matches!(load_state(&[], 1), Err(Error::Serialize)));
}

#[test]
fn ids_out_of_order_are_rejected() {
    let mut state = FuzzerState::new(32);
    state.corpus.add(Testcase::new(vec![1]));
    let image = save_state(&state);
    // id counter word of the corpus: set it to 0, below the entry's id
    let mut bad = image.clone();
    for b in &mut bad[8..16] {
        *b = 0;
    }
    assert!(matches!(load_state(&bad, 1), Err(Error::Serialize)));
}

#[test]
fn restart_under_crash_keeps_counters_and_ids() {
    let mut f = StdFuzzer::new(
        QueueScheduler::new(),
        feedback_or(MaxMapFeedback::new(), TimeFeedback::new()),
        feedback_or_fast(CrashFeedback::new(), TimeoutFeedback::new()),
    );
    let mut state = FuzzerState::new(64);
    let mut issued: Vec<usize> = Vec::new();
    let mut slot = WorkerSlot { loaded_initial_inputs: true, early_failures: 0 };
    let mut image = save_state(&state);
    for round in 0..40u8 {
        let input = vec![round % 20, round];
        state.count_execution();
        if let (_, Some(id)) = f.evaluate_execution(&mut state, &input, &harness(&input)) {
            issued.push(id.0);
        }
        image = save_state(&state);
    }
    let before = (state.executions, state.corpus.count(), state.solutions.count());
    // the worker dies; the launcher respawns it and it loads its image
    assert_eq!(on_worker_exit(&mut slot, WorkerExit::Failed, 3), LauncherAction::Respawn);
    let mut state = load_state(&image, 64).unwrap();
    assert!(state.executions >= before.0);
    assert!(state.corpus.count() >= before.1);
    assert!(state.solutions.count() >= before.2);
    for round in 40..60u8 {
        let input = vec![round, round, 0xAA];
        state.count_execution();
        if let (_, Some(id)) = f.evaluate_execution(&mut state, &input, &harness(&input)) {
            issued.push(id.0);
        }
    }
    let mut sorted = issued.clone();
    sorted.sort();
    sorted.dedup();
    assert_eq!(sorted.len(), issued.len());
}
