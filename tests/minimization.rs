use fuzzcore::corpus::{CorpusId, Testcase};
use fuzzcore::error::{Error, ExitKind};
use fuzzcore::feedback::{feedback_or, feedback_or_fast, CrashFeedback, MaxMapFeedback, Observation, TimeFeedback, TimeoutFeedback};
use fuzzcore::fuzzer::{FuzzerState, StdFuzzer};
use fuzzcore::scheduler::QueueScheduler;
use fuzzcore::stage::StageIds;
use fuzzcore::tmin::{input_digest, observer_digest, ObserverEqualityFactory, StdTMinMutationalStage, TminRun};

/// Coverage depends on the first four bytes only.
fn harness(input: &[u8]) -> Observation {
    let mut map = vec![0u8; 4];
    for (i, b) in input.iter().take(4).enumerate() {
        map[i] = *b;
    }
    Observation { exit_kind: ExitKind::Normal, map, exec_time_nanos: 1 }
}

/// Drops the last byte; declines on an empty input.
struct DropLast;

impl DropLast {
    fn mutate(&mut self, input: &mut Vec<u8>) -> bool {
        input.pop().is_some()
    }
}

#[test]
fn minimization_shrinks_to_the_covering_prefix() {
    let mut f = StdFuzzer::new(
        QueueScheduler::new(),
        feedback_or(MaxMapFeedback::new(), TimeFeedback::new()),
        feedback_or_fast(CrashFeedback::new(), TimeoutFeedback::new()),
    );
    let mut state = FuzzerState::new(4096);
    let mut seed: Vec<u8> = vec![0xDE, 0xAD, 0xBE, 0xEF];
    seed.extend(std::iter::repeat(0u8).take(96));
    let (_, added) = f.evaluate_execution(&mut state, &seed, &harness(&seed));
    let id = added.unwrap();
    assert_eq!(f.next_scheduled(&mut state), Ok(id));

    let mut ids = StageIds::new();
    let mut stage = StdTMinMutationalStage::new(DropLast, ObserverEqualityFactory::new(), 200, &mut ids);
    assert_eq!(stage.name(), "tmin:0");
    assert_eq!(stage.iterations(), 200);

    let start = stage.begin(&state).unwrap().unwrap();
    assert_eq!(start.base_id, id);
    assert_eq!(start.num, 200);
    let first = harness(&start.base);
    state.count_execution();
    let orig_digest = observer_digest(&first);
    let mut run = TminRun::new(&stage, start, &state, &first);

    let mut steps = 0;
    while !run.is_done() {
        steps += 1;
        assert!(steps < 10_000);
        run.prepare_mutation(&mut state);
        assert_eq!(state.max_size, run.base().len());
        let mut candidate = run.base().clone();
        if !stage.mutator_mut().mutate(&mut candidate) {
            continue;
        }
        if !run.should_execute(&candidate) {
            continue;
        }
        let o = harness(&candidate);
        state.count_execution();
        run.report(&mut f, &mut state, candidate, &o);
    }
    assert_eq!(run.base().len(), 4);
    let replacement = run.replacement(input_digest(run.base())).cloned();
    assert_eq!(replacement, Some(vec![0xDE, 0xAD, 0xBE, 0xEF]));
    let o = harness(&replacement.unwrap());
    assert_eq!(observer_digest(&o), orig_digest);
    let prev = run.commit(&mut f, &mut state, &o).unwrap();
    assert_eq!(prev.input.len(), 100);
    let stored = state.corpus.get(id).unwrap();
    assert_eq!(stored.input, vec![0xDE, 0xAD, 0xBE, 0xEF]);
    assert_eq!(stored.parent_id, Some(id));
    assert_eq!(state.corpus.count(), 1);
    assert_eq!(state.max_size, 4096);
    assert_eq!(observer_digest(&harness(&stored.input)), orig_digest);
}

#[test]
fn minimization_without_progress_needs_no_replacement() {
    let mut state = FuzzerState::new(64);
    let id = state.corpus.add(Testcase::new(vec![1, 2, 3]));
    state.corpus.set_current(Some(id));
    let mut ids = StageIds::new();
    let _other = ids.fresh();
    let mut stage = StdTMinMutationalStage::new(DropLast, ObserverEqualityFactory::new(), 5, &mut ids);
    assert_eq!(stage.name(), "tmin:1");
    let start = stage.begin(&state).unwrap().unwrap();
    let first = harness(&start.base);
    let mut run = TminRun::new(&stage, start, &state, &first);
    // a mutant that is not shorter is never run but spends a run
    for _ in 0..5 {
        assert!(!run.should_execute(&vec![1, 2, 3, 4]));
    }
    assert!(run.is_done());
    assert!(run.replacement(input_digest(run.base())).is_none());
    run.finish(&mut state);
    assert_eq!(state.max_size, 64);
}

#[test]
fn accept_or_spend_rules() {
    let mut state = FuzzerState::new(64);
    let id = state.corpus.add(Testcase::new(vec![1, 2, 3, 4, 5]));
    state.corpus.set_current(Some(id));
    let mut ids = StageIds::new();
    let mut stage = StdTMinMutationalStage::new(DropLast, ObserverEqualityFactory::new(), 3, &mut ids);
    let start = stage.begin(&state).unwrap().unwrap();
    let first = harness(&start.base);
    let d = observer_digest(&first);
    let mut run = TminRun::new(&stage, start, &state, &first);
    // fuzzer found something new: rejected although the digest matches
    assert!(!run.accept_or_spend(vec![1, 2, 3, 4], true, d));
    // digest differs: rejected
    assert!(!run.accept_or_spend(vec![1, 2, 3, 4], false, d ^ 1));
    // accepted: the runs start over
    assert!(run.accept_or_spend(vec![1, 2, 3, 4], false, d));
    assert_eq!(run.base(), &vec![1, 2, 3, 4]);
    assert!(!run.is_done());
    assert!(run.replacement(input_digest(&vec![1, 2, 3, 4, 5])).is_none());
    assert_eq!(run.replacement(input_digest(&vec![1, 2, 3, 4])).cloned(), Some(vec![1, 2, 3, 4]));
}

#[test]
fn minimization_needs_a_scheduled_entry() {
    let state = FuzzerState::new(8);
    let mut ids = StageIds::new();
    let mut stage = StdTMinMutationalStage::new(DropLast, ObserverEqualityFactory::new(), 3, &mut ids);
    assert!(matches!(stage.begin(&state), Err(Error::IllegalState)));
}

#[test]
fn progress_counts_against_the_runs() {
    let mut state = FuzzerState::new(8);
    let id = state.corpus.add(Testcase::new(vec![1]));
    state.corpus.set_current(Some(id));
    let mut ids = StageIds::new();
    let mut stage = StdTMinMutationalStage::new(DropLast, ObserverEqualityFactory::new(), 3, &mut ids);
    assert!(stage.should_restart(&state));
    for _ in 0..3 {
        state.count_execution();
    }
    assert_eq!(stage.execs_since_progress_start(&state), 3);
    assert!(matches!(stage.begin(&state), Ok(None)));
    stage.clear_progress();
    assert!(matches!(stage.begin(&state), Ok(Some(_))));
}

#[test]
fn observer_equality_feedback_remembers_its_last_result() {
    let factory = ObserverEqualityFactory::new();
    let o = harness(&[1, 2]);
    let mut fb = factory.create_feedback(&o);
    assert_eq!(fb.name(), "ObserverEq");
    assert_eq!(fb.last_result(), Err(Error::IllegalState));
    assert!(fb.is_interesting(&o));
    assert_eq!(fb.last_result(), Ok(true));
    assert!(!fb.is_interesting(&harness(&[9, 9])));
    assert_eq!(fb.last_result(), Ok(false));
    let d = fb.orig_hash;
    assert!(fb.matches_digest(d));
    assert!(!fb.matches_digest(d.wrapping_add(1)));
    let _ = CorpusId(0);
}
