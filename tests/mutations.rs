use fuzzcore::corpus::Testcase;
use fuzzcore::error::{Error, ExitKind};
use fuzzcore::mutational::StdMutationalStage;
use fuzzcore::feedback::{feedback_or, feedback_or_fast, CrashFeedback, MaxMapFeedback, Observation, TimeFeedback, TimeoutFeedback};
use fuzzcore::fuzzer::{FuzzerState, StdFuzzer};
use fuzzcore::mutators::{
    bit_flip, byte_add, byte_delete, byte_insert, byte_interesting, byte_set, bytes_copy, havoc, havoc_op, splice,
    token_insert, token_replace, MutationResult, StdRand,
};
use fuzzcore::scheduler::QueueScheduler;

#[test]
fn single_byte_mutations() {
    let mut v = vec![0u8, 0, 0];
    assert_eq!(bit_flip(&mut v, 4, 10), MutationResult::Mutated);
    assert_eq!(v, vec![0, 4, 0]);
    assert_eq!(byte_set(&mut v, 2, 9), MutationResult::Mutated);
    assert_eq!(v, vec![0, 4, 9]);
    assert_eq!(byte_add(&mut v, 2, 250), MutationResult::Mutated);
    assert_eq!(v, vec![0, 4, 3]);
    assert_eq!(byte_interesting(&mut v, 0, 1), MutationResult::Mutated);
    assert_eq!(v, vec![255, 4, 3]);
    assert_eq!(byte_delete(&mut v, 1), MutationResult::Mutated);
    assert_eq!(v, vec![255, 3]);
    assert_eq!(byte_insert(&mut v, 3, 7, 1), MutationResult::Mutated);
    assert_eq!(v, vec![255, 1, 3]);
    assert_eq!(byte_insert(&mut v, 3, 0, 1), MutationResult::Skipped);
    let mut e: Vec<u8> = vec![];
    assert_eq!(bit_flip(&mut e, 0, 0), MutationResult::Skipped);
    assert_eq!(byte_delete(&mut e, 0), MutationResult::Skipped);
    assert!(e.is_empty());
}

#[test]
fn token_mutations() {
    let mut v = b"abcd".to_vec();
    assert_eq!(token_insert(&mut v, 10, &b"XY".to_vec(), 2), MutationResult::Mutated);
    assert_eq!(v, b"abXYcd".to_vec());
    assert_eq!(token_insert(&mut v, 7, &b"XY".to_vec(), 0), MutationResult::Skipped);
    assert_eq!(token_replace(&mut v, &b"123".to_vec(), 4), MutationResult::Mutated);
    assert_eq!(v, b"abXY12".to_vec());
    let mut empty: Vec<u8> = vec![];
    assert_eq!(token_insert(&mut empty, 8, &b"IHDR".to_vec(), 5), MutationResult::Mutated);
    assert_eq!(empty, b"IHDR".to_vec());
}

#[test]
fn block_mutations() {
    let mut v = vec![1u8, 2, 3, 4, 5];
    assert_eq!(bytes_copy(&mut v, 0, 3, 1), MutationResult::Mutated);
    assert_eq!(v, vec![1, 2, 3, 1, 2]);
    let mut a = vec![1u8, 1, 1, 1];
    assert_eq!(splice(&mut a, &vec![9u8, 9, 9, 9, 9, 9], 100, 2), MutationResult::Mutated);
    assert_eq!(a, vec![1, 1, 9, 9, 9, 9]);
    let mut b = vec![1u8, 1, 1, 1];
    assert_eq!(splice(&mut b, &vec![9u8, 9, 9, 9, 9, 9], 3, 2), MutationResult::Mutated);
    assert_eq!(b, vec![1, 1, 9]);
}

#[test]
fn random_source_is_deterministic() {
    let mut a = StdRand::with_seed(42);
    let mut b = StdRand::with_seed(42);
    for _ in 0..100 {
        assert_eq!(a.next(), b.next());
    }
    for _ in 0..100 {
        assert!(a.below(7) < 7);
    }
    let first = StdRand::with_seed(1).next();
    assert_eq!(first, 1 ^ 0x12345);
}

#[test]
fn havoc_respects_max_size() {
    let mut rand = StdRand::with_seed(7);
    let tokens = vec![b"IHDR".to_vec(), b"IEND".to_vec()];
    let other = vec![5u8; 40];
    let mut input = vec![1u8, 2, 3];
    let mut changed = 0;
    for _ in 0..500 {
        if havoc(&mut input, 32, &tokens, &other, &mut rand) == MutationResult::Mutated {
            changed += 1;
        }
        assert!(input.len() <= 32);
    }
    assert!(changed > 0);
    let mut e: Vec<u8> = vec![];
    assert_eq!(havoc_op(&mut e, 0, &vec![], &vec![], 7, 0, 0, 0), MutationResult::Skipped);
}

#[test]
fn png_dictionary_with_havoc() {
    let magic: Vec<u8> = vec![0x89, 0x50, 0x4E, 0x47, 0x0D, 0x0A, 0x1A, 0x0A];
    let tokens: Vec<Vec<u8>> =
        vec![magic.clone(), b"IHDR".to_vec(), b"IDAT".to_vec(), b"PLTE".to_vec(), b"IEND".to_vec()];
    let harness = |input: &[u8]| {
        let mut map = vec![0u8; 2];
        map[0] = 1;
        if input.starts_with(&magic) {
            map[1] = 1;
        }
        Observation { exit_kind: ExitKind::Normal, map, exec_time_nanos: 1 }
    };
    let mut f = StdFuzzer::new(
        QueueScheduler::new(),
        feedback_or(MaxMapFeedback::new(), TimeFeedback::new()),
        feedback_or_fast(CrashFeedback::new(), TimeoutFeedback::new()),
    );
    let mut state = FuzzerState::new(64);
    let mut rand = StdRand::with_seed(1337);
    let seed: Vec<u8> = vec![];
    f.evaluate_execution(&mut state, &seed, &harness(&seed));
    let mut found = false;
    for _ in 0..20_000 {
        let id = f.next_scheduled(&mut state).unwrap();
        let mut input = state.corpus.get(id).unwrap().input.clone();
        let other = input.clone();
        if havoc(&mut input, state.max_size, &tokens, &other, &mut rand) == MutationResult::Skipped {
            continue;
        }
        state.count_execution();
        f.evaluate_execution(&mut state, &input, &harness(&input));
        let mut cur = state.corpus.first();
        while let Some(c) = cur {
            if state.corpus.get(c).unwrap().input.starts_with(&magic) {
                found = true;
            }
            cur = state.corpus.next(c);
        }
        if found {
            break;
        }
    }
    assert!(found);
}

#[test]
fn mutational_stage_mutates_the_scheduled_entry() {
    let stage = StdMutationalStage::new();
    assert_eq!(stage.max_iterations, 128);
    let mut rand = StdRand::with_seed(3);
    for _ in 0..50 {
        let n = stage.iterations(&mut rand);
        assert!((1..=128).contains(&n));
    }
    let mut state = FuzzerState::new(16);
    assert!(matches!(stage.mutant(&state, &vec![], &mut rand), Err(Error::IllegalState)));
    let id = state.corpus.add(Testcase::new(vec![1, 2, 3, 4]));
    state.corpus.set_current(Some(id));
    let mut mutated = 0;
    for _ in 0..50 {
        if let Some(m) = stage.mutant(&state, &vec![b"IEND".to_vec()], &mut rand).unwrap() {
            assert!(m.len() <= 16);
            mutated += 1;
        }
    }
    assert!(mutated > 0);
    assert_eq!(state.corpus.get(id).unwrap().input, vec![1, 2, 3, 4]);
}

#[test]
fn havoc_is_the_stack_of_its_draws() {
    let tokens = vec![b"IHDR".to_vec(), vec![0x89, 0x50]];
    let other = vec![7u8; 12];
    for seed in 0..20u64 {
        let mut rand = StdRand::with_seed(seed);
        let mut copy = rand;
        let mut input = vec![1u8, 2, 3, 4, 5];
        let mut manual = input.clone();
        let r = havoc(&mut input, 24, &tokens, &other, &mut rand);
        let k = copy.below(7);
        let mut mutated = false;
        for _ in 0..(2u64 << k) {
            let op = copy.next();
            let a = copy.next();
            let b = copy.next();
            let c = copy.next();
            if havoc_op(&mut manual, 24, &tokens, &other, op, a, b, c) == MutationResult::Mutated {
                mutated = true;
            }
        }
        assert_eq!(input, manual);
        assert_eq!(rand, copy);
        assert_eq!(r == MutationResult::Mutated, mutated);
    }
}
