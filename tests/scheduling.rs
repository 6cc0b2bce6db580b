use fuzzcore::corpus::{Corpus, CorpusId, Testcase};
use fuzzcore::error::Error;
use fuzzcore::scheduler::{PowerQueueScheduler, PowerSchedule, QueueScheduler, SchedulerMetadata, N_FUZZ_SIZE};

fn corpus_of(n: usize) -> Corpus {
    let mut c = Corpus::new();
    for i in 0..n {
        c.add(Testcase::new(vec![i as u8]));
    }
    c
}

#[test]
fn scheduler_wrap_seven_calls_on_three_entries() {
    let mut c = corpus_of(3);
    let mut s = QueueScheduler::new();
    let mut got = Vec::new();
    for _ in 0..7 {
        got.push(s.next(&mut c).unwrap().0);
    }
    assert_eq!(got, vec![0, 1, 2, 0, 1, 2, 0]);
    assert_eq!(s.queue_cycles(), 2);
}

#[test]
fn round_robin_covers_every_entry_within_n_calls() {
    let mut c = corpus_of(5);
    let mut s = QueueScheduler::new();
    // start from the middle of the queue
    c.set_current(Some(CorpusId(2)));
    let mut got = Vec::new();
    for _ in 0..5 {
        got.push(s.next(&mut c).unwrap().0);
    }
    got.sort();
    assert_eq!(got, vec![0, 1, 2, 3, 4]);
    assert_eq!(s.queue_cycles(), 1);
}

#[test]
fn empty_corpus_cannot_be_scheduled() {
    let mut c = Corpus::new();
    let mut s = QueueScheduler::new();
    assert_eq!(s.next(&mut c), Err(Error::Empty));
    assert_eq!(s.queue_cycles(), 0);
}

#[test]
fn removed_cursor_wraps_to_first() {
    let mut c = corpus_of(3);
    let mut s = QueueScheduler::new();
    assert_eq!(s.next(&mut c).unwrap(), CorpusId(0));
    assert_eq!(s.next(&mut c).unwrap(), CorpusId(1));
    assert!(c.remove(CorpusId(1)).is_ok());
    assert_eq!(s.next(&mut c).unwrap(), CorpusId(0));
    assert_eq!(s.queue_cycles(), 1);
}

#[test]
fn n_fuzz_has_two_to_the_twenty_one_slots() {
    let m = SchedulerMetadata::new(Some(PowerSchedule::FAST));
    assert_eq!(N_FUZZ_SIZE, 1 << 21);
    assert_eq!(m.n_fuzz().len(), 1 << 21);
    assert!(m.n_fuzz().iter().all(|v| *v == 0));
    assert_eq!(m.strat(), Some(PowerSchedule::FAST));
}

#[test]
fn record_path_uses_hash_modulo_table_size_and_saturates() {
    let mut m = SchedulerMetadata::new(None);
    let hash: u64 = (1u64 << 21) * 7 + 12345;
    assert_eq!(m.record_path(hash), 12345);
    assert_eq!(m.record_path(u64::MAX), ((u64::MAX) % (1 << 21)) as usize);
    assert_eq!(m.n_fuzz()[12345], 1);
    m.n_fuzz[99] = u32::MAX;
    assert_eq!(m.record_path(99), 99);
    assert_eq!(m.n_fuzz()[99], u32::MAX);
}

#[test]
fn power_scheduler_creates_metadata_once_and_counts_paths() {
    let mut meta: Option<SchedulerMetadata> = None;
    let mut s = PowerQueueScheduler::new(&mut meta, PowerSchedule::EXPLORE);
    assert_eq!(meta.as_ref().unwrap().strat(), Some(PowerSchedule::EXPLORE));
    let _again = PowerQueueScheduler::new(&mut meta, PowerSchedule::QUAD);
    assert_eq!(meta.as_ref().unwrap().strat(), Some(PowerSchedule::EXPLORE));
    let m = meta.as_mut().unwrap();
    s.on_evaluation_hash(m, 5);
    s.on_evaluation_hash(m, 5 + (1 << 21));
    assert_eq!(m.n_fuzz()[5], 2);
    assert_eq!(s.last_hash(), 5 + (1 << 21));
    assert_eq!(s.strat(), PowerSchedule::EXPLORE);
}

#[test]
fn power_scheduler_digests_the_map() {
    let mut meta: Option<SchedulerMetadata> = None;
    let mut s = PowerQueueScheduler::new(&mut meta, PowerSchedule::FAST);
    let m = meta.as_mut().unwrap();
    s.on_evaluation(m, &[1, 2, 3]);
    let slot = (s.last_hash() % (1 << 21)) as usize;
    assert_eq!(m.n_fuzz()[slot], 1);
    let total: u64 = m.n_fuzz().iter().map(|v| *v as u64).sum();
    assert_eq!(total, 1);
}

#[test]
fn power_scheduler_publishes_queue_cycles() {
    let mut meta: Option<SchedulerMetadata> = None;
    let mut s = PowerQueueScheduler::new(&mut meta, PowerSchedule::LIN);
    let m = meta.as_mut().unwrap();
    let mut c = corpus_of(2);
    assert_eq!(s.next(&mut c, m).unwrap(), CorpusId(0));
    assert_eq!(s.next(&mut c, m).unwrap(), CorpusId(1));
    assert_eq!(s.next(&mut c, m).unwrap(), CorpusId(0));
    assert_eq!(s.queue_cycles(), 1);
    assert_eq!(m.queue_cycles(), 1);
}

#[test]
fn power_scheduler_on_add_sets_parent_depth_and_slot() {
    let mut meta: Option<SchedulerMetadata> = None;
    let mut s = PowerQueueScheduler::new(&mut meta, PowerSchedule::COE);
    let mut c = corpus_of(1);
    let parent = CorpusId(0);
    c.get_mut(parent).unwrap().depth = 3;
    c.set_current(Some(parent));
    s.set_last_hash((1 << 21) + 9);
    let child = c.add(Testcase::new(vec![9]));
    s.on_add(&mut c, child).unwrap();
    let t = c.get(child).unwrap();
    assert_eq!(t.parent_id, Some(parent));
    assert_eq!(t.depth, 4);
    assert_eq!(t.n_fuzz_entry, Some(9));
    assert_eq!(s.on_add(&mut c, CorpusId(42)), Err(Error::KeyNotFound));
}

#[test]
fn metadata_setters() {
    let mut m = SchedulerMetadata::new(None);
    m.set_strat(Some(PowerSchedule::EXPLOIT));
    m.set_exec_time(1500);
    m.set_cycles(3);
    m.set_bitmap_size(65536);
    m.set_bitmap_entries(12);
    m.set_queue_cycles(4);
    assert_eq!(m.strat(), Some(PowerSchedule::EXPLOIT));
    assert_eq!(m.exec_time(), 1500);
    assert_eq!(m.cycles(), 3);
    assert_eq!(m.bitmap_size(), 65536);
    assert_eq!(m.bitmap_entries(), 12);
    assert_eq!(m.queue_cycles(), 4);
}

#[test]
fn power_scheduler_keeps_counts_on_remove_and_replace() {
    let mut meta: Option<SchedulerMetadata> = None;
    let mut s = PowerQueueScheduler::new(&mut meta, PowerSchedule::FAST);
    let m = meta.as_mut().unwrap();
    s.on_evaluation_hash(m, 3);
    assert_eq!(s.on_remove(m, CorpusId(0)), Ok(()));
    assert_eq!(s.on_replace(m, CorpusId(0)), Ok(()));
    assert_eq!(m.n_fuzz()[3], 1);
    assert_eq!(s.last_hash(), 3);
}

#[test]
fn empty_error_guides_the_user() {
    assert!(Error::Empty.describe().contains("not properly instrumented"));
    assert_eq!(Error::ShuttingDown.describe(), "Fuzzing stopped by user. Good bye.");
}
