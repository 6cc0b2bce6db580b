//! Round-robin schedulers over the corpus, and the metadata of power schedules.
use vstd::arithmetic::power2::pow2;
use vstd::prelude::*;

use crate::corpus::{lemma_position_unique, lemma_replace, Corpus, CorpusId, CorpusModel, Testcase};
use crate::feedback::Observation;
use crate::fuzzer::FuzzerState;
use crate::digest::fixed_seed_hash;
use crate::error::Error;

verus! {

/// Number of slots of the path-frequency table.
pub const N_FUZZ_SIZE: usize = 2097152;

/// Which id a round-robin `next()` picks on `m`, and whether it wrapped around.
pub open spec fn round_robin_pick(m: CorpusModel) -> (CorpusId, bool) {
    match m.current {
        None => (m.first().unwrap(), false),
        Some(cur) => match m.next(cur.0) {
            Some(n) => (n, false),
            None => (m.first().unwrap(), true),
        },
    }
}

/// The shared step of the round-robin schedulers: picks the next id, moves the
/// cursor onto it and tells whether the queue wrapped.
fn round_robin_step(corpus: &mut Corpus) -> (r: Result<(CorpusId, bool), Error>)
    requires
        old(corpus).wf(),
    ensures
        final(corpus).wf(),
        old(corpus)@.count() == 0 ==> r == Err::<(CorpusId, bool), Error>(Error::Empty)
            && final(corpus)@ == old(corpus)@,
        old(corpus)@.count() > 0 ==> r == Ok::<(CorpusId, bool), Error>(round_robin_pick(old(corpus)@))
            && final(corpus)@ == (CorpusModel { current: Some(r.unwrap().0), ..old(corpus)@ }),
{
    if corpus.count() == 0 {
        return Err(Error::Empty);
    }
    let first = corpus.first();
    let picked = match corpus.current() {
        None => (first.unwrap(), false),
        Some(cur) => match corpus.next(cur) {
            Some(n) => (n, false),
            None => (first.unwrap(), true),
        },
    };
    corpus.set_current(Some(picked.0));
    Ok(picked)
}

/// The ids that `n` consecutive calls of a round-robin `next()` return on `m`.
pub open spec fn round_robin_run(m: CorpusModel, n: nat) -> Seq<CorpusId>
    decreases n,
{
    if n == 0 {
        Seq::empty()
    } else {
        let id = round_robin_pick(m).0;
        seq![id].add(round_robin_run(CorpusModel { current: Some(id), ..m }, (n - 1) as nat))
    }
}

/// Position that the next round-robin pick takes on `m`.
pub open spec fn round_robin_start(m: CorpusModel) -> int {
    match m.current {
        Some(c) => if m.contains(c.0) && m.position(c.0) + 1 < m.ids.len() {
            m.position(c.0) + 1
        } else {
            0
        },
        None => 0,
    }
}

/// Position of the `i`-th pick of a run that starts at position `s`.
pub open spec fn round_robin_pos(s: int, i: int, n: int) -> int {
    if s + i < n {
        s + i
    } else {
        s + i - n
    }
}

proof fn lemma_round_robin_positions(m: CorpusModel, n: nat)
    requires
        m.wf(),
        m.count() > 0,
        n <= m.count(),
    ensures
        round_robin_run(m, n).len() == n,
        0 <= round_robin_start(m) < m.count(),
        forall|i: int| 0 <= i < n ==> #[trigger] round_robin_run(m, n)[i]
            == CorpusId(m.ids[round_robin_pos(round_robin_start(m), i, m.count() as int)]),
    decreases n,
{
    let s = round_robin_start(m);
    if let Some(c) = m.current {
        if m.contains(c.0) {
            let j = choose|j: int| 0 <= j < m.ids.len() && m.ids[j] == c.0;
            assert(m.ids[j] == c.0);
        }
    }
    if n > 0 {
        let id = round_robin_pick(m).0;
        assert(id == CorpusId(m.ids[s]));
        let m2 = CorpusModel { current: Some(id), ..m };
        lemma_position_unique(m2, s);
        lemma_round_robin_positions(m2, (n - 1) as nat);
        let run = round_robin_run(m, n);
        let rest = round_robin_run(m2, (n - 1) as nat);
        assert forall|i: int| 0 <= i < n implies #[trigger] run[i]
            == CorpusId(m.ids[round_robin_pos(s, i, m.count() as int)]) by {
            if i > 0 {
                assert(run[i] == rest[i - 1]);
            }
        }
    }
}

/// Round-robin coverage: on a corpus of `N` entries, `N` consecutive calls of
/// `next()` return every entry exactly once, whatever the cursor was. (Each
/// call returns `round_robin_pick` of the corpus and leaves the cursor on it,
/// which is how `round_robin_run` goes on.)
pub proof fn lemma_round_robin_covers(m: CorpusModel)
    requires
        m.wf(),
        m.count() > 0,
    ensures
        forall|k: int| 0 <= k < m.count() ==> round_robin_run(m, m.count()).contains(CorpusId(#[trigger] m.ids[k])),
        round_robin_run(m, m.count()).len() == m.count(),
        round_robin_run(m, m.count()).no_duplicates(),
{
    let n = m.count() as int;
    lemma_round_robin_positions(m, m.count());
    let s = round_robin_start(m);
    let run = round_robin_run(m, m.count());
    assert forall|k: int| 0 <= k < n implies run.contains(CorpusId(#[trigger] m.ids[k])) by {
        let i = if k >= s { k - s } else { k + n - s };
        assert(run[i] == CorpusId(m.ids[round_robin_pos(s, i, n)]));
    }
    assert forall|a: int, b: int| 0 <= a < run.len() && 0 <= b < run.len() && a != b implies run[a] != run[b] by {
        let pa = round_robin_pos(s, a, n);
        let pb = round_robin_pos(s, b, n);
        assert(run[a] == CorpusId(m.ids[pa]));
        assert(run[b] == CorpusId(m.ids[pb]));
        if pa < pb {
            assert(m.ids[pa] < m.ids[pb]);
        } else if pb < pa {
            assert(m.ids[pb] < m.ids[pa]);
        }
    }
}

/// Every path digest lands in one of the `2^21` slots of the table.
pub proof fn lemma_path_slot_in_range(hash: u64)
    ensures
        N_FUZZ_SIZE == pow2(21),
        path_slot(hash) < N_FUZZ_SIZE,
{
    vstd::arithmetic::power2::lemma2_to64();
}

/// Round-robin over the corpus in insertion order.
#[derive(Clone, Debug)]
pub struct QueueScheduler {
    queue_cycles: u64,
}

impl QueueScheduler {
    pub fn new() -> (r: QueueScheduler)
        ensures
            r.spec_queue_cycles() == 0,
    {
        QueueScheduler { queue_cycles: 0 }
    }

    pub closed spec fn spec_queue_cycles(&self) -> u64 {
        self.queue_cycles
    }

    /// How many times the queue wrapped around.
    pub fn queue_cycles(&self) -> (r: u64)
        ensures
            r == self.spec_queue_cycles(),
    {
        self.queue_cycles
    }

    /// The entry after the current one, or the first entry when there is no
    /// current entry or the current one is the last; a wrap counts one queue
    /// cycle. An empty corpus gives `Empty` (the target may not be instrumented).
    pub fn next(&mut self, corpus: &mut Corpus) -> (r: Result<CorpusId, Error>)
        requires
            old(corpus).wf(),
            old(self).spec_queue_cycles() < u64::MAX,
        ensures
            final(corpus).wf(),
            old(corpus)@.count() == 0 <==> r.is_err(),
            r.is_err() ==> r == Err::<CorpusId, Error>(Error::Empty) && final(corpus)@ == old(corpus)@
                && *final(self) == *old(self),
            r.is_ok() ==> r.unwrap() == round_robin_pick(old(corpus)@).0
                && final(corpus)@ == (CorpusModel { current: Some(r.unwrap()), ..old(corpus)@ })
                && final(self).spec_queue_cycles() == old(self).spec_queue_cycles()
                    + if round_robin_pick(old(corpus)@).1 { 1u64 } else { 0u64 },
    {
        let (id, wrapped) = round_robin_step(corpus)?;
        if wrapped {
            self.queue_cycles = self.queue_cycles + 1;
        }
        Ok(id)
    }
}

/// The power schedule to use.
#[allow(non_camel_case_types)]
#[derive(Clone, Copy, Debug, PartialEq, Eq, Structural)]
pub enum PowerSchedule {
    EXPLORE,
    EXPLOIT,
    FAST,
    COE,
    LIN,
    QUAD,
}

/// State-wide metadata of power schedules.
#[derive(Clone, Debug)]
pub struct SchedulerMetadata {
    pub strat: Option<PowerSchedule>,
    pub exec_time_nanos: u64,
    pub cycles: u64,
    pub bitmap_size: u64,
    pub bitmap_entries: u64,
    pub queue_cycles: u64,
    pub n_fuzz: Vec<u32>,
}

impl SchedulerMetadata {
    /// The path-frequency table has exactly `N_FUZZ_SIZE` slots.
    pub open spec fn wf(&self) -> bool {
        self.n_fuzz@.len() == N_FUZZ_SIZE
    }

    /// Fresh metadata: every counter zero and `N_FUZZ_SIZE` empty slots.
    pub fn new(strat: Option<PowerSchedule>) -> (r: SchedulerMetadata)
        ensures
            r.wf(),
            r.strat == strat,
            r.exec_time_nanos == 0,
            r.cycles == 0,
            r.bitmap_size == 0,
            r.bitmap_entries == 0,
            r.queue_cycles == 0,
            forall|i: int| 0 <= i < N_FUZZ_SIZE ==> r.n_fuzz@[i] == 0,
    {
        let n_fuzz = vec![0u32; N_FUZZ_SIZE];
        SchedulerMetadata {
            strat,
            exec_time_nanos: 0,
            cycles: 0,
            bitmap_size: 0,
            bitmap_entries: 0,
            queue_cycles: 0,
            n_fuzz,
        }
    }

    /// The power schedule.
    pub fn strat(&self) -> (r: Option<PowerSchedule>)
        ensures
            r == self.strat,
    {
        self.strat
    }

    pub fn set_strat(&mut self, strat: Option<PowerSchedule>)
        requires
            old(self).wf(),
        ensures
            final(self).wf(),
            *final(self) == (SchedulerMetadata { strat, ..*old(self) }),
    {
        self.strat = strat;
    }

    /// The execution time measured during calibration, in nanoseconds.
    pub fn exec_time(&self) -> (r: u64)
        ensures
            r == self.exec_time_nanos,
    {
        self.exec_time_nanos
    }

    pub fn set_exec_time(&mut self, nanos: u64)
        requires
            old(self).wf(),
        ensures
            final(self).wf(),
            *final(self) == (SchedulerMetadata { exec_time_nanos: nanos, ..*old(self) }),
    {
        self.exec_time_nanos = nanos;
    }

    /// Calibration cycles.
    pub fn cycles(&self) -> (r: u64)
        ensures
            r == self.cycles,
    {
        self.cycles
    }

    pub fn set_cycles(&mut self, val: u64)
        requires
            old(self).wf(),
        ensures
            final(self).wf(),
            *final(self) == (SchedulerMetadata { cycles: val, ..*old(self) }),
    {
        self.cycles = val;
    }

    /// Size of the observer map.
    pub fn bitmap_size(&self) -> (r: u64)
        ensures
            r == self.bitmap_size,
    {
        self.bitmap_size
    }

    pub fn set_bitmap_size(&mut self, val: u64)
        requires
            old(self).wf(),
        ensures
            final(self).wf(),
            *final(self) == (SchedulerMetadata { bitmap_size: val, ..*old(self) }),
    {
        self.bitmap_size = val;
    }

    /// Number of filled map entries.
    pub fn bitmap_entries(&self) -> (r: u64)
        ensures
            r == self.bitmap_entries,
    {
        self.bitmap_entries
    }

    pub fn set_bitmap_entries(&mut self, val: u64)
        requires
            old(self).wf(),
        ensures
            final(self).wf(),
            *final(self) == (SchedulerMetadata { bitmap_entries: val, ..*old(self) }),
    {
        self.bitmap_entries = val;
    }

    /// Queue cycles, as last published by the scheduler.
    pub fn queue_cycles(&self) -> (r: u64)
        ensures
            r == self.queue_cycles,
    {
        self.queue_cycles
    }

    pub fn set_queue_cycles(&mut self, val: u64)
        requires
            old(self).wf(),
        ensures
            final(self).wf(),
            *final(self) == (SchedulerMetadata { queue_cycles: val, ..*old(self) }),
    {
        self.queue_cycles = val;
    }

    /// The path-frequency table.
    pub fn n_fuzz(&self) -> (r: &[u32])
        ensures
            r@ == self.n_fuzz@,
    {
        self.n_fuzz.as_slice()
    }

    /// Counts one more evaluation of the path whose digest is `hash`: slot
    /// `hash % N_FUZZ_SIZE` grows by one, saturating at `u32::MAX`.
    pub fn record_path(&mut self, hash: u64) -> (slot: usize)
        requires
            old(self).wf(),
        ensures
            final(self).wf(),
            slot == path_slot(hash),
            slot < N_FUZZ_SIZE,
            final(self).n_fuzz@ == old(self).n_fuzz@.update(
                slot as int,
                saturating_inc(old(self).n_fuzz@[slot as int]),
            ),
            final(self).strat == old(self).strat,
            final(self).queue_cycles == old(self).queue_cycles,
    {
        let slot = (hash % (N_FUZZ_SIZE as u64)) as usize;
        let v = self.n_fuzz[slot];
        self.n_fuzz.set(slot, v.saturating_add(1));
        slot
    }
}

/// The slot of the path-frequency table that a path digest falls in.
pub open spec fn path_slot(hash: u64) -> usize {
    (hash % (N_FUZZ_SIZE as u64)) as usize
}

/// One more, saturating at `u32::MAX`.
pub open spec fn saturating_inc(v: u32) -> u32 {
    if v == u32::MAX {
        v
    } else {
        (v + 1) as u32
    }
}

/// A round-robin scheduler that also keeps the path-frequency table of power
/// schedules up to date. The table is not reverted when entries are removed
/// or replaced.
#[derive(Clone, Debug)]
pub struct PowerQueueScheduler {
    queue_cycles: u64,
    strat: PowerSchedule,
    last_hash: u64,
}

impl PowerQueueScheduler {
    pub closed spec fn spec_queue_cycles(&self) -> u64 {
        self.queue_cycles
    }

    pub closed spec fn spec_last_hash(&self) -> u64 {
        self.last_hash
    }

    pub closed spec fn spec_strat(&self) -> PowerSchedule {
        self.strat
    }

    /// A scheduler for `strat`; creates the state's metadata when it has none.
    pub fn new(metadata: &mut Option<SchedulerMetadata>, strat: PowerSchedule) -> (r: PowerQueueScheduler)
        requires
            old(metadata).is_some() ==> old(metadata).unwrap().wf(),
        ensures
            final(metadata).is_some(),
            final(metadata).unwrap().wf(),
            old(metadata).is_some() ==> *final(metadata) == *old(metadata),
            old(metadata).is_none() ==> final(metadata).unwrap().strat == Some(strat)
                && final(metadata).unwrap().queue_cycles == 0
                && final(metadata).unwrap().exec_time_nanos == 0
                && final(metadata).unwrap().cycles == 0
                && final(metadata).unwrap().bitmap_size == 0
                && final(metadata).unwrap().bitmap_entries == 0
                && forall|i: int| 0 <= i < N_FUZZ_SIZE ==> final(metadata).unwrap().n_fuzz@[i] == 0,
            r.spec_queue_cycles() == 0,
            r.spec_last_hash() == 0,
            r.spec_strat() == strat,
    {
        if metadata.is_none() {
            *metadata = Some(SchedulerMetadata::new(Some(strat)));
        }
        PowerQueueScheduler { queue_cycles: 0, strat, last_hash: 0 }
    }

    /// The power schedule.
    pub fn strat(&self) -> (r: PowerSchedule)
        ensures
            r == self.spec_strat(),
    {
        self.strat
    }

    /// How many times the queue wrapped around.
    pub fn queue_cycles(&self) -> (r: u64)
        ensures
            r == self.spec_queue_cycles(),
    {
        self.queue_cycles
    }

    /// The digest of the last evaluated path.
    pub fn last_hash(&self) -> (r: u64)
        ensures
            r == self.spec_last_hash(),
    {
        self.last_hash
    }

    pub fn set_last_hash(&mut self, hash: u64)
        ensures
            final(self).spec_last_hash() == hash,
            final(self).spec_queue_cycles() == old(self).spec_queue_cycles(),
            final(self).spec_strat() == old(self).spec_strat(),
    {
        self.last_hash = hash;
    }

    /// Records an evaluation whose observer map has digest `hash`.
    pub fn on_evaluation_hash(&mut self, metadata: &mut SchedulerMetadata, hash: u64)
        requires
            old(metadata).wf(),
        ensures
            final(metadata).wf(),
            final(metadata).n_fuzz@ == old(metadata).n_fuzz@.update(
                path_slot(hash) as int,
                saturating_inc(old(metadata).n_fuzz@[path_slot(hash) as int]),
            ),
            final(metadata).queue_cycles == old(metadata).queue_cycles,
            final(self).spec_last_hash() == hash,
            final(self).spec_queue_cycles() == old(self).spec_queue_cycles(),
            final(self).spec_strat() == old(self).spec_strat(),
    {
        metadata.record_path(hash);
        self.last_hash = hash;
    }

    /// Records an evaluation: digests the observer map and counts its path.
    pub fn on_evaluation(&mut self, metadata: &mut SchedulerMetadata, map: &[u8])
        requires
            old(metadata).wf(),
        ensures
            final(metadata).wf(),
            final(self).spec_queue_cycles() == old(self).spec_queue_cycles(),
            final(self).spec_strat() == old(self).spec_strat(),
            final(metadata).n_fuzz@ == old(metadata).n_fuzz@.update(
                path_slot(final(self).spec_last_hash()) as int,
                saturating_inc(old(metadata).n_fuzz@[path_slot(final(self).spec_last_hash()) as int]),
            ),
            final(metadata).queue_cycles == old(metadata).queue_cycles,
    {
        let hash = fixed_seed_hash(map);
        self.on_evaluation_hash(metadata, hash);
    }

    /// Attaches scheduling metadata to the new entry `id`: its parent is the
    /// current entry, its depth one more than the parent's, and its path slot
    /// the one of the last evaluation.
    pub fn on_add(&mut self, corpus: &mut Corpus, id: CorpusId) -> (r: Result<(), Error>)
        requires
            old(corpus).wf(),
        ensures
            final(corpus).wf(),
            *final(self) == *old(self),
            r.is_ok() <==> old(corpus)@.contains(id.0),
            r.is_err() ==> final(corpus)@ == old(corpus)@,
            r.is_ok() ==> final(corpus)@ == old(corpus)@.replace(id.0, power_added(old(corpus)@, id, old(self).spec_last_hash())),
    {
        proof {
            corpus.lemma_wf();
        }
        let parent = corpus.current();
        let depth: u64 = match parent {
            Some(p) => match corpus.get(p) {
                Ok(ptc) => ptc.depth.saturating_add(1),
                Err(_) => 0,
            },
            None => 0,
        };
        let slot = (self.last_hash % (N_FUZZ_SIZE as u64)) as usize;
        let tc = corpus.get_mut(id)?;
        tc.depth = depth;
        tc.n_fuzz_entry = Some(slot);
        tc.parent_id = parent;
        proof {
            lemma_replace(old(corpus)@, id.0, *tc);
            assert(*tc == power_added(old(corpus)@, id, old(self).spec_last_hash()));
        }
        Ok(())
    }

    /// Removing an entry does not take its evaluations back out of the
    /// path-frequency table: the table and the scheduler stay as they are.
    pub fn on_remove(&mut self, metadata: &mut SchedulerMetadata, id: CorpusId) -> (r: Result<(), Error>)
        ensures
            r.is_ok(),
            *final(self) == *old(self),
            *final(metadata) == *old(metadata),
    {
        Ok(())
    }

    /// Replacing an entry does not take its evaluations back out of the
    /// path-frequency table either.
    pub fn on_replace(&mut self, metadata: &mut SchedulerMetadata, id: CorpusId) -> (r: Result<(), Error>)
        ensures
            r.is_ok(),
            *final(self) == *old(self),
            *final(metadata) == *old(metadata),
    {
        Ok(())
    }

    /// Same order as `QueueScheduler::next`; a wrap is also published to the
    /// metadata's queue cycles.
    pub fn next(&mut self, corpus: &mut Corpus, metadata: &mut SchedulerMetadata) -> (r: Result<CorpusId, Error>)
        requires
            old(corpus).wf(),
            old(metadata).wf(),
            old(self).spec_queue_cycles() < u64::MAX,
        ensures
            final(corpus).wf(),
            final(metadata).wf(),
            old(corpus)@.count() == 0 <==> r.is_err(),
            r.is_err() ==> r == Err::<CorpusId, Error>(Error::Empty) && final(corpus)@ == old(corpus)@
                && *final(self) == *old(self) && *final(metadata) == *old(metadata),
            r.is_ok() ==> r.unwrap() == round_robin_pick(old(corpus)@).0
                && final(corpus)@ == (CorpusModel { current: Some(r.unwrap()), ..old(corpus)@ })
                && final(self).spec_last_hash() == old(self).spec_last_hash()
                && final(self).spec_strat() == old(self).spec_strat()
                && (round_robin_pick(old(corpus)@).1 ==> final(self).spec_queue_cycles() == old(self).spec_queue_cycles() + 1
                    && *final(metadata) == (SchedulerMetadata { queue_cycles: final(self).spec_queue_cycles(), ..*old(metadata) }))
                && (!round_robin_pick(old(corpus)@).1 ==> *final(self) == *old(self) && *final(metadata) == *old(metadata)),
    {
        let (id, wrapped) = round_robin_step(corpus)?;
        if wrapped {
            self.queue_cycles = self.queue_cycles + 1;
            metadata.set_queue_cycles(self.queue_cycles);
        }
        Ok(id)
    }
}

/// A corpus scheduler as the fuzzer drives it: told of each entry the
/// fuzzer adds, and asked for the entry to fuzz next.
pub trait Scheduler: Sized {
    /// Whether `next_entry` may be called on `state`.
    spec fn spec_ready(&self, state: &FuzzerState) -> bool;

    /// What `on_corpus_add` makes of the scheduler and the corpus: `next`
    /// and `c1` from `self` and `c0`, for entry `id` observed as `obs`.
    spec fn spec_added(&self, c0: CorpusModel, id: CorpusId, obs: &Observation, next: &Self, c1: CorpusModel) -> bool;

    /// Whether `next_entry` may be called on `state`.
    fn ready(&self, state: &FuzzerState) -> (r: bool)
        ensures
            r == self.spec_ready(state),
    ;

    /// Takes note of entry `id`, just added and observed as `obs`.
    fn on_corpus_add(&mut self, corpus: &mut Corpus, id: CorpusId, obs: &Observation)
        requires
            old(corpus).wf(),
            old(corpus)@.contains(id.0),
        ensures
            final(corpus).wf(),
            final(corpus)@.ids == old(corpus)@.ids,
            final(corpus)@.next_id == old(corpus)@.next_id,
            final(corpus)@.current == old(corpus)@.current,
            old(self).spec_added(old(corpus)@, id, obs, &*final(self), final(corpus)@),
    ;

    /// The entry to fuzz next, in round-robin order; the cursor moves onto
    /// it. An empty corpus gives `Empty`.
    fn next_entry(&mut self, state: &mut FuzzerState) -> (r: Result<CorpusId, Error>)
        requires
            old(state).wf(),
            old(self).spec_ready(&*old(state)),
        ensures
            final(state).wf(),
            final(state).solutions == old(state).solutions,
            final(state).executions == old(state).executions,
            final(state).max_size == old(state).max_size,
            final(state).stop_requested == old(state).stop_requested,
            final(state).scheduler_metadata.is_some() == old(state).scheduler_metadata.is_some(),
            old(state).corpus@.count() == 0 <==> r.is_err(),
            r.is_err() ==> r == Err::<CorpusId, Error>(Error::Empty) && final(state).corpus@ == old(state).corpus@,
            r.is_ok() ==> r.unwrap() == round_robin_pick(old(state).corpus@).0
                && final(state).corpus@ == (CorpusModel { current: Some(r.unwrap()), ..old(state).corpus@ }),
    ;
}

impl Scheduler for QueueScheduler {
    open spec fn spec_ready(&self, state: &FuzzerState) -> bool {
        self.spec_queue_cycles() < u64::MAX
    }

    /// The new entry's parent becomes the current entry.
    open spec fn spec_added(&self, c0: CorpusModel, id: CorpusId, obs: &Observation, next: &Self, c1: CorpusModel) -> bool {
        &&& *next == *self
        &&& c1 == c0.replace(id.0, Testcase { parent_id: c0.current, ..c0.get(id.0) })
    }

    fn ready(&self, state: &FuzzerState) -> (r: bool) {
        self.queue_cycles < u64::MAX
    }

    fn on_corpus_add(&mut self, corpus: &mut Corpus, id: CorpusId, obs: &Observation) {
        proof {
            corpus.lemma_wf();
        }
        let parent = corpus.current();
        match corpus.get_mut(id) {
            Ok(tc) => {
                tc.parent_id = parent;
                proof {
                    lemma_replace(old(corpus)@, id.0, *tc);
                }
            },
            Err(_) => {},
        }
    }

    fn next_entry(&mut self, state: &mut FuzzerState) -> (r: Result<CorpusId, Error>) {
        self.next(&mut state.corpus)
    }
}

/// The entry `id` of `c0` with the metadata a power scheduler in state
/// `last_hash` attaches: the current entry as parent, one more than its depth,
/// and the slot of the last path.
pub open spec fn power_added(c0: CorpusModel, id: CorpusId, last_hash: u64) -> Testcase {
    Testcase {
        parent_id: c0.current,
        n_fuzz_entry: Some(path_slot(last_hash)),
        depth: match c0.current {
            Some(p) => if c0.contains(p.0) {
                let d = c0.get(p.0).depth;
                if d < u64::MAX { (d + 1) as u64 } else { d }
            } else {
                0u64
            },
            None => 0u64,
        },
        ..c0.get(id.0)
    }
}

impl Scheduler for PowerQueueScheduler {
    open spec fn spec_ready(&self, state: &FuzzerState) -> bool {
        self.spec_queue_cycles() < u64::MAX && state.scheduler_metadata.is_some()
    }

    open spec fn spec_added(&self, c0: CorpusModel, id: CorpusId, obs: &Observation, next: &Self, c1: CorpusModel) -> bool {
        &&& *next == *self
        &&& c1 == c0.replace(id.0, power_added(c0, id, self.spec_last_hash()))
    }

    fn ready(&self, state: &FuzzerState) -> (r: bool) {
        self.queue_cycles < u64::MAX && state.scheduler_metadata.is_some()
    }

    fn on_corpus_add(&mut self, corpus: &mut Corpus, id: CorpusId, obs: &Observation) {
        let _ = self.on_add(corpus, id);
    }

    fn next_entry(&mut self, state: &mut FuzzerState) -> (r: Result<CorpusId, Error>) {
        match &mut state.scheduler_metadata {
            Some(m) => self.next(&mut state.corpus, m),
            None => Err(Error::KeyNotFound),
        }
    }
}

} // verus!
