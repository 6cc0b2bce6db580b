//! The minimizing scheduler: for every map index it keeps the entry with the
//! smallest length times execution time that covers it; those entries are
//! favored and the others are mostly skipped.
use vstd::prelude::*;

use crate::corpus::{Corpus, CorpusId, CorpusModel};
use crate::error::Error;
use crate::feedback::Observation;
use crate::fuzzer::FuzzerState;
use crate::scheduler::{round_robin_pick, QueueScheduler, Scheduler};

verus! {

/// The indices of `map` that were hit, in increasing order.
pub open spec fn is_touched_list(map: Seq<u8>, r: Seq<usize>) -> bool {
    &&& forall|a: int, b: int| 0 <= a < b < r.len() ==> r[a] < r[b]
    &&& forall|a: int| 0 <= a < r.len() ==> r[a] < map.len() && map[r[a] as int] != 0
    &&& forall|i: int| 0 <= i < map.len() && map[i] != 0 ==> r.contains(i as usize)
}

/// The indices of the edge map that this run hit.
pub fn touched_indices(map: &Vec<u8>) -> (r: Vec<usize>)
    ensures
        is_touched_list(map@, r@),
{
    let mut out: Vec<usize> = Vec::new();
    let mut i: usize = 0;
    while i < map.len()
        invariant
            i <= map@.len(),
            forall|a: int, b: int| 0 <= a < b < out@.len() ==> out@[a] < out@[b],
            forall|a: int| 0 <= a < out@.len() ==> out@[a] < i && map@[out@[a] as int] != 0,
            forall|j: int| 0 <= j < i && map@[j] != 0 ==> out@.contains(j as usize),
        decreases map@.len() - i,
    {
        let ghost before = out@;
        if map[i] != 0 {
            out.push(i);
            assert(out@[out@.len() - 1] == i);
            assert forall|j: int| 0 <= j < i + 1 && map@[j] != 0 implies out@.contains(j as usize) by {
                if j < i {
                    let k = choose|k: int| 0 <= k < before.len() && before[k] == j as usize;
                    assert(out@[k] == j as usize);
                }
            }
        }
        i = i + 1;
    }
    out
}

/// The score of an entry: length times execution time; smaller is better.
pub open spec fn entry_score(len: usize, exec_time_nanos: u64) -> u128 {
    (len as u128 * exec_time_nanos as u128) as u128
}

/// Whether `(id, score)` beats the current holder of an index: there is none,
/// or its score is larger, or equal with a larger id.
pub open spec fn beats(id: CorpusId, score: u128, cur: Option<(CorpusId, u128)>) -> bool {
    match cur {
        None => true,
        Some((cid, cscore)) => score < cscore || (score == cscore && id.0 < cid.0),
    }
}

/// The holder of index `i` in a table (none past its end).
pub open spec fn holder(top: Seq<Option<(CorpusId, u128)>>, i: int) -> Option<(CorpusId, u128)> {
    if 0 <= i < top.len() {
        top[i]
    } else {
        None
    }
}

/// Index `i` is among the first `n` offered indices.
pub open spec fn offered(indices: Seq<usize>, n: int, i: int) -> bool {
    exists|w: int| 0 <= w < n && indices[w] as int == i
}

/// Round-robin with a preference for favored entries.
pub struct MinimizerScheduler {
    base: QueueScheduler,
    top_rated: Vec<Option<(CorpusId, u128)>>,
}

impl MinimizerScheduler {
    pub closed spec fn spec_base(&self) -> QueueScheduler {
        self.base
    }

    pub closed spec fn spec_top(&self) -> Seq<Option<(CorpusId, u128)>> {
        self.top_rated@
    }

    pub fn new(base: QueueScheduler) -> (r: MinimizerScheduler)
        ensures
            r.spec_base() == base,
            forall|i: int| holder(r.spec_top(), i).is_none(),
    {
        MinimizerScheduler { base, top_rated: Vec::new() }
    }

    /// How many times the queue wrapped around.
    pub fn queue_cycles(&self) -> (r: u64)
        ensures
            r == self.spec_base().spec_queue_cycles(),
    {
        self.base.queue_cycles()
    }

    /// The entry that holds index `idx`, if any.
    pub fn top_rated(&self, idx: usize) -> (r: Option<CorpusId>)
        ensures
            r == match holder(self.spec_top(), idx as int) {
                Some((id, _)) => Some(id),
                None => None,
            },
    {
        if idx < self.top_rated.len() {
            match self.top_rated[idx] {
                Some((id, _)) => Some(id),
                None => None,
            }
        } else {
            None
        }
    }

    /// Offers entry `id`, which covers `indices` and has length `len` and
    /// execution time `exec_time_nanos`, as holder of each of those indices;
    /// it takes every index where it beats the current holder.
    pub fn update_score(&mut self, id: CorpusId, indices: &Vec<usize>, len: usize, exec_time_nanos: u64)
        ensures
            final(self).spec_base() == old(self).spec_base(),
            forall|i: int|
                #![trigger holder(final(self).spec_top(), i)]
                holder(final(self).spec_top(), i) == if offered(indices@, indices@.len() as int, i) && beats(
                    id,
                    entry_score(len, exec_time_nanos),
                    holder(old(self).spec_top(), i),
                ) {
                    Some((id, entry_score(len, exec_time_nanos)))
                } else {
                    holder(old(self).spec_top(), i)
                },
    {
        proof {
            let l = len as u128;
            let t = exec_time_nanos as u128;
            assert(l * t <= 0xffff_ffff_ffff_ffffu128 * 0xffff_ffff_ffff_ffffu128) by (nonlinear_arith)
                requires
                    l <= 0xffff_ffff_ffff_ffffu128,
                    t <= 0xffff_ffff_ffff_ffffu128,
            ;
        }
        let score: u128 = len as u128 * exec_time_nanos as u128;
        let ghost old_top = self.top_rated@;
        let mut k: usize = 0;
        while k < indices.len()
            invariant
                k <= indices@.len(),
                self.base == old(self).base,
                old_top == old(self).spec_top(),
                score == entry_score(len, exec_time_nanos),
                forall|i: int|
                    #![trigger holder(self.top_rated@, i)]
                    holder(self.top_rated@, i) == if offered(indices@, k as int, i) && beats(id, score, holder(old_top, i)) {
                        Some((id, score))
                    } else {
                        holder(old_top, i)
                    },
            decreases indices@.len() - k,
        {
            let idx = indices[k];
            let ghost before = self.top_rated@;
            while self.top_rated.len() <= idx
                invariant
                    self.base == old(self).base,
                    before.len() <= self.top_rated@.len(),
                    forall|i: int| #![trigger holder(self.top_rated@, i)] holder(self.top_rated@, i) == holder(before, i),
                decreases idx + 1 - self.top_rated@.len(),
            {
                let ghost cur = self.top_rated@;
                self.top_rated.push(None);
                assert forall|i: int| #![trigger holder(self.top_rated@, i)] holder(self.top_rated@, i) == holder(cur, i) by {
                    if 0 <= i < cur.len() {
                        assert(self.top_rated@[i] == cur[i]);
                    }
                }
            }
            let ghost grown = self.top_rated@;
            let take = match self.top_rated[idx] {
                None => true,
                Some((cid, cscore)) => score < cscore || (score == cscore && id.0 < cid.0),
            };
            assert(holder(self.top_rated@, idx as int) == self.top_rated@[idx as int]);
            if take {
                self.top_rated.set(idx, Some((id, score)));
            }
            proof {
                assert forall|i: int| #![trigger holder(self.top_rated@, i)] holder(self.top_rated@, i) == if offered(
                    indices@,
                    k + 1,
                    i,
                ) && beats(id, score, holder(old_top, i)) {
                    Some((id, score))
                } else {
                    holder(old_top, i)
                } by {
                    if i == idx as int {
                        assert(offered(indices@, k + 1, i)) by {
                            assert(indices@[k as int] as int == i);
                        }
                    } else {
                        if 0 <= i < grown.len() {
                            assert(self.top_rated@[i] == grown[i]);
                        }
                        assert(holder(self.top_rated@, i) == holder(grown, i));
                        assert(holder(self.top_rated@, i) == holder(before, i));
                        if offered(indices@, k + 1, i) {
                            let w = choose|w: int| 0 <= w < k + 1 && indices@[w] as int == i;
                            assert(w < k);
                            assert(offered(indices@, k as int, i));
                        }
                    }
                }
            }
            k = k + 1;
        }
    }

    /// Whether `id` holds some index.
    pub fn is_favored(&self, id: CorpusId) -> (r: bool)
        ensures
            r == exists|i: int| #[trigger] holder(self.spec_top(), i) matches Some((h, _)) && h == id,
    {
        let mut i: usize = 0;
        while i < self.top_rated.len()
            invariant
                i <= self.top_rated@.len(),
                forall|j: int| 0 <= j < i ==> !(#[trigger] holder(self.top_rated@, j) matches Some((h, _)) && h == id),
            decreases self.top_rated@.len() - i,
        {
            if let Some((h, _)) = self.top_rated[i] {
                if h.0 == id.0 {
                    assert(holder(self.top_rated@, i as int) matches Some((h, _)) && h == id);
                    return true;
                }
            }
            i = i + 1;
        }
        proof {
            assert forall|j: int| !(#[trigger] holder(self.top_rated@, j) matches Some((h, _)) && h == id) by {
                if !(0 <= j < self.top_rated@.len()) {
                    assert(holder(self.top_rated@, j).is_none());
                }
            }
        }
        false
    }

    /// Whether to pass over `id`: a favored entry is never skipped, another
    /// one when the draw (a random number) falls in the lower 95 of 100.
    pub fn should_skip(&self, id: CorpusId, draw: u64) -> (r: bool)
        ensures
            r == (!(exists|i: int| #[trigger] holder(self.spec_top(), i) matches Some((h, _)) && h == id) && draw
                % 100 < 95),
    {
        !self.is_favored(id) && draw % 100 < 95
    }

    /// The next entry round-robin, before the favored check.
    pub fn next(&mut self, corpus: &mut Corpus) -> (r: Result<CorpusId, Error>)
        requires
            old(corpus).wf(),
            old(self).spec_base().spec_queue_cycles() < u64::MAX,
        ensures
            final(corpus).wf(),
            final(self).spec_top() == old(self).spec_top(),
            old(corpus)@.count() == 0 <==> r.is_err(),
            r.is_err() ==> r == Err::<CorpusId, Error>(Error::Empty) && final(corpus)@ == old(corpus)@,
            r.is_ok() ==> r.unwrap() == round_robin_pick(old(corpus)@).0
                && final(corpus)@ == (CorpusModel { current: Some(r.unwrap()), ..old(corpus)@ }),
    {
        self.base.next(corpus)
    }
}

/// The best entry keeps its indices: once an entry holds an index, an offer
/// with a larger score, or an equal score and a larger id, leaves it there.
pub proof fn lemma_holder_kept(top: Seq<Option<(CorpusId, u128)>>, i: int, id: CorpusId, score: u128)
    requires
        holder(top, i) matches Some((h, s)) && (s < score || (s == score && h.0 < id.0)),
    ensures
        !beats(id, score, holder(top, i)),
{
}

/// `next` is `m` after entry `id`, of length `len`, covering `indices` and
/// running for `exec_time_nanos`, was offered every index it covers.
pub open spec fn scores_updated(
    m: MinimizerScheduler,
    id: CorpusId,
    indices: Seq<usize>,
    len: usize,
    exec_time_nanos: u64,
    next: MinimizerScheduler,
) -> bool {
    &&& next.spec_base() == m.spec_base()
    &&& forall|i: int|
        #![trigger holder(next.spec_top(), i)]
        holder(next.spec_top(), i) == if offered(indices, indices.len() as int, i) && beats(
            id,
            entry_score(len, exec_time_nanos),
            holder(m.spec_top(), i),
        ) {
            Some((id, entry_score(len, exec_time_nanos)))
        } else {
            holder(m.spec_top(), i)
        }
}

impl Scheduler for MinimizerScheduler {
    open spec fn spec_ready(&self, state: &FuzzerState) -> bool {
        self.spec_base().spec_queue_cycles() < u64::MAX
    }

    /// The new entry is offered the indices its run hit, scored by its
    /// length and the run's duration; the corpus is left as it is.
    open spec fn spec_added(&self, c0: CorpusModel, id: CorpusId, obs: &Observation, next: &Self, c1: CorpusModel) -> bool {
        &&& c1 == c0
        &&& exists|ix: Seq<usize>|
            is_touched_list(obs.map@, ix) && scores_updated(
                *self,
                id,
                ix,
                c0.get(id.0).input@.len() as usize,
                obs.exec_time_nanos,
                *next,
            )
    }

    fn ready(&self, state: &FuzzerState) -> (r: bool) {
        self.base.queue_cycles() < u64::MAX
    }

    fn on_corpus_add(&mut self, corpus: &mut Corpus, id: CorpusId, obs: &Observation) {
        let indices = touched_indices(&obs.map);
        match corpus.get(id) {
            Ok(tc) => {
                let len = tc.len();
                self.update_score(id, &indices, len, obs.exec_time_nanos);
            },
            Err(_) => {},
        }
    }

    fn next_entry(&mut self, state: &mut FuzzerState) -> (r: Result<CorpusId, Error>) {
        self.next(&mut state.corpus)
    }
}

} // verus!
