//! In-memory corpus: an ordered store of testcases addressed by dense,
//! never-reused ids, with a "current" cursor that drives the schedulers.
use vstd::prelude::*;

use crate::error::{Error, ExitKind};

verus! {

/// Identity of a corpus entry. Ids are handed out in increasing order and are
/// never reused, also after the entry they named was removed.
#[derive(Clone, Copy, Debug, PartialEq, Eq, Structural, Hash)]
pub struct CorpusId(pub usize);

/// An input together with what the fuzzer learned about it.
#[derive(Clone, Debug)]
pub struct Testcase {
    /// The input bytes.
    pub input: Vec<u8>,
    /// The executions counter of the fuzzer when the entry was found.
    pub executions: u64,
    /// The entry that was being fuzzed when this one was found.
    pub parent_id: Option<CorpusId>,
    /// Why this input is a solution (solutions store only).
    pub crash_cause: Option<ExitKind>,
    /// Duration of the run that found it, in nanoseconds.
    pub exec_time_nanos: Option<u64>,
    /// Number of ancestors in the corpus.
    pub depth: u64,
    /// The slot of the path-frequency table that the entry's path hashes to.
    pub n_fuzz_entry: Option<usize>,
}

/// A testcase with its input seen as a sequence of bytes.
pub struct TestcaseView {
    pub input: Seq<u8>,
    pub executions: u64,
    pub parent_id: Option<CorpusId>,
    pub crash_cause: Option<ExitKind>,
    pub exec_time_nanos: Option<u64>,
    pub depth: u64,
    pub n_fuzz_entry: Option<usize>,
}

impl View for Testcase {
    type V = TestcaseView;

    open spec fn view(&self) -> TestcaseView {
        TestcaseView {
            input: self.input@,
            executions: self.executions,
            parent_id: self.parent_id,
            crash_cause: self.crash_cause,
            exec_time_nanos: self.exec_time_nanos,
            depth: self.depth,
            n_fuzz_entry: self.n_fuzz_entry,
        }
    }
}

impl Testcase {
    /// A testcase holding `input` with no metadata yet.
    pub fn new(input: Vec<u8>) -> (r: Testcase)
        ensures
            r.input@ == input@,
            r.executions == 0,
            r.parent_id.is_none(),
            r.crash_cause.is_none(),
            r.exec_time_nanos.is_none(),
            r.depth == 0,
            r.n_fuzz_entry.is_none(),
    {
        Testcase {
            input,
            executions: 0,
            parent_id: None,
            crash_cause: None,
            exec_time_nanos: None,
            depth: 0,
            n_fuzz_entry: None,
        }
    }

    /// Length of the input.
    pub fn len(&self) -> (r: usize)
        ensures
            r == self.input@.len(),
    {
        self.input.len()
    }
}

/// The mathematical picture of a corpus.
pub struct CorpusModel {
    /// Ids of the entries, in insertion order.
    pub ids: Seq<usize>,
    /// The entries, aligned with `ids`.
    pub testcases: Seq<Testcase>,
    /// The id the next `add` hands out.
    pub next_id: nat,
    /// The cursor of the scheduler.
    pub current: Option<CorpusId>,
}

impl CorpusModel {
    /// Entries aligned with ids; ids strictly increasing and all issued.
    pub open spec fn wf(self) -> bool {
        &&& self.ids.len() == self.testcases.len()
        &&& forall|a: int, b: int| 0 <= a < b < self.ids.len() ==> self.ids[a] < self.ids[b]
        &&& forall|a: int| 0 <= a < self.ids.len() ==> self.ids[a] < self.next_id
    }

    pub open spec fn contains(self, id: usize) -> bool {
        self.ids.contains(id)
    }

    /// Position of `id` among the entries (meaningful when it is there).
    pub open spec fn position(self, id: usize) -> int {
        choose|k: int| 0 <= k < self.ids.len() && self.ids[k] == id
    }

    pub open spec fn count(self) -> nat {
        self.ids.len()
    }

    pub open spec fn first(self) -> Option<CorpusId> {
        if self.ids.len() > 0 {
            Some(CorpusId(self.ids[0]))
        } else {
            None
        }
    }

    /// The entry after `id` in insertion order.
    pub open spec fn next(self, id: usize) -> Option<CorpusId> {
        if self.contains(id) && self.position(id) + 1 < self.ids.len() {
            Some(CorpusId(self.ids[self.position(id) + 1]))
        } else {
            None
        }
    }

    pub open spec fn last(self) -> Option<CorpusId> {
        if self.ids.len() > 0 {
            Some(CorpusId(self.ids.last()))
        } else {
            None
        }
    }

    /// The corpus after `add(tc)`.
    pub open spec fn add(self, tc: Testcase) -> CorpusModel {
        CorpusModel {
            ids: self.ids.push(self.next_id as usize),
            testcases: self.testcases.push(tc),
            next_id: self.next_id + 1,
            current: self.current,
        }
    }

    /// The corpus after removing `id`.
    pub open spec fn remove(self, id: usize) -> CorpusModel {
        let k = self.position(id);
        CorpusModel {
            ids: self.ids.remove(k),
            testcases: self.testcases.remove(k),
            next_id: self.next_id,
            current: self.current,
        }
    }

    /// The corpus after replacing the entry `id` by `tc`.
    pub open spec fn replace(self, id: usize, tc: Testcase) -> CorpusModel {
        CorpusModel { testcases: self.testcases.update(self.position(id), tc), ..self }
    }

    /// The testcase stored under `id`.
    pub open spec fn get(self, id: usize) -> Testcase {
        self.testcases[self.position(id)]
    }

    /// The entries seen as byte sequences.
    pub open spec fn entry_views(self) -> Seq<TestcaseView> {
        self.testcases.map_values(|t: Testcase| t@)
    }
}

/// With strictly increasing ids, the position of an id is the index that holds it.
pub proof fn lemma_position_unique(m: CorpusModel, k: int)
    requires
        m.wf(),
        0 <= k < m.ids.len(),
    ensures
        m.contains(m.ids[k]),
        m.position(m.ids[k]) == k,
{
    let id = m.ids[k];
    assert(m.ids[k] == id);
    assert(m.contains(id));
    let p = m.position(id);
    if p < k {
        assert(m.ids[p] < m.ids[k]);
    } else if p > k {
        assert(m.ids[k] < m.ids[p]);
    }
}

/// Strictly increasing ids below the counter are at most as many as the counter.
pub proof fn lemma_count_bounded(m: CorpusModel)
    requires
        m.wf(),
    ensures
        m.ids.len() <= m.next_id,
{
    assert forall|k: int| 0 <= k < m.ids.len() implies m.ids[k] >= k by {
        lemma_ids_at_least_index(m, k);
    }
    if m.ids.len() > 0 {
        assert(m.ids[m.ids.len() - 1] >= m.ids.len() - 1);
    }
}

proof fn lemma_ids_at_least_index(m: CorpusModel, k: int)
    requires
        m.wf(),
        0 <= k < m.ids.len(),
    ensures
        m.ids[k] >= k,
    decreases k,
{
    if k > 0 {
        lemma_ids_at_least_index(m, k - 1);
        assert(m.ids[k - 1] < m.ids[k]);
    }
}

/// Replacing a present entry keeps the ids and stores the new testcase there.
pub proof fn lemma_replace(m: CorpusModel, id: usize, tc: Testcase)
    requires
        m.wf(),
        m.contains(id),
    ensures
        m.replace(id, tc).wf(),
        m.replace(id, tc).ids == m.ids,
        m.replace(id, tc).get(id) == tc,
        0 <= m.position(id) < m.ids.len(),
        m.ids[m.position(id)] == id,
{
    let j = choose|j: int| 0 <= j < m.ids.len() && m.ids[j] == id;
    assert(m.ids[j] == id);
}

/// Adding keeps a corpus well formed.
pub proof fn lemma_add_wf(m: CorpusModel, tc: Testcase)
    requires
        m.wf(),
        m.next_id < usize::MAX,
    ensures
        m.add(tc).wf(),
{
}

/// Removing a present entry keeps a corpus well formed and the id counter as it was.
pub proof fn lemma_remove_wf(m: CorpusModel, id: usize)
    requires
        m.wf(),
        m.contains(id),
    ensures
        m.remove(id).wf(),
{
    let k = m.position(id);
    let j = choose|j: int| 0 <= j < m.ids.len() && m.ids[j] == id;
    assert(m.ids[j] == id);
    let r = m.remove(id);
    assert forall|a: int, b: int| 0 <= a < b < r.ids.len() implies r.ids[a] < r.ids[b] by {
        let oa = if a < k { a } else { a + 1 };
        let ob = if b < k { b } else { b + 1 };
        assert(m.ids[oa] < m.ids[ob]);
    }
    assert forall|a: int| 0 <= a < r.ids.len() implies r.ids[a] < r.next_id by {
        let oa = if a < k { a } else { a + 1 };
        assert(m.ids[oa] < m.next_id);
    }
}

/// One change to a corpus.
pub enum CorpusOp {
    Add(Testcase),
    Remove(CorpusId),
}

/// The corpus after `op`, and the id that `op` handed out, if any. Removing an
/// unknown id fails and changes nothing.
pub open spec fn apply_op(m: CorpusModel, op: CorpusOp) -> (CorpusModel, Option<usize>) {
    match op {
        CorpusOp::Add(tc) => (m.add(tc), Some(m.next_id as usize)),
        CorpusOp::Remove(id) => if m.contains(id.0) {
            (m.remove(id.0), None)
        } else {
            (m, None)
        },
    }
}

/// The ids handed out by a sequence of changes, in order.
pub open spec fn issued_ids(m: CorpusModel, ops: Seq<CorpusOp>) -> Seq<usize>
    decreases ops.len(),
{
    if ops.len() == 0 {
        Seq::empty()
    } else {
        let (m2, o) = apply_op(m, ops[0]);
        let rest = issued_ids(m2, ops.drop_first());
        match o {
            Some(i) => seq![i].add(rest),
            None => rest,
        }
    }
}

/// Ids never repeat: over any sequence of adds and removes, the ids handed out
/// are strictly increasing, none below the id counter at the start, so none
/// equals an id that was present or issued before.
pub proof fn lemma_ids_never_repeat(m: CorpusModel, ops: Seq<CorpusOp>)
    requires
        m.wf(),
        m.next_id + ops.len() <= usize::MAX,
    ensures
        forall|i: int, j: int|
            0 <= i < j < issued_ids(m, ops).len() ==> issued_ids(m, ops)[i] < issued_ids(m, ops)[j],
        forall|i: int|
            0 <= i < issued_ids(m, ops).len() ==> issued_ids(m, ops)[i] >= m.next_id
                && !m.contains(#[trigger] issued_ids(m, ops)[i]),
    decreases ops.len(),
{
    if ops.len() > 0 {
        let (m2, o) = apply_op(m, ops[0]);
        match ops[0] {
            CorpusOp::Add(tc) => lemma_add_wf(m, tc),
            CorpusOp::Remove(id) => if m.contains(id.0) {
                lemma_remove_wf(m, id.0);
            },
        }
        lemma_ids_never_repeat(m2, ops.drop_first());
        let rest = issued_ids(m2, ops.drop_first());
        let all = issued_ids(m, ops);
        assert forall|i: int| 0 <= i < all.len() implies all[i] >= m.next_id
            && !m.contains(#[trigger] all[i]) by {
            if m.contains(all[i]) {
                let j = choose|j: int| 0 <= j < m.ids.len() && m.ids[j] == all[i];
                assert(m.ids[j] < m.next_id);
            }
        }
    }
}

/// An in-memory corpus.
pub struct Corpus {
    ids: Vec<usize>,
    testcases: Vec<Testcase>,
    next_id: usize,
    current: Option<CorpusId>,
}

impl View for Corpus {
    type V = CorpusModel;

    closed spec fn view(&self) -> CorpusModel {
        CorpusModel {
            ids: self.ids@,
            testcases: self.testcases@,
            next_id: self.next_id as nat,
            current: self.current,
        }
    }
}

impl Corpus {
    pub closed spec fn wf(&self) -> bool {
        self@.wf()
    }

    /// What a well-formed corpus guarantees of its model.
    pub proof fn lemma_wf(&self)
        requires
            self.wf(),
        ensures
            self@.wf(),
            self@.next_id <= usize::MAX,
            self@.ids.len() <= usize::MAX,
    {
        lemma_count_bounded(self@);
    }

    /// A corpus made of the given entries, id counter and cursor, if they
    /// form a well-formed corpus (as many ids as entries, ids strictly
    /// increasing and all below the counter).
    pub fn from_parts(ids: Vec<usize>, testcases: Vec<Testcase>, next_id: usize, current: Option<CorpusId>) -> (r: Option<Corpus>)
        ensures
            r.is_some() <==> (CorpusModel { ids: ids@, testcases: testcases@, next_id: next_id as nat, current }).wf(),
            r.is_some() ==> r.unwrap().wf() && r.unwrap()@ == (CorpusModel {
                ids: ids@,
                testcases: testcases@,
                next_id: next_id as nat,
                current,
            }),
    {
        if ids.len() != testcases.len() {
            return None;
        }
        let mut k: usize = 0;
        while k < ids.len()
            invariant
                k <= ids@.len(),
                forall|a: int, b: int| 0 <= a < b < k ==> ids@[a] < ids@[b],
                forall|a: int| 0 <= a < k ==> ids@[a] < next_id,
            decreases ids@.len() - k,
        {
            if ids[k] >= next_id {
                return None;
            }
            if k > 0 && ids[k - 1] >= ids[k] {
                return None;
            }
            proof {
                assert forall|a: int, b: int| 0 <= a < b < k + 1 implies ids@[a] < ids@[b] by {
                    if b == k && a < k - 1 {
                        assert(ids@[a] < ids@[k - 1]);
                    }
                }
            }
            k = k + 1;
        }
        Some(Corpus { ids, testcases, next_id, current })
    }

    /// An empty corpus whose first id is 0.
    pub fn new() -> (r: Corpus)
        ensures
            r.wf(),
            r@.ids.len() == 0,
            r@.next_id == 0,
            r@.current.is_none(),
    {
        Corpus { ids: Vec::new(), testcases: Vec::new(), next_id: 0, current: None }
    }

    /// Number of entries.
    pub fn count(&self) -> (r: usize)
        requires
            self.wf(),
        ensures
            r == self@.count(),
    {
        self.ids.len()
    }

    /// Index of `id`, if it is present.
    fn find(&self, id: CorpusId) -> (r: Option<usize>)
        requires
            self.wf(),
        ensures
            r.is_some() <==> self@.contains(id.0),
            r.is_some() ==> r.unwrap() == self@.position(id.0) && r.unwrap() < self@.ids.len(),
    {
        let mut k: usize = 0;
        while k < self.ids.len()
            invariant
                self.wf(),
                k <= self.ids@.len(),
                forall|j: int| 0 <= j < k ==> self.ids@[j] != id.0,
            decreases self.ids@.len() - k,
        {
            if self.ids[k] == id.0 {
                proof {
                    lemma_position_unique(self@, k as int);
                }
                return Some(k);
            }
            k = k + 1;
        }
        proof {
            if self@.contains(id.0) {
                let j = choose|j: int| 0 <= j < self.ids@.len() && self.ids@[j] == id.0;
                assert(self.ids@[j] == id.0);
            }
        }
        None
    }

    /// Adds `tc` under a fresh id: the value of the id counter, which then grows by one.
    pub fn add(&mut self, tc: Testcase) -> (r: CorpusId)
        requires
            old(self).wf(),
            old(self)@.next_id < usize::MAX,
        ensures
            final(self).wf(),
            r.0 == old(self)@.next_id,
            !old(self)@.contains(r.0),
            final(self)@ == old(self)@.add(tc),
    {
        let id = self.next_id;
        self.ids.push(id);
        self.testcases.push(tc);
        self.next_id = self.next_id + 1;
        proof {
            if old(self)@.contains(id) {
                let j = choose|j: int| 0 <= j < old(self)@.ids.len() && old(self)@.ids[j] == id;
                assert(old(self)@.ids[j] == id);
            }
        }
        CorpusId(id)
    }

    /// Replaces the entry `id` in place and returns the previous one; an
    /// unknown id is an illegal state.
    pub fn replace(&mut self, id: CorpusId, tc: Testcase) -> (r: Result<Testcase, Error>)
        requires
            old(self).wf(),
        ensures
            final(self).wf(),
            r.is_ok() <==> old(self)@.contains(id.0),
            r.is_ok() ==> r.unwrap() == old(self)@.get(id.0) && final(self)@ == old(self)@.replace(id.0, tc),
            r.is_err() ==> r == Err::<Testcase, Error>(Error::IllegalState) && final(self)@ == old(self)@,
    {
        match self.find(id) {
            Some(k) => {
                let mut tc = tc;
                std::mem::swap(&mut self.testcases[k], &mut tc);
                Ok(tc)
            },
            None => Err(Error::IllegalState),
        }
    }

    /// Removes the entry `id`; the other entries keep their ids and order. An
    /// unknown id is an illegal state.
    pub fn remove(&mut self, id: CorpusId) -> (r: Result<Testcase, Error>)
        requires
            old(self).wf(),
        ensures
            final(self).wf(),
            r.is_ok() <==> old(self)@.contains(id.0),
            r.is_ok() ==> r.unwrap() == old(self)@.get(id.0) && final(self)@ == old(self)@.remove(id.0),
            r.is_err() ==> r == Err::<Testcase, Error>(Error::IllegalState) && final(self)@ == old(self)@,
    {
        match self.find(id) {
            Some(k) => {
                self.ids.remove(k);
                let tc = self.testcases.remove(k);
                proof {
                    lemma_remove_wf(old(self)@, id.0);
                }
                Ok(tc)
            },
            None => Err(Error::IllegalState),
        }
    }

    /// The entry `id`, or `KeyNotFound`.
    pub fn get(&self, id: CorpusId) -> (r: Result<&Testcase, Error>)
        requires
            self.wf(),
        ensures
            r.is_ok() <==> self@.contains(id.0),
            r.is_ok() ==> *r.unwrap() == self@.get(id.0),
            r.is_err() ==> r == Err::<&Testcase, Error>(Error::KeyNotFound),
    {
        match self.find(id) {
            Some(k) => Ok(&self.testcases[k]),
            None => Err(Error::KeyNotFound),
        }
    }

    /// The oldest entry; some id exactly when the corpus is not empty.
    pub fn first(&self) -> (r: Option<CorpusId>)
        requires
            self.wf(),
        ensures
            r == self@.first(),
    {
        if self.ids.len() > 0 {
            Some(CorpusId(self.ids[0]))
        } else {
            None
        }
    }

    /// The newest entry.
    pub fn last(&self) -> (r: Option<CorpusId>)
        requires
            self.wf(),
        ensures
            r == self@.last(),
    {
        let n = self.ids.len();
        if n > 0 {
            Some(CorpusId(self.ids[n - 1]))
        } else {
            None
        }
    }

    /// The entry after `id` in insertion order; `None` after the last entry
    /// and for an id that is not present.
    pub fn next(&self, id: CorpusId) -> (r: Option<CorpusId>)
        requires
            self.wf(),
        ensures
            r == self@.next(id.0),
    {
        match self.find(id) {
            Some(k) => {
                if k < self.ids.len() - 1 {
                    Some(CorpusId(self.ids[k + 1]))
                } else {
                    None
                }
            },
            None => None,
        }
    }

    /// Mutable access to the entry `id`, or `KeyNotFound`.
    pub fn get_mut(&mut self, id: CorpusId) -> (r: Result<&mut Testcase, Error>)
        requires
            old(self).wf(),
        ensures
            r.is_ok() <==> old(self)@.contains(id.0),
            r.is_ok() ==> *r.unwrap() == old(self)@.get(id.0)
                && final(self)@ == old(self)@.replace(id.0, *final(r.unwrap())),
            r.is_err() ==> r == Err::<&mut Testcase, Error>(Error::KeyNotFound) && final(self)@ == old(self)@,
            final(self).wf(),
    {
        match self.find(id) {
            Some(k) => Ok(&mut self.testcases[k]),
            None => Err(Error::KeyNotFound),
        }
    }

    /// The id and entry at position `k` in insertion order.
    pub fn entry_at(&self, k: usize) -> (r: (CorpusId, &Testcase))
        requires
            self.wf(),
            k < self@.ids.len(),
        ensures
            r.0.0 == self@.ids[k as int],
            *r.1 == self@.testcases[k as int],
    {
        (CorpusId(self.ids[k]), &self.testcases[k])
    }

    /// The id the next `add` hands out.
    pub fn next_id(&self) -> (r: usize)
        ensures
            r == self@.next_id,
    {
        self.next_id
    }

    /// The cursor of the scheduler.
    pub fn current(&self) -> (r: Option<CorpusId>)
        ensures
            r == self@.current,
    {
        self.current
    }

    /// Moves the cursor of the scheduler.
    pub fn set_current(&mut self, id: Option<CorpusId>)
        requires
            old(self).wf(),
        ensures
            final(self).wf(),
            final(self)@ == (CorpusModel { current: id, ..old(self)@ }),
    {
        self.current = id;
    }
}

} // verus!
