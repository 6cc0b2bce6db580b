//! Observations of one run, feedbacks that judge them, and their combinators.
use vstd::prelude::*;

use crate::corpus::Testcase;
use crate::error::ExitKind;

verus! {

/// What the observers collected during one run of the target.
#[derive(Clone, Debug)]
pub struct Observation {
    /// How the run ended.
    pub exit_kind: ExitKind,
    /// The edge map: one hit count per instrumented edge.
    pub map: Vec<u8>,
    /// Wall-clock duration of the run, in nanoseconds.
    pub exec_time_nanos: u64,
}

/// A predicate over observations. It may keep state (a novelty map), and it
/// may attach metadata to a testcase that is about to be stored.
pub trait Feedback: Sized {
    /// Whether `obs` is interesting to a feedback in this state.
    spec fn spec_interesting(&self, obs: &Observation) -> bool;

    /// Whether `next` is a state this feedback may be in after it judged `obs`.
    spec fn spec_step(&self, obs: &Observation, next: &Self) -> bool;

    /// `tc` with this feedback's metadata for `obs` attached.
    spec fn spec_metadata(&self, obs: &Observation, tc: Testcase) -> Testcase;

    fn is_interesting(&mut self, obs: &Observation) -> (r: bool)
        ensures
            r == old(self).spec_interesting(obs),
            old(self).spec_step(obs, &*final(self)),
    ;

    /// Attaches metadata; the input itself is left as it is.
    fn append_metadata(&self, obs: &Observation, tc: &mut Testcase)
        ensures
            *final(tc) == self.spec_metadata(obs, *old(tc)),
            final(tc).input == old(tc).input,
    ;
}

/// One more, saturating at `u64::MAX`.
pub open spec fn saturating_inc64(v: u64) -> u64 {
    if v == u64::MAX {
        v
    } else {
        (v + 1) as u64
    }
}

/// Interesting exactly when the run crashed. Counts how often it was asked,
/// and how often it said yes.
#[derive(Clone, Copy, Debug, PartialEq, Eq, Structural)]
pub struct CrashFeedback {
    /// How many observations it judged.
    pub evaluations: u64,
    /// How many of them it found interesting.
    pub hits: u64,
}

impl CrashFeedback {
    pub fn new() -> (r: CrashFeedback)
        ensures
            r.evaluations == 0,
            r.hits == 0,
    {
        CrashFeedback { evaluations: 0, hits: 0 }
    }
}

impl Feedback for CrashFeedback {
    open spec fn spec_interesting(&self, obs: &Observation) -> bool {
        obs.exit_kind == ExitKind::Crash
    }

    open spec fn spec_step(&self, obs: &Observation, next: &CrashFeedback) -> bool {
        &&& next.evaluations == saturating_inc64(self.evaluations)
        &&& next.hits == if obs.exit_kind == ExitKind::Crash {
            saturating_inc64(self.hits)
        } else {
            self.hits
        }
    }

    open spec fn spec_metadata(&self, obs: &Observation, tc: Testcase) -> Testcase {
        tc
    }

    fn is_interesting(&mut self, obs: &Observation) -> (r: bool) {
        self.evaluations = self.evaluations.saturating_add(1);
        let r = obs.exit_kind == ExitKind::Crash;
        if r {
            self.hits = self.hits.saturating_add(1);
        }
        r
    }

    fn append_metadata(&self, obs: &Observation, tc: &mut Testcase) {
    }
}

/// Interesting exactly when the run timed out. Counts how often it was asked,
/// and how often it said yes.
#[derive(Clone, Copy, Debug, PartialEq, Eq, Structural)]
pub struct TimeoutFeedback {
    /// How many observations it judged.
    pub evaluations: u64,
    /// How many of them it found interesting.
    pub hits: u64,
}

impl TimeoutFeedback {
    pub fn new() -> (r: TimeoutFeedback)
        ensures
            r.evaluations == 0,
            r.hits == 0,
    {
        TimeoutFeedback { evaluations: 0, hits: 0 }
    }
}

impl Feedback for TimeoutFeedback {
    open spec fn spec_interesting(&self, obs: &Observation) -> bool {
        obs.exit_kind == ExitKind::Timeout
    }

    open spec fn spec_step(&self, obs: &Observation, next: &TimeoutFeedback) -> bool {
        &&& next.evaluations == saturating_inc64(self.evaluations)
        &&& next.hits == if obs.exit_kind == ExitKind::Timeout {
            saturating_inc64(self.hits)
        } else {
            self.hits
        }
    }

    open spec fn spec_metadata(&self, obs: &Observation, tc: Testcase) -> Testcase {
        tc
    }

    fn is_interesting(&mut self, obs: &Observation) -> (r: bool) {
        self.evaluations = self.evaluations.saturating_add(1);
        let r = obs.exit_kind == ExitKind::Timeout;
        if r {
            self.hits = self.hits.saturating_add(1);
        }
        r
    }

    fn append_metadata(&self, obs: &Observation, tc: &mut Testcase) {
    }
}

/// Never vetoes and never asks for a store; records the run's duration on the
/// stored testcase.
#[derive(Clone, Copy, Debug, PartialEq, Eq, Structural)]
pub struct TimeFeedback {}

impl TimeFeedback {
    pub fn new() -> (r: TimeFeedback) {
        TimeFeedback {}
    }
}

impl Feedback for TimeFeedback {
    open spec fn spec_interesting(&self, obs: &Observation) -> bool {
        false
    }

    open spec fn spec_step(&self, obs: &Observation, next: &TimeFeedback) -> bool {
        true
    }

    open spec fn spec_metadata(&self, obs: &Observation, tc: Testcase) -> Testcase {
        Testcase { exec_time_nanos: Some(obs.exec_time_nanos), ..tc }
    }

    fn is_interesting(&mut self, obs: &Observation) -> (r: bool) {
        false
    }

    fn append_metadata(&self, obs: &Observation, tc: &mut Testcase) {
        tc.exec_time_nanos = Some(obs.exec_time_nanos);
    }
}

/// The best hit count seen so far at index `i` of `history` (0 past its end).
pub open spec fn best_at(history: Seq<u8>, i: int) -> u8 {
    if 0 <= i < history.len() {
        history[i]
    } else {
        0
    }
}

/// Whether `map` beats `history` at some index.
pub open spec fn is_novel(history: Seq<u8>, map: Seq<u8>) -> bool {
    exists|i: int| 0 <= i < map.len() && map[i] > best_at(history, i)
}

/// `history` raised to `map` wherever `map` is greater, and extended to its length.
pub open spec fn merged(history: Seq<u8>, map: Seq<u8>) -> Seq<u8> {
    let n = if history.len() >= map.len() {
        history.len()
    } else {
        map.len()
    };
    Seq::new(
        n,
        |i: int|
            if i < map.len() && map[i] > best_at(history, i) {
                map[i]
            } else {
                best_at(history, i)
            },
    )
}

/// Novelty over the edge map: interesting when some hit count beats the best
/// one seen at its index, and then the best counts are raised.
#[derive(Clone, Debug)]
pub struct MaxMapFeedback {
    pub history: Vec<u8>,
}

impl MaxMapFeedback {
    pub fn new() -> (r: MaxMapFeedback)
        ensures
            r.history@.len() == 0,
    {
        MaxMapFeedback { history: Vec::new() }
    }
}

impl Feedback for MaxMapFeedback {
    open spec fn spec_interesting(&self, obs: &Observation) -> bool {
        is_novel(self.history@, obs.map@)
    }

    open spec fn spec_step(&self, obs: &Observation, next: &MaxMapFeedback) -> bool {
        next.history@ == merged(self.history@, obs.map@)
    }

    open spec fn spec_metadata(&self, obs: &Observation, tc: Testcase) -> Testcase {
        tc
    }

    fn is_interesting(&mut self, obs: &Observation) -> (r: bool) {
        let ghost old_h = self.history@;
        let ghost map = obs.map@;
        while self.history.len() < obs.map.len()
            invariant
                self.history@.len() == old_h.len() || old_h.len() < self.history@.len() <= map.len(),
                map == obs.map@,
                forall|j: int| 0 <= j < self.history@.len() ==> self.history@[j] == best_at(old_h, j),
            decreases obs.map@.len() - self.history@.len(),
        {
            self.history.push(0);
        }
        let mut novel = false;
        let mut i: usize = 0;
        while i < obs.map.len()
            invariant
                i <= map.len(),
                map == obs.map@,
                self.history@.len() == merged(old_h, map).len(),
                forall|j: int| 0 <= j < i ==> self.history@[j] == merged(old_h, map)[j],
                forall|j: int| i <= j < self.history@.len() ==> self.history@[j] == best_at(old_h, j),
                novel == exists|j: int| 0 <= j < i && map[j] > best_at(old_h, j),
            decreases map.len() - i,
        {
            let v = obs.map[i];
            if v > self.history[i] {
                self.history.set(i, v);
                novel = true;
            }
            i = i + 1;
        }
        assert(self.history@ =~= merged(old_h, map));
        novel
    }

    fn append_metadata(&self, obs: &Observation, tc: &mut Testcase) {
    }
}

/// Eager OR: both children judge every observation (so each keeps its
/// novelty state current); interesting when either is.
#[derive(Clone, Debug)]
pub struct EagerOr<A, B> {
    pub first: A,
    pub second: B,
}

/// Combines two feedbacks with an eager OR.
pub fn feedback_or<A: Feedback, B: Feedback>(first: A, second: B) -> (r: EagerOr<A, B>)
    ensures
        r.first == first,
        r.second == second,
{
    EagerOr { first, second }
}

impl<A: Feedback, B: Feedback> Feedback for EagerOr<A, B> {
    open spec fn spec_interesting(&self, obs: &Observation) -> bool {
        self.first.spec_interesting(obs) || self.second.spec_interesting(obs)
    }

    open spec fn spec_step(&self, obs: &Observation, next: &EagerOr<A, B>) -> bool {
        self.first.spec_step(obs, &next.first) && self.second.spec_step(obs, &next.second)
    }

    open spec fn spec_metadata(&self, obs: &Observation, tc: Testcase) -> Testcase {
        self.second.spec_metadata(obs, self.first.spec_metadata(obs, tc))
    }

    fn is_interesting(&mut self, obs: &Observation) -> (r: bool) {
        let a = self.first.is_interesting(obs);
        let b = self.second.is_interesting(obs);
        a || b
    }

    fn append_metadata(&self, obs: &Observation, tc: &mut Testcase) {
        self.first.append_metadata(obs, tc);
        self.second.append_metadata(obs, tc);
    }
}

/// Short-circuit OR: the second child is asked only when the first says no.
#[derive(Clone, Debug)]
pub struct FastOr<A, B> {
    pub first: A,
    pub second: B,
}

/// Combines two feedbacks with a short-circuit OR.
pub fn feedback_or_fast<A: Feedback, B: Feedback>(first: A, second: B) -> (r: FastOr<A, B>)
    ensures
        r.first == first,
        r.second == second,
{
    FastOr { first, second }
}

impl<A: Feedback, B: Feedback> Feedback for FastOr<A, B> {
    open spec fn spec_interesting(&self, obs: &Observation) -> bool {
        self.first.spec_interesting(obs) || self.second.spec_interesting(obs)
    }

    open spec fn spec_step(&self, obs: &Observation, next: &FastOr<A, B>) -> bool {
        &&& self.first.spec_step(obs, &next.first)
        &&& if self.first.spec_interesting(obs) {
            next.second == self.second
        } else {
            self.second.spec_step(obs, &next.second)
        }
    }

    open spec fn spec_metadata(&self, obs: &Observation, tc: Testcase) -> Testcase {
        self.second.spec_metadata(obs, self.first.spec_metadata(obs, tc))
    }

    fn is_interesting(&mut self, obs: &Observation) -> (r: bool) {
        if self.first.is_interesting(obs) {
            true
        } else {
            self.second.is_interesting(obs)
        }
    }

    fn append_metadata(&self, obs: &Observation, tc: &mut Testcase) {
        self.first.append_metadata(obs, tc);
        self.second.append_metadata(obs, tc);
    }
}

/// Short-circuit: when the first child of a short-circuit OR finds the
/// observation interesting, the second is not asked and keeps its state.
pub proof fn lemma_fast_or_stops_at_first<A: Feedback, B: Feedback>(
    f: FastOr<A, B>,
    obs: Observation,
    next: FastOr<A, B>,
)
    requires
        f.spec_step(&obs, &next),
        f.first.spec_interesting(&obs),
    ensures
        f.spec_interesting(&obs),
        next.second == f.second,
{
}

/// Novelty is monotone: once the novelty feedback has judged a map, neither
/// that map nor any map that is nowhere above it is interesting again.
pub proof fn lemma_seen_map_not_novel(f: MaxMapFeedback, obs: Observation, next: MaxMapFeedback, again: Observation)
    requires
        f.spec_step(&obs, &next),
        again.map@.len() <= obs.map@.len(),
        forall|i: int| 0 <= i < again.map@.len() ==> again.map@[i] <= obs.map@[i],
    ensures
        !next.spec_interesting(&again),
{
    if next.spec_interesting(&again) {
        let i = choose|i: int| 0 <= i < again.map@.len() && again.map@[i] > best_at(next.history@, i);
        assert(next.history@[i] == merged(f.history@, obs.map@)[i]);
    }
}

/// The novelty history after judging each of `maps` in turn, from `h`.
pub open spec fn history_after(h: Seq<u8>, maps: Seq<Seq<u8>>) -> Seq<u8>
    decreases maps.len(),
{
    if maps.len() == 0 {
        h
    } else {
        history_after(merged(h, maps[0]), maps.drop_first())
    }
}

proof fn lemma_history_grows(h: Seq<u8>, maps: Seq<Seq<u8>>, i: int)
    ensures
        best_at(history_after(h, maps), i) >= best_at(h, i),
    decreases maps.len(),
{
    if maps.len() > 0 {
        let h1 = merged(h, maps[0]);
        assert(best_at(h1, i) >= best_at(h, i)) by {
            if 0 <= i < h.len() {
                assert(h1[i] >= h[i]);
            }
        }
        lemma_history_grows(h1, maps.drop_first(), i);
    }
}

/// Novelty is monotone over any run of judgements: once the novelty feedback
/// has judged a map, that map is not interesting again, whatever maps it
/// judges in between.
pub proof fn lemma_seen_map_never_novel_again(h: Seq<u8>, seen: Seq<u8>, later: Seq<Seq<u8>>)
    ensures
        !is_novel(history_after(merged(h, seen), later), seen),
{
    let h1 = merged(h, seen);
    if is_novel(history_after(h1, later), seen) {
        let i = choose|i: int| 0 <= i < seen.len() && seen[i] > best_at(history_after(h1, later), i);
        lemma_history_grows(h1, later, i);
        assert(h1[i] >= seen[i]);
    }
}

/// The crash, timeout and time feedbacks answer as a function of the
/// observation alone: two judgements of one observation agree, whatever
/// happened in between.
pub proof fn lemma_stateless_feedbacks_deterministic(
    c1: CrashFeedback,
    c2: CrashFeedback,
    t1: TimeoutFeedback,
    t2: TimeoutFeedback,
    m1: TimeFeedback,
    m2: TimeFeedback,
    obs: Observation,
)
    ensures
        c1.spec_interesting(&obs) == c2.spec_interesting(&obs),
        t1.spec_interesting(&obs) == t2.spec_interesting(&obs),
        m1.spec_interesting(&obs) == m2.spec_interesting(&obs),
{
}

/// The bucket that a raw hit count falls in: 0, 1, 2, 3, 4-7, 8-15, 16-31,
/// 32-127 and 128 or more, each represented by one value.
pub open spec fn bucket(v: u8) -> u8 {
    if v <= 2 {
        v
    } else if v == 3 {
        4
    } else if v <= 7 {
        8
    } else if v <= 15 {
        16
    } else if v <= 31 {
        32
    } else if v <= 127 {
        64
    } else {
        128
    }
}

fn bucket_of(v: u8) -> (r: u8)
    ensures
        r == bucket(v),
{
    if v <= 2 {
        v
    } else if v == 3 {
        4
    } else if v <= 7 {
        8
    } else if v <= 15 {
        16
    } else if v <= 31 {
        32
    } else if v <= 127 {
        64
    } else {
        128
    }
}

/// Replaces each raw hit count of `map` by its bucket, so that close counts
/// compare equal.
pub fn classify_counts(map: &mut Vec<u8>)
    ensures
        final(map)@.len() == old(map)@.len(),
        forall|i: int| 0 <= i < old(map)@.len() ==> final(map)@[i] == bucket(old(map)@[i]),
{
    let mut i: usize = 0;
    while i < map.len()
        invariant
            i <= map@.len(),
            map@.len() == old(map)@.len(),
            forall|j: int| 0 <= j < i ==> map@[j] == bucket(old(map)@[j]),
            forall|j: int| i <= j < map@.len() ==> map@[j] == old(map)@[j],
        decreases map@.len() - i,
    {
        let b = bucket_of(map[i]);
        map.set(i, b);
        i = i + 1;
    }
}

} // verus!
