//! The byte image of a worker's state that a restarting worker saves before
//! each iteration and that its respawned successor loads.
use vstd::prelude::*;

use crate::corpus::{Corpus, CorpusId, CorpusModel, Testcase, TestcaseView};
use crate::error::{Error, ExitKind};
use crate::fuzzer::FuzzerState;

verus! {

/// The 8 little-endian bytes of `v`.
pub open spec fn le_word(v: u64) -> Seq<u8> {
    seq![
        (v & 0xff) as u8,
        ((v >> 8u64) & 0xff) as u8,
        ((v >> 16u64) & 0xff) as u8,
        ((v >> 24u64) & 0xff) as u8,
        ((v >> 32u64) & 0xff) as u8,
        ((v >> 40u64) & 0xff) as u8,
        ((v >> 48u64) & 0xff) as u8,
        ((v >> 56u64) & 0xff) as u8,
    ]
}

/// The value of the 8 little-endian bytes at `pos`.
pub open spec fn word_at(s: Seq<u8>, pos: int) -> u64 {
    (s[pos] as u64) | ((s[pos + 1] as u64) << 8u64) | ((s[pos + 2] as u64) << 16u64) | ((s[pos + 3] as u64)
        << 24u64) | ((s[pos + 4] as u64) << 32u64) | ((s[pos + 5] as u64) << 40u64) | ((s[pos + 6] as u64)
        << 48u64) | ((s[pos + 7] as u64) << 56u64)
}

pub proof fn lemma_word_round_trip(v: u64, pre: Seq<u8>, post: Seq<u8>)
    ensures
        word_at(pre + le_word(v) + post, pre.len() as int) == v,
{
    let s = pre + le_word(v) + post;
    let p = pre.len() as int;
    assert(s[p] == (v & 0xff) as u8);
    assert(s[p + 1] == ((v >> 8u64) & 0xff) as u8);
    assert(s[p + 2] == ((v >> 16u64) & 0xff) as u8);
    assert(s[p + 3] == ((v >> 24u64) & 0xff) as u8);
    assert(s[p + 4] == ((v >> 32u64) & 0xff) as u8);
    assert(s[p + 5] == ((v >> 40u64) & 0xff) as u8);
    assert(s[p + 6] == ((v >> 48u64) & 0xff) as u8);
    assert(s[p + 7] == ((v >> 56u64) & 0xff) as u8);
    assert(
        ((v & 0xff) as u8 as u64) | ((((v >> 8u64) & 0xff) as u8 as u64) << 8u64) | ((((v >> 16u64) & 0xff) as u8
            as u64) << 16u64) | ((((v >> 24u64) & 0xff) as u8 as u64) << 24u64) | ((((v >> 32u64) & 0xff) as u8
            as u64) << 32u64) | ((((v >> 40u64) & 0xff) as u8 as u64) << 40u64) | ((((v >> 48u64) & 0xff) as u8
            as u64) << 48u64) | ((((v >> 56u64) & 0xff) as u8 as u64) << 56u64) == v
    ) by (bit_vector);
}

/// Reads one word at `pos`.
pub open spec fn parse_word(s: Seq<u8>, pos: int) -> Option<(u64, int)> {
    if 0 <= pos && pos + 8 <= s.len() {
        Some((word_at(s, pos), pos + 8))
    } else {
        None
    }
}

/// An optional value: a word 0, or a word 1 followed by the value.
pub open spec fn enc_opt(o: Option<u64>) -> Seq<u8> {
    match o {
        None => le_word(0),
        Some(v) => le_word(1) + le_word(v),
    }
}

pub open spec fn parse_opt(s: Seq<u8>, pos: int) -> Option<(Option<u64>, int)> {
    match parse_word(s, pos) {
        Some((0, p)) => Some((None, p)),
        Some((1, p)) => match parse_word(s, p) {
            Some((v, p2)) => Some((Some(v), p2)),
            None => None,
        },
        _ => None,
    }
}

/// A byte string: its length, then its bytes.
pub open spec fn enc_bytes(b: Seq<u8>) -> Seq<u8> {
    le_word(b.len() as u64) + b
}

pub open spec fn parse_bytes(s: Seq<u8>, pos: int) -> Option<(Seq<u8>, int)> {
    match parse_word(s, pos) {
        Some((n, p)) => if p + n <= s.len() {
            Some((s.subrange(p, p + n), p + n))
        } else {
            None
        },
        None => None,
    }
}

pub open spec fn kind_code(k: ExitKind) -> u64 {
    match k {
        ExitKind::Normal => 0,
        ExitKind::Crash => 1,
        ExitKind::Oom => 2,
        ExitKind::Timeout => 3,
    }
}

pub open spec fn kind_of_code(c: u64) -> Option<ExitKind> {
    if c == 0 {
        Some(ExitKind::Normal)
    } else if c == 1 {
        Some(ExitKind::Crash)
    } else if c == 2 {
        Some(ExitKind::Oom)
    } else if c == 3 {
        Some(ExitKind::Timeout)
    } else {
        None
    }
}

pub open spec fn opt_id_code(o: Option<CorpusId>) -> Option<u64> {
    match o {
        Some(id) => Some(id.0 as u64),
        None => None,
    }
}

pub open spec fn opt_kind_code(o: Option<ExitKind>) -> Option<u64> {
    match o {
        Some(k) => Some(kind_code(k)),
        None => None,
    }
}

pub open spec fn opt_usize_code(o: Option<usize>) -> Option<u64> {
    match o {
        Some(v) => Some(v as u64),
        None => None,
    }
}

/// One testcase: input, executions, parent, cause, duration, depth, slot.
#[verifier::opaque]
pub open spec fn enc_testcase(t: TestcaseView) -> Seq<u8> {
    enc_bytes(t.input) + le_word(t.executions) + enc_opt(opt_id_code(t.parent_id)) + enc_opt(
        opt_kind_code(t.crash_cause),
    ) + enc_opt(t.exec_time_nanos) + le_word(t.depth) + enc_opt(opt_usize_code(t.n_fuzz_entry))
}

pub open spec fn usize_of(v: u64) -> Option<usize> {
    if v <= usize::MAX {
        Some(v as usize)
    } else {
        None
    }
}

pub open spec fn opt_id_of(o: Option<u64>) -> Option<Option<CorpusId>> {
    match o {
        None => Some(None),
        Some(v) => match usize_of(v) {
            Some(u) => Some(Some(CorpusId(u))),
            None => None,
        },
    }
}

pub open spec fn opt_kind_of(o: Option<u64>) -> Option<Option<ExitKind>> {
    match o {
        None => Some(None),
        Some(v) => match kind_of_code(v) {
            Some(k) => Some(Some(k)),
            None => None,
        },
    }
}

pub open spec fn opt_usize_of(o: Option<u64>) -> Option<Option<usize>> {
    match o {
        None => Some(None),
        Some(v) => match usize_of(v) {
            Some(u) => Some(Some(u)),
            None => None,
        },
    }
}

#[verifier::opaque]
pub open spec fn parse_testcase(s: Seq<u8>, pos: int) -> Option<(TestcaseView, int)> {
    match parse_bytes(s, pos) {
        None => None,
        Some((input, p1)) => match parse_word(s, p1) {
            None => None,
            Some((executions, p2)) => match parse_opt(s, p2) {
                None => None,
                Some((parent, p3)) => match parse_opt(s, p3) {
                    None => None,
                    Some((cause, p4)) => match parse_opt(s, p4) {
                        None => None,
                        Some((time, p5)) => match parse_word(s, p5) {
                            None => None,
                            Some((depth, p6)) => match parse_opt(s, p6) {
                                None => None,
                                Some((slot, p7)) => match (opt_id_of(parent), opt_kind_of(cause), opt_usize_of(slot)) {
                                    (Some(parent_id), Some(crash_cause), Some(n_fuzz_entry)) => Some((
                                        TestcaseView {
                                            input,
                                            executions,
                                            parent_id,
                                            crash_cause,
                                            exec_time_nanos: time,
                                            depth,
                                            n_fuzz_entry,
                                        },
                                        p7,
                                    )),
                                    _ => None,
                                },
                            },
                        },
                    },
                },
            },
        },
    }
}

/// `s` holds `x` at `p`.
pub open spec fn holds_at(s: Seq<u8>, p: int, x: Seq<u8>) -> bool {
    0 <= p && p + x.len() <= s.len() && s.subrange(p, p + x.len()) == x
}

pub proof fn lemma_split(s: Seq<u8>, p: int, x: Seq<u8>, y: Seq<u8>)
    requires
        holds_at(s, p, x + y),
    ensures
        holds_at(s, p, x),
        holds_at(s, p + x.len(), y),
{
    let w = s.subrange(p, p + (x + y).len());
    assert(w == x + y);
    assert forall|i: int| 0 <= i < x.len() implies s.subrange(p, p + x.len())[i] == x[i] by {
        assert(w[i] == (x + y)[i]);
    }
    assert(s.subrange(p, p + x.len()) =~= x);
    assert forall|i: int| 0 <= i < y.len() implies s.subrange(p + x.len(), p + x.len() + y.len())[i] == y[i] by {
        assert(w[x.len() + i] == (x + y)[x.len() + i]);
    }
    assert(s.subrange(p + x.len(), p + x.len() + y.len()) =~= y);
}

pub proof fn lemma_word(s: Seq<u8>, p: int, v: u64)
    requires
        holds_at(s, p, le_word(v)),
    ensures
        parse_word(s, p) == Some((v, p + 8)),
{
    let pre = s.subrange(0, p);
    let post = s.subrange(p + 8, s.len() as int);
    assert(s =~= pre + le_word(v) + post);
    lemma_word_round_trip(v, pre, post);
}

pub proof fn lemma_opt(s: Seq<u8>, p: int, o: Option<u64>)
    requires
        holds_at(s, p, enc_opt(o)),
    ensures
        parse_opt(s, p) == Some((o, p + enc_opt(o).len())),
{
    match o {
        None => lemma_word(s, p, 0),
        Some(v) => {
            lemma_split(s, p, le_word(1), le_word(v));
            lemma_word(s, p, 1);
            lemma_word(s, p + 8, v);
        },
    }
}

pub proof fn lemma_bytes(s: Seq<u8>, p: int, b: Seq<u8>)
    requires
        b.len() <= u64::MAX,
        holds_at(s, p, enc_bytes(b)),
    ensures
        parse_bytes(s, p) == Some((b, p + enc_bytes(b).len())),
{
    lemma_split(s, p, le_word(b.len() as u64), b);
    lemma_word(s, p, b.len() as u64);
}

pub proof fn lemma_testcase(s: Seq<u8>, p: int, t: TestcaseView)
    requires
        t.input.len() <= u64::MAX,
        holds_at(s, p, enc_testcase(t)),
    ensures
        parse_testcase(s, p) == Some((t, p + enc_testcase(t).len())),
{
    reveal(enc_testcase);
    reveal(parse_testcase);
    let a = enc_bytes(t.input);
    let b = le_word(t.executions);
    let c = enc_opt(opt_id_code(t.parent_id));
    let d = enc_opt(opt_kind_code(t.crash_cause));
    let e = enc_opt(t.exec_time_nanos);
    let f = le_word(t.depth);
    let g = enc_opt(opt_usize_code(t.n_fuzz_entry));
    lemma_split(s, p, a + b + c + d + e + f, g);
    lemma_split(s, p, a + b + c + d + e, f);
    lemma_split(s, p, a + b + c + d, e);
    lemma_split(s, p, a + b + c, d);
    lemma_split(s, p, a + b, c);
    lemma_split(s, p, a, b);
    let p1 = p + a.len();
    let p2 = p1 + b.len();
    let p3 = p2 + c.len();
    let p4 = p3 + d.len();
    let p5 = p4 + e.len();
    let p6 = p5 + f.len();
    lemma_bytes(s, p, t.input);
    lemma_word(s, p1, t.executions);
    lemma_opt(s, p2, opt_id_code(t.parent_id));
    lemma_opt(s, p3, opt_kind_code(t.crash_cause));
    lemma_opt(s, p4, t.exec_time_nanos);
    lemma_word(s, p5, t.depth);
    lemma_opt(s, p6, opt_usize_code(t.n_fuzz_entry));
    match t.crash_cause {
        Some(k) => assert(kind_of_code(kind_code(k)) == Some(k)),
        None => {},
    }
}

/// One corpus entry: its id, then its testcase.
pub open spec fn enc_entry(id: usize, t: TestcaseView) -> Seq<u8> {
    le_word(id as u64) + enc_testcase(t)
}

/// The first `n` entries, in order.
pub open spec fn enc_entries(ids: Seq<usize>, ts: Seq<TestcaseView>, n: nat) -> Seq<u8>
    decreases n,
{
    if n == 0 {
        Seq::empty()
    } else {
        enc_entries(ids, ts, (n - 1) as nat) + enc_entry(ids[n - 1], ts[n - 1])
    }
}

pub open spec fn parse_entry(s: Seq<u8>, pos: int) -> Option<(usize, TestcaseView, int)> {
    match parse_word(s, pos) {
        Some((id, p1)) => match usize_of(id) {
            Some(u) => match parse_testcase(s, p1) {
                Some((t, p2)) => Some((u, t, p2)),
                None => None,
            },
            None => None,
        },
        None => None,
    }
}

pub open spec fn parse_entries(s: Seq<u8>, pos: int, n: nat) -> Option<(Seq<usize>, Seq<TestcaseView>, int)>
    decreases n,
{
    if n == 0 {
        Some((Seq::empty(), Seq::empty(), pos))
    } else {
        match parse_entries(s, pos, (n - 1) as nat) {
            Some((ids, ts, p)) => match parse_entry(s, p) {
                Some((u, t, p2)) => Some((ids.push(u), ts.push(t), p2)),
                None => None,
            },
            None => None,
        }
    }
}

/// Every input of `ts` has a length that fits in a word.
pub open spec fn inputs_fit(ts: Seq<TestcaseView>) -> bool {
    forall|i: int| 0 <= i < ts.len() ==> #[trigger] ts[i].input.len() <= u64::MAX
}

pub proof fn lemma_entries(s: Seq<u8>, p: int, ids: Seq<usize>, ts: Seq<TestcaseView>, n: nat)
    requires
        n <= ids.len(),
        n <= ts.len(),
        inputs_fit(ts),
        holds_at(s, p, enc_entries(ids, ts, n)),
    ensures
        parse_entries(s, p, n) == Some((ids.take(n as int), ts.take(n as int), p + enc_entries(ids, ts, n).len())),
    decreases n,
{
    if n == 0 {
        assert(ids.take(0) =~= Seq::<usize>::empty());
        assert(ts.take(0) =~= Seq::<TestcaseView>::empty());
    } else {
        let k = (n - 1) as nat;
        let before = enc_entries(ids, ts, k);
        let e = enc_entry(ids[k as int], ts[k as int]);
        lemma_split(s, p, before, e);
        lemma_entries(s, p, ids, ts, k);
        let q = p + before.len();
        lemma_split(s, q, le_word(ids[k as int] as u64), enc_testcase(ts[k as int]));
        lemma_word(s, q, ids[k as int] as u64);
        assert(ts[k as int].input.len() <= u64::MAX);
        lemma_testcase(s, q + 8, ts[k as int]);
        assert(ids.take(k as int).push(ids[k as int]) =~= ids.take(n as int));
        assert(ts.take(k as int).push(ts[k as int]) =~= ts.take(n as int));
    }
}

/// A corpus: id counter, cursor, number of entries, then the entries.
#[verifier::opaque]
pub open spec fn enc_corpus(m: CorpusModel) -> Seq<u8> {
    le_word(m.next_id as u64) + enc_opt(opt_id_code(m.current)) + le_word(m.ids.len() as u64) + enc_entries(
        m.ids,
        m.entry_views(),
        m.ids.len(),
    )
}

/// The parts of a corpus as read back: ids, entries, id counter, cursor.
pub struct CorpusImage {
    pub ids: Seq<usize>,
    pub testcases: Seq<TestcaseView>,
    pub next_id: usize,
    pub current: Option<CorpusId>,
}

#[verifier::opaque]
pub open spec fn parse_corpus(s: Seq<u8>, pos: int) -> Option<(CorpusImage, int)> {
    match parse_word(s, pos) {
        Some((next, p1)) => match (usize_of(next), parse_opt(s, p1)) {
            (Some(next_id), Some((cur, p2))) => match (opt_id_of(cur), parse_word(s, p2)) {
                (Some(current), Some((count, p3))) => match parse_entries(s, p3, count as nat) {
                    Some((ids, ts, p4)) => Some((CorpusImage { ids, testcases: ts, next_id, current }, p4)),
                    None => None,
                },
                _ => None,
            },
            _ => None,
        },
        None => None,
    }
}

/// The image that a corpus is saved as.
pub open spec fn image_of(m: CorpusModel) -> CorpusImage {
    CorpusImage { ids: m.ids, testcases: m.entry_views(), next_id: m.next_id as usize, current: m.current }
}

pub proof fn lemma_corpus(s: Seq<u8>, p: int, m: CorpusModel)
    requires
        m.wf(),
        m.next_id <= usize::MAX,
        m.ids.len() <= u64::MAX,
        inputs_fit(m.entry_views()),
        holds_at(s, p, enc_corpus(m)),
    ensures
        parse_corpus(s, p) == Some((image_of(m), p + enc_corpus(m).len())),
{
    reveal(enc_corpus);
    reveal(parse_corpus);
    let a = le_word(m.next_id as u64);
    let b = enc_opt(opt_id_code(m.current));
    let c = le_word(m.ids.len() as u64);
    let d = enc_entries(m.ids, m.entry_views(), m.ids.len());
    lemma_split(s, p, a + b + c, d);
    lemma_split(s, p, a + b, c);
    lemma_split(s, p, a, b);
    lemma_word(s, p, m.next_id as u64);
    lemma_opt(s, p + 8, opt_id_code(m.current));
    lemma_word(s, p + 8 + b.len(), m.ids.len() as u64);
    lemma_entries(s, p + 8 + b.len() + 8, m.ids, m.entry_views(), m.ids.len());
    assert(m.ids.take(m.ids.len() as int) =~= m.ids);
    assert(m.entry_views().take(m.ids.len() as int) =~= m.entry_views());
    match m.current {
        Some(c) => {
            assert(usize_of(c.0 as u64) == Some(c.0));
        },
        None => {},
    }
}

/// The saved image of a worker: executions, corpus, solutions.
pub open spec fn enc_state(executions: u64, corpus: CorpusModel, solutions: CorpusModel) -> Seq<u8> {
    le_word(executions) + enc_corpus(corpus) + enc_corpus(solutions)
}

pub open spec fn parse_state(s: Seq<u8>) -> Option<(u64, CorpusImage, CorpusImage)> {
    match parse_word(s, 0) {
        Some((executions, p1)) => match parse_corpus(s, p1) {
            Some((c, p2)) => match parse_corpus(s, p2) {
                Some((so, p3)) => if p3 == s.len() {
                    Some((executions, c, so))
                } else {
                    None
                },
                None => None,
            },
            None => None,
        },
        None => None,
    }
}

/// A saved image reads back as what was saved.
pub proof fn lemma_state_round_trip(executions: u64, corpus: CorpusModel, solutions: CorpusModel)
    requires
        corpus.wf(),
        solutions.wf(),
        corpus.next_id <= usize::MAX,
        solutions.next_id <= usize::MAX,
        corpus.ids.len() <= u64::MAX,
        solutions.ids.len() <= u64::MAX,
        inputs_fit(corpus.entry_views()),
        inputs_fit(solutions.entry_views()),
    ensures
        parse_state(enc_state(executions, corpus, solutions)) == Some(
            (executions, image_of(corpus), image_of(solutions)),
        ),
{
    let s = enc_state(executions, corpus, solutions);
    let a = le_word(executions);
    let b = enc_corpus(corpus);
    let c = enc_corpus(solutions);
    assert(s.subrange(0, s.len() as int) =~= s);
    lemma_split(s, 0, a + b, c);
    lemma_split(s, 0, a, b);
    lemma_word(s, 0, executions);
    lemma_corpus(s, 8, corpus);
    lemma_corpus(s, 8 + b.len() as int, solutions);
}

/// The parts of an image form a well-formed corpus.
pub open spec fn image_wf(img: CorpusImage) -> bool {
    &&& img.ids.len() == img.testcases.len()
    &&& forall|a: int, b: int| 0 <= a < b < img.ids.len() ==> img.ids[a] < img.ids[b]
    &&& forall|a: int| 0 <= a < img.ids.len() ==> img.ids[a] < img.next_id
}

pub(crate) fn put_word(out: &mut Vec<u8>, v: u64)
    ensures
        final(out)@ == old(out)@ + le_word(v),
{
    out.push((v & 0xff) as u8);
    out.push(((v >> 8u64) & 0xff) as u8);
    out.push(((v >> 16u64) & 0xff) as u8);
    out.push(((v >> 24u64) & 0xff) as u8);
    out.push(((v >> 32u64) & 0xff) as u8);
    out.push(((v >> 40u64) & 0xff) as u8);
    out.push(((v >> 48u64) & 0xff) as u8);
    out.push(((v >> 56u64) & 0xff) as u8);
    assert(out@ =~= old(out)@ + le_word(v));
}

pub(crate) fn put_opt(out: &mut Vec<u8>, o: Option<u64>)
    ensures
        final(out)@ == old(out)@ + enc_opt(o),
{
    match o {
        None => put_word(out, 0),
        Some(v) => {
            put_word(out, 1);
            put_word(out, v);
            assert(out@ =~= old(out)@ + enc_opt(o));
        },
    }
}

pub(crate) fn put_bytes(out: &mut Vec<u8>, b: &Vec<u8>)
    ensures
        final(out)@ == old(out)@ + enc_bytes(b@),
        b@.len() <= u64::MAX,
{
    let n = b.len();
    put_word(out, n as u64);
    let ghost start = out@;
    let mut i: usize = 0;
    while i < n
        invariant
            n == b@.len(),
            i <= n,
            out@ == start + b@.subrange(0, i as int),
        decreases n - i,
    {
        out.push(b[i]);
        assert(b@.subrange(0, i as int + 1) =~= b@.subrange(0, i as int).push(b@[i as int]));
        assert(out@ =~= start + b@.subrange(0, i as int + 1));
        i = i + 1;
    }
    assert(b@.subrange(0, n as int) =~= b@);
    assert(out@ =~= old(out)@ + enc_bytes(b@));
}

fn id_code(o: Option<CorpusId>) -> (r: Option<u64>)
    ensures
        r == opt_id_code(o),
{
    match o {
        Some(id) => Some(id.0 as u64),
        None => None,
    }
}

#[verifier::rlimit(40)]
fn put_testcase(out: &mut Vec<u8>, t: &Testcase)
    ensures
        final(out)@ == old(out)@ + enc_testcase(t@),
        t@.input.len() <= u64::MAX,
{
    reveal(enc_testcase);
    put_bytes(out, &t.input);
    put_word(out, t.executions);
    put_opt(out, id_code(t.parent_id));
    let cause: Option<u64> = match t.crash_cause {
        Some(ExitKind::Normal) => Some(0),
        Some(ExitKind::Crash) => Some(1),
        Some(ExitKind::Oom) => Some(2),
        Some(ExitKind::Timeout) => Some(3),
        None => None,
    };
    put_opt(out, cause);
    put_opt(out, t.exec_time_nanos);
    put_word(out, t.depth);
    let slot: Option<u64> = match t.n_fuzz_entry {
        Some(v) => Some(v as u64),
        None => None,
    };
    put_opt(out, slot);
    assert(out@ =~= old(out)@ + enc_testcase(t@));
}

fn put_corpus(out: &mut Vec<u8>, c: &Corpus)
    requires
        c.wf(),
    ensures
        final(out)@ == old(out)@ + enc_corpus(c@),
        inputs_fit(c@.entry_views()),
{
    reveal(enc_corpus);
    proof {
        c.lemma_wf();
    }
    put_word(out, c.next_id() as u64);
    put_opt(out, id_code(c.current()));
    let n = c.count();
    put_word(out, n as u64);
    let ghost start = out@;
    let ghost ids = c@.ids;
    let ghost ts = c@.entry_views();
    let mut k: usize = 0;
    while k < n
        invariant
            c.wf(),
            n == c@.ids.len(),
            ids == c@.ids,
            ts == c@.entry_views(),
            ts.len() == n,
            k <= n,
            out@ == start + enc_entries(ids, ts, k as nat),
            forall|i: int| 0 <= i < k ==> #[trigger] ts[i].input.len() <= u64::MAX,
        decreases n - k,
    {
        let (id, t) = c.entry_at(k);
        put_word(out, id.0 as u64);
        put_testcase(out, t);
        assert(ts[k as int] == t@);
        assert(out@ =~= start + enc_entries(ids, ts, (k + 1) as nat));
        k = k + 1;
    }
    assert(out@ =~= old(out)@ + enc_corpus(c@));
}

/// The image a restarting worker saves: executions, corpus, solutions. Every
/// input's length fits in a word, as the image needs.
pub fn save_state(state: &FuzzerState) -> (r: Vec<u8>)
    requires
        state.wf(),
    ensures
        r@ == enc_state(state.executions, state.corpus@, state.solutions@),
        inputs_fit(state.corpus@.entry_views()),
        inputs_fit(state.solutions@.entry_views()),
{
    let mut out: Vec<u8> = Vec::new();
    put_word(&mut out, state.executions);
    put_corpus(&mut out, &state.corpus);
    put_corpus(&mut out, &state.solutions);
    assert(out@ =~= enc_state(state.executions, state.corpus@, state.solutions@));
    out
}

pub(crate) fn read_word(buf: &[u8], pos: usize) -> (r: Option<(u64, usize)>)
    ensures
        r.is_some() == parse_word(buf@, pos as int).is_some(),
        r.is_some() ==> r.unwrap().0 == parse_word(buf@, pos as int).unwrap().0 && r.unwrap().1
            == parse_word(buf@, pos as int).unwrap().1,
{
    if pos > buf.len() || buf.len() - pos < 8 {
        return None;
    }
    let v = (buf[pos] as u64) | ((buf[pos + 1] as u64) << 8u64) | ((buf[pos + 2] as u64) << 16u64) | ((buf[pos
        + 3] as u64) << 24u64) | ((buf[pos + 4] as u64) << 32u64) | ((buf[pos + 5] as u64) << 40u64) | ((buf[pos
        + 6] as u64) << 48u64) | ((buf[pos + 7] as u64) << 56u64);
    Some((v, pos + 8))
}

pub(crate) fn read_opt(buf: &[u8], pos: usize) -> (r: Option<(Option<u64>, usize)>)
    ensures
        r.is_some() == parse_opt(buf@, pos as int).is_some(),
        r.is_some() ==> r.unwrap().0 == parse_opt(buf@, pos as int).unwrap().0 && r.unwrap().1
            == parse_opt(buf@, pos as int).unwrap().1,
{
    match read_word(buf, pos) {
        Some((0, p)) => Some((None, p)),
        Some((1, p)) => match read_word(buf, p) {
            Some((v, p2)) => Some((Some(v), p2)),
            None => None,
        },
        _ => None,
    }
}

pub(crate) fn read_bytes(buf: &[u8], pos: usize) -> (r: Option<(Vec<u8>, usize)>)
    ensures
        r.is_some() == parse_bytes(buf@, pos as int).is_some(),
        r.is_some() ==> r.unwrap().0@ == parse_bytes(buf@, pos as int).unwrap().0 && r.unwrap().1
            == parse_bytes(buf@, pos as int).unwrap().1,
{
    let (n, p) = read_word(buf, pos)?;
    if n > (buf.len() - p) as u64 {
        return None;
    }
    let end = p + n as usize;
    let mut out: Vec<u8> = Vec::new();
    let mut i: usize = p;
    while i < end
        invariant
            p <= i <= end,
            end <= buf@.len(),
            out@ == buf@.subrange(p as int, i as int),
        decreases end - i,
    {
        out.push(buf[i]);
        assert(out@ =~= buf@.subrange(p as int, i as int + 1));
        i = i + 1;
    }
    Some((out, end))
}

fn usize_from(v: u64) -> (r: Option<usize>)
    ensures
        r == usize_of(v),
{
    if v <= usize::MAX as u64 {
        Some(v as usize)
    } else {
        None
    }
}

fn read_testcase(buf: &[u8], pos: usize) -> (r: Option<(Testcase, usize)>)
    ensures
        r.is_some() == parse_testcase(buf@, pos as int).is_some(),
        r.is_some() ==> r.unwrap().0@ == parse_testcase(buf@, pos as int).unwrap().0 && r.unwrap().1
            == parse_testcase(buf@, pos as int).unwrap().1,
{
    reveal(parse_testcase);
    let (input, p1) = read_bytes(buf, pos)?;
    let (executions, p2) = read_word(buf, p1)?;
    let (parent, p3) = read_opt(buf, p2)?;
    let (cause, p4) = read_opt(buf, p3)?;
    let (time, p5) = read_opt(buf, p4)?;
    let (depth, p6) = read_word(buf, p5)?;
    let (slot, p7) = read_opt(buf, p6)?;
    let parent_id = match parent {
        None => None,
        Some(v) => Some(CorpusId(usize_from(v)?)),
    };
    let crash_cause = match cause {
        None => None,
        Some(0) => Some(ExitKind::Normal),
        Some(1) => Some(ExitKind::Crash),
        Some(2) => Some(ExitKind::Oom),
        Some(3) => Some(ExitKind::Timeout),
        Some(_) => return None,
    };
    let n_fuzz_entry = match slot {
        None => None,
        Some(v) => Some(usize_from(v)?),
    };
    Some((Testcase { input, executions, parent_id, crash_cause, exec_time_nanos: time, depth, n_fuzz_entry }, p7))
}

proof fn lemma_entries_fail(s: Seq<u8>, p: int, k: nat, n: nat)
    requires
        k <= n,
        parse_entries(s, p, k).is_none(),
    ensures
        parse_entries(s, p, n).is_none(),
    decreases n - k,
{
    if k < n {
        lemma_entries_fail(s, p, k + 1, n);
    }
}

fn read_corpus(buf: &[u8], pos: usize) -> (r: Option<(Corpus, usize)>)
    ensures
        r.is_some() <==> parse_corpus(buf@, pos as int).is_some() && image_wf(parse_corpus(buf@, pos as int).unwrap().0),
        r.is_some() ==> r.unwrap().0.wf() && image_of(r.unwrap().0@) == parse_corpus(buf@, pos as int).unwrap().0
            && r.unwrap().1 == parse_corpus(buf@, pos as int).unwrap().1,
{
    reveal(parse_corpus);
    let (next, p1) = read_word(buf, pos)?;
    let next_id = usize_from(next)?;
    let (cur, p2) = read_opt(buf, p1)?;
    let current = match cur {
        None => None,
        Some(v) => Some(CorpusId(usize_from(v)?)),
    };
    let (count, p3) = read_word(buf, p2)?;
    assert(parse_word(buf@, pos as int) == Some((next, p1 as int)));
    assert(parse_opt(buf@, p1 as int) == Some((cur, p2 as int)));
    assert(parse_word(buf@, p2 as int) == Some((count, p3 as int)));
    assert(opt_id_of(cur) == Some(current));
    let mut ids: Vec<usize> = Vec::new();
    let mut tcs: Vec<Testcase> = Vec::new();
    let mut p = p3;
    let mut k: u64 = 0;
    while k < count
        invariant
            k <= count,
            parse_entries(buf@, p3 as int, k as nat) == Some((ids@, tcs@.map_values(|t: Testcase| t@), p as int)),
            parse_word(buf@, pos as int) == Some((next, p1 as int)),
            usize_of(next) == Some(next_id),
            parse_opt(buf@, p1 as int) == Some((cur, p2 as int)),
            opt_id_of(cur) == Some(current),
            parse_word(buf@, p2 as int) == Some((count, p3 as int)),
        decreases count - k,
    {
        let (id, q1) = match read_word(buf, p) {
            Some(x) => x,
            None => {
                proof {
                    lemma_entries_fail(buf@, p3 as int, (k + 1) as nat, count as nat);
                    reveal(parse_corpus);
                }
                return None;
            },
        };
        let u = match usize_from(id) {
            Some(x) => x,
            None => {
                proof {
                    lemma_entries_fail(buf@, p3 as int, (k + 1) as nat, count as nat);
                    reveal(parse_corpus);
                }
                return None;
            },
        };
        let (t, q2) = match read_testcase(buf, q1) {
            Some(x) => x,
            None => {
                proof {
                    lemma_entries_fail(buf@, p3 as int, (k + 1) as nat, count as nat);
                    reveal(parse_corpus);
                }
                return None;
            },
        };
        let ghost before = tcs@;
        ids.push(u);
        tcs.push(t);
        assert(tcs@.map_values(|t: Testcase| t@) =~= before.map_values(|t: Testcase| t@).push(t@));
        p = q2;
        k = k + 1;
    }
    let c = Corpus::from_parts(ids, tcs, next_id, current)?;
    proof {
        c.lemma_wf();
        assert(image_of(c@) == parse_corpus(buf@, pos as int).unwrap().0);
    }
    Some((c, p))
}

/// Loads an image saved by `save_state` into a fresh state with the given max
/// size. A malformed image (cut short, a bad tag, trailing bytes, or entries
/// that do not form a well-formed corpus) is a `Serialize` error.
pub fn load_state(buf: &[u8], max_size: usize) -> (r: Result<FuzzerState, Error>)
    ensures
        r.is_ok() <==> parse_state(buf@).is_some() && image_wf(parse_state(buf@).unwrap().1) && image_wf(
            parse_state(buf@).unwrap().2,
        ),
        r.is_err() ==> r == Err::<FuzzerState, Error>(Error::Serialize),
        r.is_ok() ==> {
            let st = r.unwrap();
            let (executions, c, so) = parse_state(buf@).unwrap();
            &&& st.wf()
            &&& st.executions == executions
            &&& image_of(st.corpus@) == c
            &&& image_of(st.solutions@) == so
            &&& st.max_size == max_size
            &&& st.scheduler_metadata.is_none()
            &&& !st.stop_requested
        },
{
    let (executions, p1) = match read_word(buf, 0) {
        Some(x) => x,
        None => return Err(Error::Serialize),
    };
    let (corpus, p2) = match read_corpus(buf, p1) {
        Some(x) => x,
        None => return Err(Error::Serialize),
    };
    let (solutions, p3) = match read_corpus(buf, p2) {
        Some(x) => x,
        None => return Err(Error::Serialize),
    };
    if p3 != buf.len() {
        return Err(Error::Serialize);
    }
    Ok(FuzzerState { corpus, solutions, executions, max_size, scheduler_metadata: None, stop_requested: false })
}

/// Restart preserves state: the image that a worker saves loads back, in its
/// respawned successor, with the same executions counter, the same entries
/// under the same ids in both stores, and the same id counters, so the counts
/// are what they were and no id is handed out twice.
pub proof fn lemma_restart_preserves_state(state: FuzzerState)
    requires
        state.wf(),
        inputs_fit(state.corpus@.entry_views()),
        inputs_fit(state.solutions@.entry_views()),
    ensures
        parse_state(enc_state(state.executions, state.corpus@, state.solutions@)) == Some(
            (state.executions, image_of(state.corpus@), image_of(state.solutions@)),
        ),
        image_wf(image_of(state.corpus@)),
        image_wf(image_of(state.solutions@)),
{
    state.corpus.lemma_wf();
    state.solutions.lemma_wf();
    lemma_state_round_trip(state.executions, state.corpus@, state.solutions@);
}

} // verus!
