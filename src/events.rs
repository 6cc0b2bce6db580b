//! Messages between workers and the broker, as length-prefixed frames.
use vstd::prelude::*;

use crate::digest::fixed_seed_hash;
use crate::corpus::CorpusId;
use crate::error::{Error, ExitKind};
use crate::feedback::Observation;
use crate::fuzzer::FuzzerState;
use crate::restart::{
    enc_bytes, holds_at, kind_code, kind_of_code, le_word, lemma_bytes, lemma_split, lemma_word, parse_bytes,
    parse_word, put_bytes, put_word, read_bytes, read_word,
};

verus! {

/// A message on the event bus.
#[derive(Clone, Debug)]
pub enum Event {
    /// A worker found an input worth keeping.
    NewTestcase {
        input: Vec<u8>,
        /// What the worker's observers saw, serialized.
        observers: Vec<u8>,
        exit_kind: ExitKind,
        corpus_size: u64,
        executions: u64,
        /// The configuration tag of the sender.
        config: u64,
        /// The node the input was found on.
        origin_node: u64,
    },
    /// A worker found a solution.
    Solution { input: Vec<u8>, cause: ExitKind },
    /// Progress numbers of a worker.
    Stats { executions: u64, corpus_size: u64, solutions: u64, last_exec_time_nanos: u64 },
    /// A log line.
    Log { severity: u64, text: Vec<u8> },
    /// I am alive.
    Heartbeat,
}

/// An event with its byte fields seen as sequences.
pub enum EventView {
    NewTestcase {
        input: Seq<u8>,
        observers: Seq<u8>,
        exit_kind: ExitKind,
        corpus_size: u64,
        executions: u64,
        config: u64,
        origin_node: u64,
    },
    Solution { input: Seq<u8>, cause: ExitKind },
    Stats { executions: u64, corpus_size: u64, solutions: u64, last_exec_time_nanos: u64 },
    Log { severity: u64, text: Seq<u8> },
    Heartbeat,
}

impl View for Event {
    type V = EventView;

    open spec fn view(&self) -> EventView {
        match self {
            Event::NewTestcase { input, observers, exit_kind, corpus_size, executions, config, origin_node } => {
                EventView::NewTestcase {
                    input: input@,
                    observers: observers@,
                    exit_kind: *exit_kind,
                    corpus_size: *corpus_size,
                    executions: *executions,
                    config: *config,
                    origin_node: *origin_node,
                }
            },
            Event::Solution { input, cause } => EventView::Solution { input: input@, cause: *cause },
            Event::Stats { executions, corpus_size, solutions, last_exec_time_nanos } => EventView::Stats {
                executions: *executions,
                corpus_size: *corpus_size,
                solutions: *solutions,
                last_exec_time_nanos: *last_exec_time_nanos,
            },
            Event::Log { severity, text } => EventView::Log { severity: *severity, text: text@ },
            Event::Heartbeat => EventView::Heartbeat,
        }
    }
}

/// An event's bytes: a tag word (0 to 4), then its fields in order; byte
/// fields as length and bytes, exit kinds as their code.
#[verifier::opaque]
pub open spec fn enc_event(e: EventView) -> Seq<u8> {
    match e {
        EventView::NewTestcase { input, observers, exit_kind, corpus_size, executions, config, origin_node } => {
            le_word(0) + enc_bytes(input) + enc_bytes(observers) + le_word(kind_code(exit_kind)) + le_word(
                corpus_size,
            ) + le_word(executions) + le_word(config) + le_word(origin_node)
        },
        EventView::Solution { input, cause } => le_word(1) + enc_bytes(input) + le_word(kind_code(cause)),
        EventView::Stats { executions, corpus_size, solutions, last_exec_time_nanos } => le_word(2) + le_word(
            executions,
        ) + le_word(corpus_size) + le_word(solutions) + le_word(last_exec_time_nanos),
        EventView::Log { severity, text } => le_word(3) + le_word(severity) + enc_bytes(text),
        EventView::Heartbeat => le_word(4),
    }
}

/// Reads an event at `pos`; the position after it.
#[verifier::opaque]
pub open spec fn parse_event(s: Seq<u8>, pos: int) -> Option<(EventView, int)> {
    match parse_word(s, pos) {
        Some((0, p)) => match parse_bytes(s, p) {
            Some((input, p1)) => match parse_bytes(s, p1) {
                Some((observers, p2)) => match parse_word(s, p2) {
                    Some((k, p3)) => match (kind_of_code(k), parse_word(s, p3)) {
                        (Some(exit_kind), Some((corpus_size, p4))) => match parse_word(s, p4) {
                            Some((executions, p5)) => match parse_word(s, p5) {
                                Some((config, p6)) => match parse_word(s, p6) {
                                    Some((origin_node, p7)) => Some((
                                        EventView::NewTestcase {
                                            input,
                                            observers,
                                            exit_kind,
                                            corpus_size,
                                            executions,
                                            config,
                                            origin_node,
                                        },
                                        p7,
                                    )),
                                    None => None,
                                },
                                None => None,
                            },
                            None => None,
                        },
                        _ => None,
                    },
                    None => None,
                },
                None => None,
            },
            None => None,
        },
        Some((1, p)) => match parse_bytes(s, p) {
            Some((input, p1)) => match parse_word(s, p1) {
                Some((k, p2)) => match kind_of_code(k) {
                    Some(cause) => Some((EventView::Solution { input, cause }, p2)),
                    None => None,
                },
                None => None,
            },
            None => None,
        },
        Some((2, p)) => match parse_word(s, p) {
            Some((executions, p1)) => match parse_word(s, p1) {
                Some((corpus_size, p2)) => match parse_word(s, p2) {
                    Some((solutions, p3)) => match parse_word(s, p3) {
                        Some((last_exec_time_nanos, p4)) => Some((
                            EventView::Stats { executions, corpus_size, solutions, last_exec_time_nanos },
                            p4,
                        )),
                        None => None,
                    },
                    None => None,
                },
                None => None,
            },
            None => None,
        },
        Some((3, p)) => match parse_word(s, p) {
            Some((severity, p1)) => match parse_bytes(s, p1) {
                Some((text, p2)) => Some((EventView::Log { severity, text }, p2)),
                None => None,
            },
            None => None,
        },
        Some((4, p)) => Some((EventView::Heartbeat, p)),
        _ => None,
    }
}

/// Every byte field of `e` has a length that fits in a word.
pub open spec fn event_fits(e: EventView) -> bool {
    match e {
        EventView::NewTestcase { input, observers, .. } => input.len() <= u64::MAX && observers.len() <= u64::MAX,
        EventView::Solution { input, .. } => input.len() <= u64::MAX,
        EventView::Log { text, .. } => text.len() <= u64::MAX,
        _ => true,
    }
}

proof fn lemma_kind(k: ExitKind)
    ensures
        kind_of_code(kind_code(k)) == Some(k),
{
}

/// An event reads back as itself from wherever its bytes stand.
pub proof fn lemma_event_at(s: Seq<u8>, p: int, e: EventView)
    requires
        event_fits(e),
        holds_at(s, p, enc_event(e)),
    ensures
        parse_event(s, p) == Some((e, p + enc_event(e).len())),
{
    match e {
        EventView::NewTestcase { .. } => lemma_new_testcase_at(s, p, e),
        EventView::Solution { .. } => lemma_solution_at(s, p, e),
        EventView::Stats { .. } => lemma_stats_at(s, p, e),
        EventView::Log { .. } => lemma_log_at(s, p, e),
        EventView::Heartbeat => {
            reveal(enc_event);
            reveal(parse_event);
            lemma_word(s, p, 4);
        },
    }
}

#[verifier::rlimit(60)]
proof fn lemma_new_testcase_at(s: Seq<u8>, p: int, e: EventView)
    requires
        e is NewTestcase,
        event_fits(e),
        holds_at(s, p, enc_event(e)),
    ensures
        parse_event(s, p) == Some((e, p + enc_event(e).len())),
{
    reveal(enc_event);
    reveal(parse_event);
    match e {
        EventView::NewTestcase { input, observers, exit_kind, corpus_size, executions, config, origin_node } => {
            let a = le_word(0);
            let b = enc_bytes(input);
            let c = enc_bytes(observers);
            let d = le_word(kind_code(exit_kind));
            let f = le_word(corpus_size);
            let g = le_word(executions);
            let h = le_word(config);
            let i = le_word(origin_node);
            lemma_split(s, p, a + b + c + d + f + g + h, i);
            lemma_split(s, p, a + b + c + d + f + g, h);
            lemma_split(s, p, a + b + c + d + f, g);
            lemma_split(s, p, a + b + c + d, f);
            lemma_split(s, p, a + b + c, d);
            lemma_split(s, p, a + b, c);
            lemma_split(s, p, a, b);
            let p1 = p + 8;
            let p2 = p1 + b.len();
            let p3 = p2 + c.len();
            lemma_word(s, p, 0);
            lemma_bytes(s, p1, input);
            lemma_bytes(s, p2, observers);
            lemma_word(s, p3, kind_code(exit_kind));
            lemma_word(s, p3 + 8, corpus_size);
            lemma_word(s, p3 + 16, executions);
            lemma_word(s, p3 + 24, config);
            lemma_word(s, p3 + 32, origin_node);
            lemma_kind(exit_kind);
        },
        _ => {},
    }
}

#[verifier::rlimit(60)]
proof fn lemma_solution_at(s: Seq<u8>, p: int, e: EventView)
    requires
        e is Solution,
        event_fits(e),
        holds_at(s, p, enc_event(e)),
    ensures
        parse_event(s, p) == Some((e, p + enc_event(e).len())),
{
    reveal(enc_event);
    reveal(parse_event);
    match e {
        EventView::Solution { input, cause } => {
            let a = le_word(1);
            let b = enc_bytes(input);
            let c = le_word(kind_code(cause));
            lemma_split(s, p, a + b, c);
            lemma_split(s, p, a, b);
            lemma_word(s, p, 1);
            lemma_bytes(s, p + 8, input);
            lemma_word(s, p + 8 + b.len(), kind_code(cause));
            lemma_kind(cause);
        },
        _ => {},
    }
}

#[verifier::rlimit(60)]
proof fn lemma_stats_at(s: Seq<u8>, p: int, e: EventView)
    requires
        e is Stats,
        event_fits(e),
        holds_at(s, p, enc_event(e)),
    ensures
        parse_event(s, p) == Some((e, p + enc_event(e).len())),
{
    reveal(enc_event);
    reveal(parse_event);
    match e {
        EventView::Stats { executions, corpus_size, solutions, last_exec_time_nanos } => {
            let a = le_word(2);
            let b = le_word(executions);
            let c = le_word(corpus_size);
            let d = le_word(solutions);
            let f = le_word(last_exec_time_nanos);
            lemma_split(s, p, a + b + c + d, f);
            lemma_split(s, p, a + b + c, d);
            lemma_split(s, p, a + b, c);
            lemma_split(s, p, a, b);
            lemma_word(s, p, 2);
            lemma_word(s, p + 8, executions);
            lemma_word(s, p + 16, corpus_size);
            lemma_word(s, p + 24, solutions);
            lemma_word(s, p + 32, last_exec_time_nanos);
        },
        _ => {},
    }
}

#[verifier::rlimit(60)]
proof fn lemma_log_at(s: Seq<u8>, p: int, e: EventView)
    requires
        e is Log,
        event_fits(e),
        holds_at(s, p, enc_event(e)),
    ensures
        parse_event(s, p) == Some((e, p + enc_event(e).len())),
{
    reveal(enc_event);
    reveal(parse_event);
    match e {
        EventView::Log { severity, text } => {
            let a = le_word(3);
            let b = le_word(severity);
            let c = enc_bytes(text);
            lemma_split(s, p, a + b, c);
            lemma_split(s, p, a, b);
            lemma_word(s, p, 3);
            lemma_word(s, p + 8, severity);
            lemma_bytes(s, p + 16, text);
        },
        _ => {},
    }
}

/// Events survive the wire: decoding the frame of an encoded event gives the
/// event back, and the frame ends where the next one starts.
pub proof fn lemma_event_round_trip(e: EventView, rest: Seq<u8>)
    requires
        event_fits(e),
        enc_event(e).len() <= u64::MAX,
    ensures
        parse_event(enc_event(e), 0) == Some((e, enc_event(e).len() as int)),
        parse_bytes(enc_bytes(enc_event(e)) + rest, 0) == Some((enc_event(e), enc_bytes(enc_event(e)).len() as int)),
{
    let s = enc_event(e);
    assert(s.subrange(0, s.len() as int) =~= s);
    lemma_event_at(s, 0, e);
    let f = enc_bytes(s) + rest;
    assert(f.subrange(0, enc_bytes(s).len() as int) =~= enc_bytes(s));
    lemma_bytes(f, 0, s);
}

fn put_kind(out: &mut Vec<u8>, k: ExitKind)
    ensures
        final(out)@ == old(out)@ + le_word(kind_code(k)),
{
    let c: u64 = match k {
        ExitKind::Normal => 0,
        ExitKind::Crash => 1,
        ExitKind::Oom => 2,
        ExitKind::Timeout => 3,
    };
    put_word(out, c);
}

/// The bytes of an event.
pub fn encode_event(e: &Event) -> (r: Vec<u8>)
    ensures
        r@ == enc_event(e@),
        event_fits(e@),
{
    reveal(enc_event);
    let mut out: Vec<u8> = Vec::new();
    match e {
        Event::NewTestcase { input, observers, exit_kind, corpus_size, executions, config, origin_node } => {
            put_word(&mut out, 0);
            put_bytes(&mut out, input);
            put_bytes(&mut out, observers);
            put_kind(&mut out, *exit_kind);
            put_word(&mut out, *corpus_size);
            put_word(&mut out, *executions);
            put_word(&mut out, *config);
            put_word(&mut out, *origin_node);
        },
        Event::Solution { input, cause } => {
            put_word(&mut out, 1);
            put_bytes(&mut out, input);
            put_kind(&mut out, *cause);
        },
        Event::Stats { executions, corpus_size, solutions, last_exec_time_nanos } => {
            put_word(&mut out, 2);
            put_word(&mut out, *executions);
            put_word(&mut out, *corpus_size);
            put_word(&mut out, *solutions);
            put_word(&mut out, *last_exec_time_nanos);
        },
        Event::Log { severity, text } => {
            put_word(&mut out, 3);
            put_word(&mut out, *severity);
            put_bytes(&mut out, text);
        },
        Event::Heartbeat => {
            put_word(&mut out, 4);
        },
    }
    assert(out@ =~= enc_event(e@));
    out
}

fn kind_from(c: u64) -> (r: Option<ExitKind>)
    ensures
        r == kind_of_code(c),
{
    if c == 0 {
        Some(ExitKind::Normal)
    } else if c == 1 {
        Some(ExitKind::Crash)
    } else if c == 2 {
        Some(ExitKind::Oom)
    } else if c == 3 {
        Some(ExitKind::Timeout)
    } else {
        None
    }
}

fn read_event(buf: &[u8], pos: usize) -> (r: Option<(Event, usize)>)
    ensures
        r.is_some() == parse_event(buf@, pos as int).is_some(),
        r.is_some() ==> r.unwrap().0@ == parse_event(buf@, pos as int).unwrap().0 && r.unwrap().1
            == parse_event(buf@, pos as int).unwrap().1,
{
    reveal(parse_event);
    let (tag, p) = read_word(buf, pos)?;
    if tag == 0 {
        let (input, p1) = read_bytes(buf, p)?;
        let (observers, p2) = read_bytes(buf, p1)?;
        let (k, p3) = read_word(buf, p2)?;
        let exit_kind = kind_from(k)?;
        let (corpus_size, p4) = read_word(buf, p3)?;
        let (executions, p5) = read_word(buf, p4)?;
        let (config, p6) = read_word(buf, p5)?;
        let (origin_node, p7) = read_word(buf, p6)?;
        Some((Event::NewTestcase { input, observers, exit_kind, corpus_size, executions, config, origin_node }, p7))
    } else if tag == 1 {
        let (input, p1) = read_bytes(buf, p)?;
        let (k, p2) = read_word(buf, p1)?;
        let cause = kind_from(k)?;
        Some((Event::Solution { input, cause }, p2))
    } else if tag == 2 {
        let (executions, p1) = read_word(buf, p)?;
        let (corpus_size, p2) = read_word(buf, p1)?;
        let (solutions, p3) = read_word(buf, p2)?;
        let (last_exec_time_nanos, p4) = read_word(buf, p3)?;
        Some((Event::Stats { executions, corpus_size, solutions, last_exec_time_nanos }, p4))
    } else if tag == 3 {
        let (severity, p1) = read_word(buf, p)?;
        let (text, p2) = read_bytes(buf, p1)?;
        Some((Event::Log { severity, text }, p2))
    } else if tag == 4 {
        Some((Event::Heartbeat, p))
    } else {
        None
    }
}

/// Decodes the bytes of exactly one event; anything else is a `Serialize` error.
pub fn decode_event(bytes: &[u8]) -> (r: Result<Event, Error>)
    ensures
        r.is_ok() <==> parse_event(bytes@, 0).is_some() && parse_event(bytes@, 0).unwrap().1 == bytes@.len(),
        r.is_ok() ==> r.unwrap()@ == parse_event(bytes@, 0).unwrap().0,
        r.is_err() ==> r == Err::<Event, Error>(Error::Serialize),
{
    match read_event(bytes, 0) {
        Some((e, end)) => if end == bytes.len() {
            Ok(e)
        } else {
            Err(Error::Serialize)
        },
        None => Err(Error::Serialize),
    }
}

/// Wraps a payload in a frame: its length, then its bytes.
pub fn frame(payload: &Vec<u8>) -> (r: Vec<u8>)
    ensures
        r@ == enc_bytes(payload@),
{
    let mut out: Vec<u8> = Vec::new();
    put_bytes(&mut out, payload);
    assert(out@ =~= enc_bytes(payload@));
    out
}

/// The payload of the frame at `pos` of a stream, and where the next frame
/// starts; `None` when the stream ends inside the frame.
pub fn next_frame(stream: &[u8], pos: usize) -> (r: Option<(Vec<u8>, usize)>)
    ensures
        r.is_some() == parse_bytes(stream@, pos as int).is_some(),
        r.is_some() ==> r.unwrap().0@ == parse_bytes(stream@, pos as int).unwrap().0 && r.unwrap().1
            == parse_bytes(stream@, pos as int).unwrap().1,
{
    read_bytes(stream, pos)
}

/// The configuration tag of a worker. Workers with the same tag share testcases.
#[derive(Clone, Copy, Debug, PartialEq, Eq, Structural)]
pub struct EventConfig {
    pub name_hash: u64,
}

impl EventConfig {
    /// The tag of a configuration name (a fixed-key digest of its bytes).
    pub fn from_name(name: &str) -> (r: EventConfig) {
        EventConfig { name_hash: fixed_seed_hash(name.as_bytes()) }
    }

    /// Whether two tags are the same.
    pub fn match_with(&self, other: &EventConfig) -> (r: bool)
        ensures
            r == (self.name_hash == other.name_hash),
    {
        self.name_hash == other.name_hash
    }
}

/// Whether a received event goes through this worker's evaluation: only a new
/// testcase from a worker with the same configuration tag does.
pub fn should_evaluate(own: &EventConfig, e: &Event) -> (r: bool)
    ensures
        r == match e@ {
            EventView::NewTestcase { config, .. } => config == own.name_hash,
            _ => false,
        },
{
    match e {
        Event::NewTestcase { config, .. } => *config == own.name_hash,
        _ => false,
    }
}

/// The event that announces the outcome of an evaluation (as
/// `evaluate_execution` returns it): a solution for a solution, a new
/// testcase (with this worker's tag and node, the observed map, the corpus
/// size and the executions counter) for a new corpus entry, nothing else.
pub fn outcome_event(
    outcome: (bool, Option<CorpusId>),
    input: &Vec<u8>,
    obs: &Observation,
    state: &FuzzerState,
    config: &EventConfig,
    node: u64,
) -> (r: Option<Event>)
    requires
        state.wf(),
    ensures
        outcome.0 ==> r.is_some() && r.unwrap()@ == (EventView::Solution { input: input@, cause: obs.exit_kind }),
        !outcome.0 && outcome.1.is_some() ==> r.is_some() && r.unwrap()@ == (EventView::NewTestcase {
            input: input@,
            observers: obs.map@,
            exit_kind: obs.exit_kind,
            corpus_size: state.corpus@.count() as u64,
            executions: state.executions,
            config: config.name_hash,
            origin_node: node,
        }),
        !outcome.0 && outcome.1.is_none() ==> r.is_none(),
{
    if outcome.0 {
        let bytes = input.clone();
        assert(bytes@ =~= input@);
        Some(Event::Solution { input: bytes, cause: obs.exit_kind })
    } else if outcome.1.is_some() {
        let bytes = input.clone();
        assert(bytes@ =~= input@);
        let map = obs.map.clone();
        assert(map@ =~= obs.map@);
        Some(Event::NewTestcase {
            input: bytes,
            observers: map,
            exit_kind: obs.exit_kind,
            corpus_size: state.corpus.count() as u64,
            executions: state.executions,
            config: config.name_hash,
            origin_node: node,
        })
    } else {
        None
    }
}

/// A link of a broker in the multi-machine tree.
#[derive(Clone, Copy, Debug, PartialEq, Eq, Structural)]
pub enum Link {
    /// The workers of this machine.
    Local,
    /// The parent broker.
    Parent,
    /// The child broker with this index.
    Child(usize),
}

/// Whether a broker forwards a testcase that came in over `from` on link
/// `l`: every link it has (the local workers, the parent if there is one,
/// each of its `children`) but the one the testcase came from.
pub open spec fn is_forward_target(from: Link, has_parent: bool, children: usize, l: Link) -> bool {
    &&& l != from
    &&& match l {
        Link::Local => true,
        Link::Parent => has_parent,
        Link::Child(c) => c < children,
    }
}

/// The links a testcase that came in over `from` goes out on, each once.
pub fn forward(from: Link, has_parent: bool, children: usize) -> (r: Vec<Link>)
    ensures
        forall|l: Link| #[trigger] r@.contains(l) <==> is_forward_target(from, has_parent, children, l),
        r@.no_duplicates(),
{
    let mut out: Vec<Link> = Vec::new();
    if from != Link::Local {
        out.push(Link::Local);
    }
    if has_parent && from != Link::Parent {
        out.push(Link::Parent);
    }
    proof {
        assert forall|l: Link| #[trigger] out@.contains(l) <==> (is_forward_target(from, has_parent, children, l)
            && match l {
            Link::Child(c) => c < 0,
            _ => true,
        }) by {
            if out@.contains(l) {
                let k = choose|k: int| 0 <= k < out@.len() && out@[k] == l;
                assert(l == Link::Local || l == Link::Parent);
            }
            if l == Link::Local && from != Link::Local {
                assert(out@[0] == l);
            }
            if l == Link::Parent && has_parent && from != Link::Parent {
                assert(out@[out@.len() - 1] == l);
            }
        }
    }
    let mut i: usize = 0;
    while i < children
        invariant
            i <= children,
            out@.no_duplicates(),
            forall|l: Link| #[trigger] out@.contains(l) <==> (is_forward_target(from, has_parent, children, l) && match l {
                Link::Child(c) => c < i,
                _ => true,
            }),
        decreases children - i,
    {
        if from != Link::Child(i) {
            let ghost before = out@;
            assert(!before.contains(Link::Child(i)));
            out.push(Link::Child(i));
            assert forall|a: int, b: int| 0 <= a < out@.len() && 0 <= b < out@.len() && a != b implies out@[a]
                != out@[b] by {
                if a == out@.len() - 1 && b < before.len() {
                    assert(before[b] == out@[b]);
                }
                if b == out@.len() - 1 && a < before.len() {
                    assert(before[a] == out@[a]);
                }
            }
            assert forall|l: Link| #[trigger] out@.contains(l) <==> (before.contains(l) || l == Link::Child(i)) by {
                if out@.contains(l) && l != Link::Child(i) {
                    let k = choose|k: int| 0 <= k < out@.len() && out@[k] == l;
                    assert(before[k] == l);
                }
                if before.contains(l) {
                    let k = choose|k: int| 0 <= k < before.len() && before[k] == l;
                    assert(out@[k] == l);
                }
                if l == Link::Child(i) {
                    assert(out@[out@.len() - 1] == l);
                }
            }
        }
        i = i + 1;
    }
    out
}

} // verus!
