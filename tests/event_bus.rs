use fuzzcore::error::{Error, ExitKind};
use fuzzcore::corpus::CorpusId;
use fuzzcore::feedback::Observation;
use fuzzcore::fuzzer::FuzzerState;
use fuzzcore::events::{decode_event, encode_event, forward, outcome_event, frame, next_frame, should_evaluate, Event, EventConfig, Link};

fn samples() -> Vec<Event> {
    vec![
        Event::NewTestcase {
            input: vec![1, 2, 3],
            observers: vec![9; 20],
            exit_kind: ExitKind::Normal,
            corpus_size: 4,
            executions: 1000,
            config: 77,
            origin_node: 2,
        },
        Event::Solution { input: vec![0xFF], cause: ExitKind::Timeout },
        Event::Stats { executions: 5, corpus_size: 6, solutions: 7, last_exec_time_nanos: 8 },
        Event::Log { severity: 2, text: b"hello".to_vec() },
        Event::Heartbeat,
    ]
}

fn same(a: &Event, b: &Event) -> bool {
    format!("{a:?}") == format!("{b:?}")
}

#[test]
fn events_round_trip_through_frames() {
    let mut stream: Vec<u8> = Vec::new();
    for e in samples() {
        stream.extend(frame(&encode_event(&e)));
    }
    let mut pos = 0;
    let mut back = Vec::new();
    while let Some((payload, next)) = next_frame(&stream, pos) {
        back.push(decode_event(&payload).unwrap());
        pos = next;
        if pos == stream.len() {
            break;
        }
    }
    assert_eq!(back.len(), 5);
    for (a, b) in samples().iter().zip(back.iter()) {
        assert!(same(a, b));
    }
}

#[test]
fn heartbeat_is_one_word() {
    assert_eq!(encode_event(&Event::Heartbeat), vec![4, 0, 0, 0, 0, 0, 0, 0]);
    assert_eq!(frame(&vec![0xAB]), vec![1, 0, 0, 0, 0, 0, 0, 0, 0xAB]);
}

#[test]
fn bad_event_bytes_are_rejected() {
    assert!(matches!(decode_event(&[]), Err(Error::Serialize)));
    assert!(matches!(decode_event(&[5, 0, 0, 0, 0, 0, 0, 0]), Err(Error::Serialize)));
    let mut hb = encode_event(&Event::Heartbeat);
    hb.push(0);
    assert!(matches!(decode_event(&hb), Err(Error::Serialize)));
    let sol = encode_event(&Event::Solution { input: vec![1], cause: ExitKind::Crash });
    assert!(matches!(decode_event(&sol[..sol.len() - 1]), Err(Error::Serialize)));
    let mut bad_kind = sol.clone();
    let n = bad_kind.len();
    bad_kind[n - 8] = 9;
    assert!(matches!(decode_event(&bad_kind), Err(Error::Serialize)));
}

#[test]
fn truncated_stream_has_no_next_frame() {
    let f = frame(&vec![1, 2, 3]);
    assert!(next_frame(&f[..f.len() - 1], 0).is_none());
    assert_eq!(next_frame(&f, 0), Some((vec![1, 2, 3], f.len())));
}

#[test]
fn workers_share_testcases_only_with_the_same_tag() {
    let a = EventConfig::from_name("default");
    let b = EventConfig::from_name("default");
    let c = EventConfig::from_name("other");
    assert!(a.match_with(&b));
    assert!(!a.match_with(&c));
    let tc = |config| Event::NewTestcase {
        input: vec![],
        observers: vec![],
        exit_kind: ExitKind::Normal,
        corpus_size: 0,
        executions: 0,
        config,
        origin_node: 0,
    };
    assert!(should_evaluate(&a, &tc(a.name_hash)));
    assert!(!should_evaluate(&a, &tc(c.name_hash)));
    assert!(!should_evaluate(&a, &Event::Heartbeat));
}

#[test]
fn brokers_forward_up_and_down_but_not_back() {
    assert_eq!(forward(Link::Local, true, 2), vec![Link::Parent, Link::Child(0), Link::Child(1)]);
    assert_eq!(forward(Link::Parent, true, 2), vec![Link::Local, Link::Child(0), Link::Child(1)]);
    assert_eq!(forward(Link::Child(1), true, 3), vec![Link::Local, Link::Parent, Link::Child(0), Link::Child(2)]);
    assert_eq!(forward(Link::Child(0), false, 1), vec![Link::Local]);
    assert_eq!(forward(Link::Local, false, 0), Vec::<Link>::new());
}

#[test]
fn outcomes_become_events() {
    let state = FuzzerState::new(8);
    let cfg = EventConfig { name_hash: 5 };
    let obs = Observation { exit_kind: ExitKind::Crash, map: vec![1, 0], exec_time_nanos: 3 };
    let e = outcome_event((true, None), &vec![7], &obs, &state, &cfg, 2).unwrap();
    assert!(same(&e, &Event::Solution { input: vec![7], cause: ExitKind::Crash }));
    let obs = Observation { exit_kind: ExitKind::Normal, map: vec![1, 0], exec_time_nanos: 3 };
    let e = outcome_event((false, Some(CorpusId(0))), &vec![7], &obs, &state, &cfg, 2).unwrap();
    assert!(same(
        &e,
        &Event::NewTestcase {
            input: vec![7],
            observers: vec![1, 0],
            exit_kind: ExitKind::Normal,
            corpus_size: 0,
            executions: 0,
            config: 5,
            origin_node: 2,
        }
    ));
    assert!(outcome_event((false, None), &vec![7], &obs, &state, &cfg, 2).is_none());
}
