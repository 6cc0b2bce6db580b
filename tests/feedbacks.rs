use fuzzcore::corpus::Testcase;
use fuzzcore::error::ExitKind;
use fuzzcore::feedback::{
    classify_counts, feedback_or, feedback_or_fast, CrashFeedback, Feedback, MaxMapFeedback, Observation,
    TimeFeedback, TimeoutFeedback,
};

fn obs(kind: ExitKind, map: &[u8]) -> Observation {
    Observation { exit_kind: kind, map: map.to_vec(), exec_time_nanos: 777 }
}

#[test]
fn max_map_novelty_is_monotone() {
    let mut f = MaxMapFeedback::new();
    let o = obs(ExitKind::Normal, &[0, 3, 0, 1]);
    assert!(f.is_interesting(&o));
    assert!(!f.is_interesting(&o));
    assert!(!f.is_interesting(&obs(ExitKind::Normal, &[0, 2, 0, 1])));
    assert!(f.is_interesting(&obs(ExitKind::Normal, &[0, 3, 1, 1])));
    assert_eq!(f.history, vec![0, 3, 1, 1]);
    assert!(f.is_interesting(&obs(ExitKind::Normal, &[0, 0, 0, 0, 5])));
    assert_eq!(f.history, vec![0, 3, 1, 1, 5]);
}

#[test]
fn empty_map_is_never_novel() {
    let mut f = MaxMapFeedback::new();
    assert!(!f.is_interesting(&obs(ExitKind::Normal, &[])));
    assert!(!f.is_interesting(&obs(ExitKind::Normal, &[0, 0])));
}

#[test]
fn crash_and_timeout_feedbacks_are_deterministic() {
    let mut c = CrashFeedback::new();
    let mut t = TimeoutFeedback::new();
    for _ in 0..3 {
        assert!(c.is_interesting(&obs(ExitKind::Crash, &[1])));
        assert!(!c.is_interesting(&obs(ExitKind::Timeout, &[1])));
        assert!(t.is_interesting(&obs(ExitKind::Timeout, &[1])));
        assert!(!t.is_interesting(&obs(ExitKind::Oom, &[1])));
    }
    assert_eq!(c.evaluations, 6);
    assert_eq!(c.hits, 3);
    assert_eq!(t.hits, 3);
}

#[test]
fn fast_or_stops_at_first_true_child() {
    let mut o = feedback_or_fast(CrashFeedback::new(), TimeoutFeedback::new());
    assert!(o.is_interesting(&obs(ExitKind::Crash, &[])));
    assert_eq!(o.first.evaluations, 1);
    assert_eq!(o.second.evaluations, 0);
    assert!(o.is_interesting(&obs(ExitKind::Timeout, &[])));
    assert_eq!(o.first.evaluations, 2);
    assert_eq!(o.first.hits, 1);
    assert_eq!(o.second.evaluations, 1);
    assert!(!o.is_interesting(&obs(ExitKind::Normal, &[])));
    assert_eq!(o.second.evaluations, 2);
}

#[test]
fn eager_or_asks_every_child() {
    let mut f = feedback_or(MaxMapFeedback::new(), TimeFeedback::new());
    assert!(f.is_interesting(&obs(ExitKind::Normal, &[1])));
    assert_eq!(f.first.history, vec![1]);
    let mut g = feedback_or(CrashFeedback::new(), MaxMapFeedback::new());
    assert!(g.is_interesting(&obs(ExitKind::Crash, &[4])));
    // the map feedback still learned the map although the first child said yes
    assert_eq!(g.second.history, vec![4]);
}

#[test]
fn time_feedback_only_adds_metadata() {
    let mut f = TimeFeedback::new();
    let o = obs(ExitKind::Normal, &[9]);
    assert!(!f.is_interesting(&o));
    let mut tc = Testcase::new(vec![1, 2]);
    f.append_metadata(&o, &mut tc);
    assert_eq!(tc.exec_time_nanos, Some(777));
    assert_eq!(tc.input, vec![1, 2]);
}

#[test]
fn hit_counts_fall_in_buckets() {
    let mut m: Vec<u8> = vec![0, 1, 2, 3, 4, 7, 8, 15, 16, 31, 32, 127, 128, 255];
    classify_counts(&mut m);
    assert_eq!(m, vec![0, 1, 2, 4, 8, 8, 16, 16, 32, 32, 64, 64, 128, 128]);
}
