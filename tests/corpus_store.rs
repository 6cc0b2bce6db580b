use fuzzcore::corpus::{Corpus, CorpusId, Testcase};
use fuzzcore::error::Error;

fn tc(bytes: &[u8]) -> Testcase {
    Testcase::new(bytes.to_vec())
}

#[test]
fn ids_are_dense_and_never_reused() {
    let mut c = Corpus::new();
    let a = c.add(tc(b"a"));
    let b = c.add(tc(b"b"));
    assert_eq!(a, CorpusId(0));
    assert_eq!(b, CorpusId(1));
    assert!(c.remove(b).is_ok());
    let d = c.add(tc(b"d"));
    assert_eq!(d, CorpusId(2));
    assert!(c.remove(a).is_ok());
    assert!(c.remove(d).is_ok());
    assert_eq!(c.count(), 0);
    let e = c.add(tc(b"e"));
    assert_eq!(e, CorpusId(3));
}

#[test]
fn many_adds_and_removes_never_repeat_ids() {
    let mut c = Corpus::new();
    let mut seen: Vec<usize> = Vec::new();
    for round in 0..50usize {
        let id = c.add(tc(&[round as u8]));
        assert!(!seen.contains(&id.0));
        seen.push(id.0);
        if round % 3 == 0 {
            assert!(c.remove(id).is_ok());
        }
    }
}

#[test]
fn first_next_last_follow_insertion_order() {
    let mut c = Corpus::new();
    assert_eq!(c.first(), None);
    assert_eq!(c.last(), None);
    let a = c.add(tc(b"a"));
    let b = c.add(tc(b"b"));
    let d = c.add(tc(b"d"));
    assert_eq!(c.first(), Some(a));
    assert_eq!(c.next(a), Some(b));
    assert_eq!(c.next(b), Some(d));
    assert_eq!(c.next(d), None);
    assert_eq!(c.last(), Some(d));
    assert!(c.remove(b).is_ok());
    assert_eq!(c.next(a), Some(d));
    assert_eq!(c.next(b), None);
}

#[test]
fn replace_keeps_the_id_and_returns_the_previous_entry() {
    let mut c = Corpus::new();
    let a = c.add(tc(b"long input"));
    let prev = c.replace(a, tc(b"short")).unwrap();
    assert_eq!(prev.input, b"long input".to_vec());
    assert_eq!(c.get(a).unwrap().input, b"short".to_vec());
    assert_eq!(c.count(), 1);
}

#[test]
fn unknown_ids_are_errors() {
    let mut c = Corpus::new();
    let a = c.add(tc(b"a"));
    assert!(c.remove(a).is_ok());
    assert_eq!(c.remove(a).unwrap_err(), Error::IllegalState);
    assert_eq!(c.replace(a, tc(b"x")).unwrap_err(), Error::IllegalState);
    assert_eq!(c.get(a).unwrap_err(), Error::KeyNotFound);
    assert_eq!(c.get_mut(CorpusId(7)).unwrap_err(), Error::KeyNotFound);
}

#[test]
fn get_mut_edits_in_place() {
    let mut c = Corpus::new();
    let a = c.add(tc(b"a"));
    c.get_mut(a).unwrap().depth = 5;
    assert_eq!(c.get(a).unwrap().depth, 5);
    assert_eq!(c.get(a).unwrap().len(), 1);
}

#[test]
fn current_cursor_moves() {
    let mut c = Corpus::new();
    assert_eq!(c.current(), None);
    let a = c.add(tc(b"a"));
    c.set_current(Some(a));
    assert_eq!(c.current(), Some(a));
}
