use fuzzcore::cli::{parse_decimal, split_bytes, timeout_from_millis_str, Cores};
use fuzzcore::error::Error;

#[test]
fn timeout_parses_milliseconds() {
    assert_eq!(timeout_from_millis_str("10000"), Ok(10000));
    assert_eq!(timeout_from_millis_str("+5"), Ok(5));
    assert_eq!(timeout_from_millis_str("0"), Ok(0));
    assert_eq!(timeout_from_millis_str("18446744073709551615"), Ok(u64::MAX));
}

#[test]
fn timeout_rejects_bad_text() {
    assert_eq!(timeout_from_millis_str(""), Err(Error::IllegalArgument));
    assert_eq!(timeout_from_millis_str("+"), Err(Error::IllegalArgument));
    assert_eq!(timeout_from_millis_str("12ms"), Err(Error::IllegalArgument));
    assert_eq!(timeout_from_millis_str("-1"), Err(Error::IllegalArgument));
    assert_eq!(timeout_from_millis_str("18446744073709551616"), Err(Error::IllegalArgument));
}

#[test]
fn decimal_parser_agrees_with_std() {
    for s in ["0", "7", "+42", "0042", "99999999999999999999", "4a", "", "++1", " 1"] {
        assert_eq!(parse_decimal(s.as_bytes()), s.parse::<u64>().ok(), "{s}");
    }
}

#[test]
fn split_cuts_at_every_separator() {
    let pieces = split_bytes(b"1,,2-4,", b',');
    assert_eq!(pieces, vec![b"1".to_vec(), vec![], b"2-4".to_vec(), vec![]]);
    assert_eq!(split_bytes(b"", b','), vec![Vec::<u8>::new()]);
}

#[test]
fn cores_list_with_ranges() {
    let c = Cores::from_cmdline("1,2-4,6", 8).unwrap();
    assert_eq!(c.ids, vec![1, 2, 3, 4, 6]);
}

#[test]
fn cores_all_and_none() {
    assert_eq!(Cores::from_cmdline("all", 4).unwrap().ids, vec![0, 1, 2, 3]);
    assert_eq!(Cores::from_cmdline("none", 4).unwrap().ids, Vec::<usize>::new());
}

#[test]
fn cores_errors() {
    assert_eq!(Cores::from_cmdline("", 4), Err(Error::IllegalArgument));
    assert_eq!(Cores::from_cmdline("1,x", 4), Err(Error::IllegalArgument));
    assert_eq!(Cores::from_cmdline("4-2", 4), Err(Error::IllegalArgument));
    assert_eq!(Cores::from_cmdline("2-", 4), Err(Error::IllegalArgument));
}

#[test]
fn cores_item_with_two_dashes_names_nothing() {
    assert_eq!(Cores::from_cmdline("1-2-3,5", 8).unwrap().ids, vec![5]);
    assert_eq!(Cores::from_cmdline("3-3", 8).unwrap().ids, vec![3]);
}
