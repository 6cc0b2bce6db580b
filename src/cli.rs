//! Parsing of the worker's command-line values: timeouts and core lists.
use vstd::prelude::*;
use vstd::string::StringSliceAdditionalSpecFns;

use crate::error::Error;

verus! {

/// `s` cut at every `sep`, left to right; the empty text gives one empty piece.
pub open spec fn split_on(s: Seq<u8>, sep: u8) -> Seq<Seq<u8>>
    decreases s.len(),
{
    if s.len() == 0 {
        seq![Seq::<u8>::empty()]
    } else {
        let prev = split_on(s.drop_last(), sep);
        if s.last() == sep {
            prev.push(Seq::<u8>::empty())
        } else {
            prev.update(prev.len() - 1, prev.last().push(s.last()))
        }
    }
}

pub proof fn lemma_split_nonempty(s: Seq<u8>, sep: u8)
    ensures
        split_on(s, sep).len() >= 1,
    decreases s.len(),
{
    if s.len() > 0 {
        lemma_split_nonempty(s.drop_last(), sep);
    }
}

pub open spec fn is_digit(c: u8) -> bool {
    48 <= c <= 57
}

/// The value of a string of decimal digits.
pub open spec fn digits_value(s: Seq<u8>) -> nat
    decreases s.len(),
{
    if s.len() == 0 {
        0
    } else {
        digits_value(s.drop_last()) * 10 + (s.last() - 48) as nat
    }
}

pub open spec fn all_digits(t: Seq<u8>) -> bool {
    forall|i: int| 0 <= i < t.len() ==> is_digit(#[trigger] t[i])
}

/// `s` without one leading `+`.
pub open spec fn unsigned_part(s: Seq<u8>) -> Seq<u8> {
    if s.len() > 0 && s[0] == 43 {
        s.drop_first()
    } else {
        s
    }
}

/// The number that `s` writes in decimal, with an optional leading `+`, if it
/// is at most `max`.
pub open spec fn decimal_at_most(s: Seq<u8>, max: nat) -> Option<nat> {
    let t = unsigned_part(s);
    if t.len() > 0 && all_digits(t) && digits_value(t) <= max {
        Some(digits_value(t))
    } else {
        None
    }
}

proof fn lemma_digits_value_grows(s: Seq<u8>, k: int)
    requires
        0 <= k <= s.len(),
        forall|i: int| 0 <= i < s.len() ==> is_digit(s[i]),
    ensures
        digits_value(s.subrange(0, k)) <= digits_value(s),
    decreases s.len() - k,
{
    if k < s.len() {
        lemma_digits_value_grows(s, k + 1);
        let p = s.subrange(0, k + 1);
        assert(p.drop_last() =~= s.subrange(0, k));
    } else {
        assert(s.subrange(0, k) =~= s);
    }
}

/// Parses a decimal `u64` as std's `str::parse` does: an optional `+`, then
/// one or more digits, at most `u64::MAX`.
pub fn parse_decimal(s: &[u8]) -> (r: Option<u64>)
    ensures
        r.is_some() <==> decimal_at_most(s@, u64::MAX as nat).is_some(),
        r.is_some() ==> r.unwrap() as nat == decimal_at_most(s@, u64::MAX as nat).unwrap(),
{
    let start: usize = if s.len() > 0 && s[0] == 43u8 {
        1
    } else {
        0
    };
    let ghost t = unsigned_part(s@);
    assert(t =~= s@.subrange(start as int, s@.len() as int));
    if start >= s.len() {
        return None;
    }
    let mut acc: u64 = 0;
    let mut i: usize = start;
    assert(s@.subrange(start as int, start as int) =~= Seq::<u8>::empty());
    while i < s.len()
        invariant
            start <= i <= s@.len(),
            t == unsigned_part(s@),
            t =~= s@.subrange(start as int, s@.len() as int),
            forall|j: int| start <= j < i ==> is_digit(s@[j]),
            acc as nat == digits_value(s@.subrange(start as int, i as int)),
        decreases s@.len() - i,
    {
        let c = s[i];
        if c < 48u8 || c > 57u8 {
            assert(t[i - start] == c);
            assert(!is_digit(t[i - start]));
            assert(!all_digits(t));
            assert(decimal_at_most(s@, u64::MAX as nat).is_none());
            return None;
        }
        let d = (c - 48u8) as u64;
        let ghost p = s@.subrange(start as int, i as int + 1);
        assert(p.drop_last() =~= s@.subrange(start as int, i as int));
        if acc > (u64::MAX - d) / 10 {
            proof {
                assert(acc * 10 + d > u64::MAX) by (nonlinear_arith)
                    requires
                        acc > (u64::MAX - d) / 10,
                        d <= 9,
                ;
                assert(p =~= t.subrange(0, i - start + 1));
                if all_digits(t) {
                    lemma_digits_value_grows(t, i - start + 1);
                    assert(digits_value(t) > u64::MAX);
                }
                assert(decimal_at_most(s@, u64::MAX as nat).is_none());
            }
            return None;
        }
        proof {
            assert(acc * 10 + d <= u64::MAX) by (nonlinear_arith)
                requires
                    acc <= (u64::MAX - d) / 10,
                    d <= 9,
            ;
        }
        acc = acc * 10 + d;
        i = i + 1;
    }
    Some(acc)
}

/// Parses a timeout given in milliseconds; anything but a decimal `u64` is an
/// illegal argument.
pub fn timeout_from_millis_str(time: &str) -> (r: Result<u64, Error>)
    ensures
        r.is_ok() <==> decimal_at_most(time.spec_bytes(), u64::MAX as nat).is_some(),
        r.is_ok() ==> r.unwrap() as nat == decimal_at_most(time.spec_bytes(), u64::MAX as nat).unwrap(),
        r.is_err() ==> r == Err::<u64, Error>(Error::IllegalArgument),
{
    match parse_decimal(time.as_bytes()) {
        Some(v) => Ok(v),
        None => Err(Error::IllegalArgument),
    }
}

/// Cuts `s` at every `sep`.
pub fn split_bytes(s: &[u8], sep: u8) -> (r: Vec<Vec<u8>>)
    ensures
        r@.len() == split_on(s@, sep).len(),
        forall|k: int| 0 <= k < r@.len() ==> #[trigger] r@[k]@ == split_on(s@, sep)[k],
{
    let mut pieces: Vec<Vec<u8>> = Vec::new();
    let mut cur: Vec<u8> = Vec::new();
    let mut i: usize = 0;
    assert(s@.subrange(0, 0) =~= Seq::<u8>::empty());
    while i < s.len()
        invariant
            i <= s@.len(),
            pieces@.len() + 1 == split_on(s@.subrange(0, i as int), sep).len(),
            forall|k: int| 0 <= k < pieces@.len() ==> #[trigger] pieces@[k]@ == split_on(s@.subrange(0, i as int), sep)[k],
            cur@ == split_on(s@.subrange(0, i as int), sep).last(),
        decreases s@.len() - i,
    {
        let ghost prev = split_on(s@.subrange(0, i as int), sep);
        assert(s@.subrange(0, i as int + 1).drop_last() =~= s@.subrange(0, i as int));
        let c = s[i];
        if c == sep {
            let mut done: Vec<u8> = Vec::new();
            std::mem::swap(&mut done, &mut cur);
            pieces.push(done);
        } else {
            cur.push(c);
        }
        i = i + 1;
        proof {
            lemma_split_nonempty(s@.subrange(0, i as int - 1), sep);
        }
    }
    pieces.push(cur);
    assert(s@.subrange(0, s@.len() as int) =~= s@);
    pieces
}

/// The inclusive range `a..=b`, empty when `b < a`.
pub open spec fn core_range(a: nat, b: nat) -> Seq<usize> {
    Seq::new(if b >= a { (b - a + 1) as nat } else { 0 }, |i: int| (a + i) as usize)
}

/// The cores one comma-separated item names: a number, or a range `a-b`.
/// An item with more than one `-` names none; a bad number is an error.
pub open spec fn core_item(item: Seq<u8>) -> Option<Seq<usize>> {
    let parts = split_on(item, 45);
    if parts.len() == 1 {
        match decimal_at_most(parts[0], usize::MAX as nat) {
            Some(n) => Some(seq![n as usize]),
            None => None,
        }
    } else if parts.len() == 2 {
        match (decimal_at_most(parts[0], usize::MAX as nat), decimal_at_most(parts[1], usize::MAX as nat)) {
            (Some(a), Some(b)) => Some(core_range(a, b)),
            _ => None,
        }
    } else {
        Some(Seq::empty())
    }
}

/// The cores that the items name, in order; `None` if an item is bad.
pub open spec fn core_items(items: Seq<Seq<u8>>) -> Option<Seq<usize>>
    decreases items.len(),
{
    if items.len() == 0 {
        Some(Seq::empty())
    } else {
        match (core_items(items.drop_last()), core_item(items.last())) {
            (Some(a), Some(b)) => Some(a.add(b)),
            _ => None,
        }
    }
}

proof fn lemma_decimal_usize(s: Seq<u8>)
    ensures
        decimal_at_most(s, usize::MAX as nat).is_some() ==> decimal_at_most(s, u64::MAX as nat)
            == decimal_at_most(s, usize::MAX as nat),
        decimal_at_most(s, u64::MAX as nat).is_some() && decimal_at_most(s, u64::MAX as nat).unwrap()
            <= usize::MAX ==> decimal_at_most(s, usize::MAX as nat) == decimal_at_most(s, u64::MAX as nat),
        decimal_at_most(s, u64::MAX as nat).is_some() && decimal_at_most(s, u64::MAX as nat).unwrap()
            > usize::MAX ==> decimal_at_most(s, usize::MAX as nat).is_none(),
        decimal_at_most(s, u64::MAX as nat).is_none() ==> decimal_at_most(s, usize::MAX as nat).is_none(),
{
}

proof fn lemma_core_items_bad_prefix(items: Seq<Seq<u8>>, k: int)
    requires
        0 <= k <= items.len(),
        core_items(items.subrange(0, k)).is_none(),
    ensures
        core_items(items).is_none(),
    decreases items.len() - k,
{
    if k < items.len() {
        let p = items.subrange(0, k + 1);
        assert(p.drop_last() =~= items.subrange(0, k));
        lemma_core_items_bad_prefix(items, k + 1);
    } else {
        assert(items.subrange(0, k) =~= items);
    }
}

/// What a core list names: `all` is every one of the `available` cores,
/// `none` is no core (run without binding), anything else a comma-separated
/// list of numbers and ranges that must name at least one core.
pub open spec fn cores_named(s: Seq<u8>, available: nat) -> Option<Seq<usize>> {
    if s == seq![97u8, 108u8, 108u8] {
        Some(Seq::new(available, |i: int| i as usize))
    } else if s == seq![110u8, 111u8, 110u8, 101u8] {
        Some(Seq::empty())
    } else {
        match core_items(split_on(s, 44)) {
            Some(c) => if c.len() > 0 {
                Some(c)
            } else {
                None
            },
            None => None,
        }
    }
}

/// A list of cores to bind workers to.
#[derive(Clone, Debug, PartialEq, Eq)]
pub struct Cores {
    pub ids: Vec<usize>,
}

fn push_core_range(out: &mut Vec<usize>, a: usize, b: usize)
    ensures
        final(out)@ == old(out)@.add(core_range(a as nat, b as nat)),
{
    if a > b {
        assert(core_range(a as nat, b as nat) =~= Seq::<usize>::empty());
        assert(old(out)@.add(Seq::<usize>::empty()) =~= old(out)@);
        return;
    }
    let mut x: usize = a;
    loop
        invariant
            a <= x <= b,
            out@ =~= old(out)@.add(Seq::new((x - a) as nat, |i: int| (a + i) as usize)),
        decreases b - x,
    {
        out.push(x);
        assert(out@ =~= old(out)@.add(Seq::new((x + 1 - a) as nat, |i: int| (a + i) as usize)));
        if x == b {
            assert(core_range(a as nat, b as nat) =~= Seq::new((x + 1 - a) as nat, |i: int| (a + i) as usize));
            return;
        }
        x = x + 1;
    }
}

fn is_word(s: &[u8], w: &[u8]) -> (r: bool)
    ensures
        r == (s@ == w@),
{
    if s.len() != w.len() {
        return false;
    }
    let mut i: usize = 0;
    while i < s.len()
        invariant
            i <= s@.len(),
            s@.len() == w@.len(),
            forall|j: int| 0 <= j < i ==> s@[j] == w@[j],
        decreases s@.len() - i,
    {
        if s[i] != w[i] {
            return false;
        }
        i = i + 1;
    }
    assert(s@ =~= w@);
    true
}

impl Cores {
    /// Parses a core list such as `1,2-4,6`, `all` or `none`; `available` is
    /// the number of cores of the machine. A bad number, or a list that names
    /// no core, is an illegal argument.
    pub fn from_cmdline(args: &str, available: usize) -> (r: Result<Cores, Error>)
        ensures
            r.is_ok() <==> cores_named(args.spec_bytes(), available as nat).is_some(),
            r.is_ok() ==> r.unwrap().ids@ == cores_named(args.spec_bytes(), available as nat).unwrap(),
            r.is_err() ==> r == Err::<Cores, Error>(Error::IllegalArgument),
    {
        let s = args.as_bytes();
        let all: [u8; 3] = [97u8, 108u8, 108u8];
        let none: [u8; 4] = [110u8, 111u8, 110u8, 101u8];
        if is_word(s, all.as_slice()) {
            assert(all@ =~= seq![97u8, 108u8, 108u8]);
            let mut ids: Vec<usize> = Vec::new();
            let mut i: usize = 0;
            while i < available
                invariant
                    i <= available,
                    ids@ =~= Seq::new(i as nat, |k: int| k as usize),
                decreases available - i,
            {
                ids.push(i);
                i = i + 1;
            }
            return Ok(Cores { ids });
        }
        assert(all@ =~= seq![97u8, 108u8, 108u8]);
        assert(none@ =~= seq![110u8, 111u8, 110u8, 101u8]);
        if is_word(s, none.as_slice()) {
            return Ok(Cores { ids: Vec::new() });
        }
        let items = split_bytes(s, 44u8);
        let ghost items_spec = split_on(s@, 44u8);
        let mut ids: Vec<usize> = Vec::new();
        let mut k: usize = 0;
        assert(items_spec.subrange(0, 0) =~= Seq::<Seq<u8>>::empty());
        while k < items.len()
            invariant
                k <= items@.len(),
                items@.len() == items_spec.len(),
                items_spec == split_on(s@, 44u8),
                s@ == args.spec_bytes(),
                s@ != seq![97u8, 108u8, 108u8],
                s@ != seq![110u8, 111u8, 110u8, 101u8],
                forall|j: int| 0 <= j < items@.len() ==> #[trigger] items@[j]@ == items_spec[j],
                core_items(items_spec.subrange(0, k as int)) == Some(ids@),
            decreases items@.len() - k,
        {
            let ghost prefix = items_spec.subrange(0, k as int + 1);
            assert(prefix.drop_last() =~= items_spec.subrange(0, k as int));
            let parts = split_bytes(items[k].as_slice(), 45u8);
            let ghost parts_spec = split_on(items_spec[k as int], 45u8);
            assert(prefix.last() == items_spec[k as int]);
            proof {
                if parts@.len() >= 1 {
                    lemma_decimal_usize(parts_spec[0]);
                    assert(parts@[0]@ == parts_spec[0]);
                }
                if parts@.len() >= 2 {
                    lemma_decimal_usize(parts_spec[1]);
                    assert(parts@[1]@ == parts_spec[1]);
                }
            }
            if parts.len() == 1 {
                match parse_decimal(parts[0].as_slice()) {
                    Some(n) if n <= usize::MAX as u64 => {
                        let ghost before = ids@;
                        ids.push(n as usize);
                        assert(ids@ =~= before.add(seq![n as usize]));
                    },
                    _ => {
                        proof {
                            lemma_core_items_bad_prefix(items_spec, k as int + 1);
                        }
                        return Err(Error::IllegalArgument);
                    },
                }
            } else if parts.len() == 2 {
                let a = parse_decimal(parts[0].as_slice());
                let b = parse_decimal(parts[1].as_slice());
                match (a, b) {
                    (Some(a), Some(b)) if a <= usize::MAX as u64 && b <= usize::MAX as u64 => {
                        push_core_range(&mut ids, a as usize, b as usize);
                    },
                    _ => {
                        proof {
                            lemma_core_items_bad_prefix(items_spec, k as int + 1);
                        }
                        return Err(Error::IllegalArgument);
                    },
                }
            } else {
                assert(ids@.add(Seq::<usize>::empty()) =~= ids@);
            }
            k = k + 1;
        }
        assert(items_spec.subrange(0, items_spec.len() as int) =~= items_spec);
        if ids.len() == 0 {
            return Err(Error::IllegalArgument);
        }
        Ok(Cores { ids })
    }
}

} // verus!
