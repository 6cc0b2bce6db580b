//! The random source and the byte-level havoc mutations. Every mutation
//! takes its random choices as numbers, so that what it does to the input is
//! a function of them.
use vstd::prelude::*;
use vstd::wrapping::u64_specs;

verus! {

/// Whether a mutation changed the input.
#[derive(Clone, Copy, Debug, PartialEq, Eq, Structural)]
pub enum MutationResult {
    Mutated,
    Skipped,
}

/// `y` rotated left by 27 bits.
pub open spec fn rotl27(y: u64) -> u64 {
    ((y << 27u64) | (y >> 37u64)) as u64
}

/// One step of the RomuDuoJr generator: the output and the next state.
pub open spec fn romu_step(x: u64, y: u64) -> (u64, u64, u64) {
    let nx = u64_specs::wrapping_mul(15241094284759029579u64, y);
    let ny = rotl27(u64_specs::wrapping_sub(y, x));
    (x, nx, ny)
}

/// A small fast pseudo-random generator (RomuDuoJr).
#[derive(Clone, Copy, Debug, PartialEq, Eq, Structural)]
pub struct StdRand {
    pub x: u64,
    pub y: u64,
}

impl StdRand {
    /// A generator seeded with `seed`.
    pub fn with_seed(seed: u64) -> (r: StdRand)
        ensures
            r.x == seed ^ 0x12345,
            r.y == seed ^ 0x45678,
    {
        StdRand { x: seed ^ 0x12345, y: seed ^ 0x45678 }
    }

    /// The next number.
    pub fn next(&mut self) -> (r: u64)
        ensures
            (r, final(self).x, final(self).y) == romu_step(old(self).x, old(self).y),
    {
        let xp = self.x;
        self.x = 15241094284759029579u64.wrapping_mul(self.y);
        let d = self.y.wrapping_sub(xp);
        self.y = (d << 27u64) | (d >> 37u64);
        xp
    }

    /// A number below `n`.
    pub fn below(&mut self, n: u64) -> (r: u64)
        requires
            n > 0,
        ensures
            r < n,
            r == romu_step(old(self).x, old(self).y).0 % n,
            (final(self).x, final(self).y) == (romu_step(old(self).x, old(self).y).1, romu_step(
                old(self).x,
                old(self).y,
            ).2),
    {
        self.next() % n
    }
}

/// The 8-bit values that often hit boundary cases: -128, -1, 0, 1, 16, 32,
/// 64, 100, 127.
pub open spec fn interesting_8() -> Seq<u8> {
    seq![128u8, 255u8, 0u8, 1u8, 16u8, 32u8, 64u8, 100u8, 127u8]
}

/// What `bit_flip` does: the result and the new input.
pub open spec fn spec_bit_flip(s: Seq<u8>, pos: u64, bit: u64) -> (MutationResult, Seq<u8>) {
    if s.len() == 0 {
        (MutationResult::Skipped, s)
    } else {
        let p = (pos % s.len() as u64) as int;
        (MutationResult::Mutated, s.update(p, s[p] ^ (1u8 << (bit % 8) as u8)))
    }
}

/// What `byte_set` does.
pub open spec fn spec_byte_set(s: Seq<u8>, pos: u64, value: u8) -> (MutationResult, Seq<u8>) {
    if s.len() == 0 {
        (MutationResult::Skipped, s)
    } else {
        (MutationResult::Mutated, s.update((pos % s.len() as u64) as int, value))
    }
}

/// What `byte_add` does.
pub open spec fn spec_byte_add(s: Seq<u8>, pos: u64, delta: u8) -> (MutationResult, Seq<u8>) {
    if s.len() == 0 {
        (MutationResult::Skipped, s)
    } else {
        let p = (pos % s.len() as u64) as int;
        (MutationResult::Mutated, s.update(p, ((s[p] + delta) % 256) as u8))
    }
}

/// What `byte_interesting` does.
pub open spec fn spec_byte_interesting(s: Seq<u8>, pos: u64, which: u64) -> (MutationResult, Seq<u8>) {
    spec_byte_set(s, pos, interesting_8()[(which % 9) as int])
}

/// What `byte_delete` does.
pub open spec fn spec_byte_delete(s: Seq<u8>, pos: u64) -> (MutationResult, Seq<u8>) {
    if s.len() == 0 {
        (MutationResult::Skipped, s)
    } else {
        (MutationResult::Mutated, s.remove((pos % s.len() as u64) as int))
    }
}

/// What `byte_insert` does.
pub open spec fn spec_byte_insert(s: Seq<u8>, max_size: usize, pos: u64, value: u8) -> (MutationResult, Seq<u8>) {
    if s.len() >= max_size {
        (MutationResult::Skipped, s)
    } else {
        (MutationResult::Mutated, s.insert((pos % (s.len() + 1) as u64) as int, value))
    }
}

/// What `token_insert` does.
pub open spec fn spec_token_insert(s: Seq<u8>, max_size: usize, token: Seq<u8>, pos: u64) -> (MutationResult, Seq<u8>) {
    if token.len() == 0 || s.len() + token.len() > max_size {
        (MutationResult::Skipped, s)
    } else {
        (MutationResult::Mutated, spliced_in(s, (pos % (s.len() + 1) as u64) as int, token))
    }
}

/// What `token_replace` does.
pub open spec fn spec_token_replace(s: Seq<u8>, token: Seq<u8>, pos: u64) -> (MutationResult, Seq<u8>) {
    if s.len() == 0 || token.len() == 0 {
        (MutationResult::Skipped, s)
    } else {
        let p = (pos % s.len() as u64) as int;
        (
            MutationResult::Mutated,
            Seq::new(s.len(), |i: int| if p <= i < p + token.len() { token[i - p] } else { s[i] }),
        )
    }
}

/// What `bytes_copy` does.
pub open spec fn spec_bytes_copy(s: Seq<u8>, from: u64, to: u64, len: u64) -> (MutationResult, Seq<u8>) {
    if s.len() == 0 {
        (MutationResult::Skipped, s)
    } else {
        let n = s.len();
        let f = (from % n as u64) as int;
        let t = (to % n as u64) as int;
        let l = (1 + len % (n - f) as u64) as int;
        (
            MutationResult::Mutated,
            Seq::new(n, |i: int| if t <= i < t + l && i - t + f < n { s[i - t + f] } else { s[i] }),
        )
    }
}

/// What `splice` does.
pub open spec fn spec_splice(s: Seq<u8>, other: Seq<u8>, max_size: usize, split: u64) -> (MutationResult, Seq<u8>) {
    if s.len() == 0 || other.len() == 0 {
        (MutationResult::Skipped, s)
    } else {
        let c = if s.len() <= other.len() { s.len() } else { other.len() };
        let p = split as int % (c + 1) as int;
        let whole = s.subrange(0, p) + other.subrange(p, other.len() as int);
        (MutationResult::Mutated, if whole.len() <= max_size { whole } else { whole.subrange(0, max_size as int) })
    }
}

/// Flips bit `bit % 8` of the byte at `pos % len`.
pub fn bit_flip(input: &mut Vec<u8>, pos: u64, bit: u64) -> (r: MutationResult)
    ensures
        (r, final(input)@) == spec_bit_flip(old(input)@, pos, bit),
        old(input)@.len() == 0 ==> r == MutationResult::Skipped && final(input)@ == old(input)@,
        old(input)@.len() > 0 ==> r == MutationResult::Mutated && {
            let p = (pos % old(input)@.len() as u64) as int;
            final(input)@ == old(input)@.update(p, old(input)@[p] ^ (1u8 << (bit % 8) as u8))
        },
{
    let n = input.len();
    if n == 0 {
        return MutationResult::Skipped;
    }
    let p = (pos % n as u64) as usize;
    let b = input[p] ^ (1u8 << (bit % 8) as u8);
    input.set(p, b);
    MutationResult::Mutated
}

/// Sets the byte at `pos % len` to `value`.
pub fn byte_set(input: &mut Vec<u8>, pos: u64, value: u8) -> (r: MutationResult)
    ensures
        (r, final(input)@) == spec_byte_set(old(input)@, pos, value),
        old(input)@.len() == 0 ==> r == MutationResult::Skipped && final(input)@ == old(input)@,
        old(input)@.len() > 0 ==> r == MutationResult::Mutated && final(input)@ == old(input)@.update(
            (pos % old(input)@.len() as u64) as int,
            value,
        ),
{
    let n = input.len();
    if n == 0 {
        return MutationResult::Skipped;
    }
    let p = (pos % n as u64) as usize;
    input.set(p, value);
    MutationResult::Mutated
}

/// Adds `delta` (wrapping) to the byte at `pos % len`.
pub fn byte_add(input: &mut Vec<u8>, pos: u64, delta: u8) -> (r: MutationResult)
    ensures
        (r, final(input)@) == spec_byte_add(old(input)@, pos, delta),
        old(input)@.len() == 0 ==> r == MutationResult::Skipped && final(input)@ == old(input)@,
        old(input)@.len() > 0 ==> r == MutationResult::Mutated && {
            let p = (pos % old(input)@.len() as u64) as int;
            final(input)@ == old(input)@.update(p, ((old(input)@[p] + delta) % 256) as u8)
        },
{
    let n = input.len();
    if n == 0 {
        return MutationResult::Skipped;
    }
    let p = (pos % n as u64) as usize;
    let b = input[p].wrapping_add(delta);
    input.set(p, b);
    MutationResult::Mutated
}

/// Sets the byte at `pos % len` to the interesting value number `which % 9`.
pub fn byte_interesting(input: &mut Vec<u8>, pos: u64, which: u64) -> (r: MutationResult)
    ensures
        (r, final(input)@) == spec_byte_interesting(old(input)@, pos, which),
        old(input)@.len() == 0 ==> r == MutationResult::Skipped && final(input)@ == old(input)@,
        old(input)@.len() > 0 ==> r == MutationResult::Mutated && final(input)@ == old(input)@.update(
            (pos % old(input)@.len() as u64) as int,
            interesting_8()[(which % 9) as int],
        ),
{
    let values: [u8; 9] = [128u8, 255u8, 0u8, 1u8, 16u8, 32u8, 64u8, 100u8, 127u8];
    assert(values@ =~= interesting_8());
    byte_set(input, pos, values[(which % 9) as usize])
}

/// Removes the byte at `pos % len`.
pub fn byte_delete(input: &mut Vec<u8>, pos: u64) -> (r: MutationResult)
    ensures
        (r, final(input)@) == spec_byte_delete(old(input)@, pos),
        old(input)@.len() == 0 ==> r == MutationResult::Skipped && final(input)@ == old(input)@,
        old(input)@.len() > 0 ==> r == MutationResult::Mutated && final(input)@ == old(input)@.remove(
            (pos % old(input)@.len() as u64) as int,
        ),
{
    let n = input.len();
    if n == 0 {
        return MutationResult::Skipped;
    }
    let p = (pos % n as u64) as usize;
    input.remove(p);
    MutationResult::Mutated
}

/// Inserts `value` at `pos % (len + 1)`, unless the input already has `max_size` bytes.
pub fn byte_insert(input: &mut Vec<u8>, max_size: usize, pos: u64, value: u8) -> (r: MutationResult)
    ensures
        (r, final(input)@) == spec_byte_insert(old(input)@, max_size, pos, value),
        old(input)@.len() >= max_size ==> r == MutationResult::Skipped && final(input)@ == old(input)@,
        old(input)@.len() < max_size ==> r == MutationResult::Mutated && final(input)@ == old(input)@.insert(
            (pos % (old(input)@.len() + 1) as u64) as int,
            value,
        ),
{
    let n = input.len();
    if n >= max_size {
        return MutationResult::Skipped;
    }
    let p = (pos % (n as u64 + 1)) as usize;
    input.insert(p, value);
    MutationResult::Mutated
}

/// `s` with `t` inserted at `p`.
pub open spec fn spliced_in(s: Seq<u8>, p: int, t: Seq<u8>) -> Seq<u8> {
    s.subrange(0, p) + t + s.subrange(p, s.len() as int)
}

/// Inserts a dictionary token at `pos % (len + 1)`, unless the result would
/// be longer than `max_size` or the token is empty.
pub fn token_insert(input: &mut Vec<u8>, max_size: usize, token: &Vec<u8>, pos: u64) -> (r: MutationResult)
    ensures
        (r, final(input)@) == spec_token_insert(old(input)@, max_size, token@, pos),
        token@.len() == 0 || old(input)@.len() + token@.len() > max_size ==> r == MutationResult::Skipped
            && final(input)@ == old(input)@,
        token@.len() > 0 && old(input)@.len() + token@.len() <= max_size ==> r == MutationResult::Mutated
            && final(input)@ == spliced_in(old(input)@, (pos % (old(input)@.len() + 1) as u64) as int, token@),
{
    let n = input.len();
    let t = token.len();
    if t == 0 || t > max_size || n > max_size - t {
        return MutationResult::Skipped;
    }
    let p = (pos % (n as u64 + 1)) as usize;
    let mut out: Vec<u8> = Vec::new();
    let mut i: usize = 0;
    while i < p
        invariant
            p <= n,
            n == input@.len(),
            i <= p,
            out@ == input@.subrange(0, i as int),
        decreases p - i,
    {
        out.push(input[i]);
        assert(out@ =~= input@.subrange(0, i as int + 1));
        i = i + 1;
    }
    let mut j: usize = 0;
    while j < t
        invariant
            t == token@.len(),
            j <= t,
            out@ == input@.subrange(0, p as int) + token@.subrange(0, j as int),
        decreases t - j,
    {
        out.push(token[j]);
        assert(out@ =~= input@.subrange(0, p as int) + token@.subrange(0, j as int + 1));
        j = j + 1;
    }
    assert(token@.subrange(0, t as int) =~= token@);
    let mut k: usize = p;
    while k < n
        invariant
            p <= k <= n,
            n == input@.len(),
            out@ == input@.subrange(0, p as int) + token@ + input@.subrange(p as int, k as int),
        decreases n - k,
    {
        out.push(input[k]);
        assert(out@ =~= input@.subrange(0, p as int) + token@ + input@.subrange(p as int, k as int + 1));
        k = k + 1;
    }
    *input = out;
    MutationResult::Mutated
}

/// Overwrites the bytes at `pos % len` with a dictionary token, as far as
/// the input reaches.
pub fn token_replace(input: &mut Vec<u8>, token: &Vec<u8>, pos: u64) -> (r: MutationResult)
    ensures
        (r, final(input)@) == spec_token_replace(old(input)@, token@, pos),
        old(input)@.len() == 0 || token@.len() == 0 ==> r == MutationResult::Skipped && final(input)@ == old(input)@,
        old(input)@.len() > 0 && token@.len() > 0 ==> r == MutationResult::Mutated && {
            let p = (pos % old(input)@.len() as u64) as int;
            &&& final(input)@.len() == old(input)@.len()
            &&& forall|i: int|
                0 <= i < old(input)@.len() ==> #[trigger] final(input)@[i] == if p <= i < p + token@.len() {
                    token@[i - p]
                } else {
                    old(input)@[i]
                }
        },
{
    let n = input.len();
    let t = token.len();
    if n == 0 || t == 0 {
        return MutationResult::Skipped;
    }
    let p = (pos % n as u64) as usize;
    let mut i: usize = p;
    while i < n && i - p < t
        invariant
            p <= i <= n,
            n == input@.len(),
            n == old(input)@.len(),
            t == token@.len(),
            i - p <= t,
            forall|j: int|
                0 <= j < n ==> #[trigger] input@[j] == if p <= j < i {
                    token@[j - p]
                } else {
                    old(input)@[j]
                },
        decreases n - i,
    {
        input.set(i, token[i - p]);
        i = i + 1;
    }
    MutationResult::Mutated
}

/// Copies `len % (n - from)` bytes (at least one) from `from % n` to `to % n`
/// within the input, as far as the input reaches.
pub fn bytes_copy(input: &mut Vec<u8>, from: u64, to: u64, len: u64) -> (r: MutationResult)
    ensures
        (r, final(input)@) == spec_bytes_copy(old(input)@, from, to, len),
        old(input)@.len() == 0 ==> r == MutationResult::Skipped && final(input)@ == old(input)@,
        old(input)@.len() > 0 ==> r == MutationResult::Mutated && final(input)@.len() == old(input)@.len() && {
            let n = old(input)@.len();
            let f = (from % n as u64) as int;
            let t = (to % n as u64) as int;
            let l = (1 + len % (n - f) as u64) as int;
            forall|i: int|
                0 <= i < n ==> #[trigger] final(input)@[i] == if t <= i < t + l && i - t + f < n {
                    old(input)@[i - t + f]
                } else {
                    old(input)@[i]
                }
        },
{
    let n = input.len();
    if n == 0 {
        return MutationResult::Skipped;
    }
    let f = (from % n as u64) as usize;
    let t = (to % n as u64) as usize;
    let l = (1 + len % (n - f) as u64) as usize;
    let src = input.clone();
    assert(src@ =~= old(input)@);
    let mut i: usize = t;
    while i < n && i - t < l && i - t < n - f
        invariant
            t <= i <= n,
            n == input@.len(),
            src@ == old(input)@,
            src@.len() == n,
            f < n,
            i - t <= l,
            forall|j: int|
                0 <= j < n ==> #[trigger] input@[j] == if t <= j < i {
                    src@[j - t + f]
                } else {
                    src@[j]
                },
        decreases n - i,
    {
        input.set(i, src[i - t + f]);
        i = i + 1;
    }
    MutationResult::Mutated
}

/// Crossover: the first `p` bytes of the input followed by the bytes of
/// `other` from `p` on, where `p` is `split` modulo one more than the
/// shorter length; cut to `max_size`.
pub fn splice(input: &mut Vec<u8>, other: &Vec<u8>, max_size: usize, split: u64) -> (r: MutationResult)
    ensures
        (r, final(input)@) == spec_splice(old(input)@, other@, max_size, split),
        old(input)@.len() == 0 || other@.len() == 0 ==> r == MutationResult::Skipped && final(input)@ == old(input)@,
        old(input)@.len() > 0 && other@.len() > 0 ==> {
            let c = if old(input)@.len() <= other@.len() { old(input)@.len() } else { other@.len() };
            let p = split as int % (c + 1) as int;
            let whole = old(input)@.subrange(0, p) + other@.subrange(p, other@.len() as int);
            &&& r == MutationResult::Mutated
            &&& final(input)@ == if whole.len() <= max_size { whole } else { whole.subrange(0, max_size as int) }
        },
{
    let n = input.len();
    let m = other.len();
    if n == 0 || m == 0 {
        return MutationResult::Skipped;
    }
    let c = if n <= m { n } else { m };
    let p = ((split as u128) % (c as u128 + 1)) as usize;
    input.truncate(p);
    assert(input@ =~= old(input)@.subrange(0, p as int));
    let ghost head = input@;
    let mut k: usize = p;
    while k < m
        invariant
            p <= k <= m,
            m == other@.len(),
            input@ == head + other@.subrange(p as int, k as int),
        decreases m - k,
    {
        input.push(other[k]);
        assert(input@ =~= head + other@.subrange(p as int, k as int + 1));
        k = k + 1;
    }
    if input.len() > max_size {
        input.truncate(max_size);
    }
    MutationResult::Mutated
}

/// The number of havoc operations.
pub const HAVOC_OPS: u64 = 10;

/// The byte sequences of a dictionary.
pub open spec fn token_seqs(tokens: Seq<Vec<u8>>) -> Seq<Seq<u8>> {
    tokens.map_values(|t: Vec<u8>| t@)
}

/// What `havoc_op` does: operation `op % HAVOC_OPS` with the numbers `a`,
/// `b`, `c`.
pub open spec fn spec_havoc_op(
    s: Seq<u8>,
    max_size: usize,
    tokens: Seq<Seq<u8>>,
    other: Seq<u8>,
    op: u64,
    a: u64,
    b: u64,
    c: u64,
) -> (MutationResult, Seq<u8>) {
    let which = op % HAVOC_OPS;
    if which == 0 {
        spec_bit_flip(s, a, b)
    } else if which == 1 {
        spec_byte_set(s, a, (b % 256) as u8)
    } else if which == 2 {
        spec_byte_add(s, a, (b % 256) as u8)
    } else if which == 3 {
        spec_byte_interesting(s, a, b)
    } else if which == 4 {
        spec_byte_delete(s, a)
    } else if which == 5 {
        spec_byte_insert(s, max_size, a, (b % 256) as u8)
    } else if which == 6 {
        spec_bytes_copy(s, a, b, c)
    } else if which == 7 || which == 8 {
        if tokens.len() == 0 {
            (MutationResult::Skipped, s)
        } else if which == 7 {
            spec_token_insert(s, max_size, tokens[(a % tokens.len() as u64) as int], b)
        } else {
            spec_token_replace(s, tokens[(a % tokens.len() as u64) as int], b)
        }
    } else {
        spec_splice(s, other, max_size, a)
    }
}

/// Applies havoc operation `op % HAVOC_OPS` with the random numbers `a`, `b`
/// and `c`: bit flip, byte set, byte add, interesting byte, byte delete, byte
/// insert, block copy, token insert, token replace, splice with `other`.
/// Token operations pick token `a % tokens.len()` and skip without tokens.
/// An input within `max_size` stays within it, and a skipped operation
/// leaves the input as it was.
pub fn havoc_op(
    input: &mut Vec<u8>,
    max_size: usize,
    tokens: &Vec<Vec<u8>>,
    other: &Vec<u8>,
    op: u64,
    a: u64,
    b: u64,
    c: u64,
) -> (r: MutationResult)
    ensures
        (r, final(input)@) == spec_havoc_op(old(input)@, max_size, token_seqs(tokens@), other@, op, a, b, c),
        old(input)@.len() <= max_size ==> final(input)@.len() <= max_size,
        r == MutationResult::Skipped ==> final(input)@ == old(input)@,
{
    let which = op % HAVOC_OPS;
    if which == 0 {
        bit_flip(input, a, b)
    } else if which == 1 {
        byte_set(input, a, (b % 256) as u8)
    } else if which == 2 {
        byte_add(input, a, (b % 256) as u8)
    } else if which == 3 {
        byte_interesting(input, a, b)
    } else if which == 4 {
        byte_delete(input, a)
    } else if which == 5 {
        byte_insert(input, max_size, a, (b % 256) as u8)
    } else if which == 6 {
        bytes_copy(input, a, b, c)
    } else if which == 7 || which == 8 {
        if tokens.len() == 0 {
            return MutationResult::Skipped;
        }
        let t = &tokens[(a % tokens.len() as u64) as usize];
        assert(t@ == token_seqs(tokens@)[(a % tokens.len() as u64) as int]);
        if which == 7 {
            token_insert(input, max_size, t, b)
        } else {
            token_replace(input, t, b)
        }
    } else {
        splice(input, other, max_size, a)
    }
}

/// `n` stacked havoc operations from generator state `(x, y)`, each drawing
/// four numbers (operation, then `a`, `b`, `c`): whether one of them
/// mutated, the input after them, and the generator state after them.
pub open spec fn havoc_steps(
    s: Seq<u8>,
    max_size: usize,
    tokens: Seq<Seq<u8>>,
    other: Seq<u8>,
    x: u64,
    y: u64,
    n: nat,
) -> (bool, Seq<u8>, u64, u64)
    decreases n,
{
    if n == 0 {
        (false, s, x, y)
    } else {
        let prev = havoc_steps(s, max_size, tokens, other, x, y, (n - 1) as nat);
        let d1 = romu_step(prev.2, prev.3);
        let d2 = romu_step(d1.1, d1.2);
        let d3 = romu_step(d2.1, d2.2);
        let d4 = romu_step(d3.1, d3.2);
        let step = spec_havoc_op(prev.1, max_size, tokens, other, d1.0, d2.0, d3.0, d4.0);
        (prev.0 || step.0 == MutationResult::Mutated, step.1, d4.1, d4.2)
    }
}

/// What `havoc` does from generator state `(x, y)`: the number of stacked
/// operations is `2 << k` for the first draw `k` modulo 7; then the result,
/// the input and the generator state after the stack.
pub open spec fn spec_havoc(
    s: Seq<u8>,
    max_size: usize,
    tokens: Seq<Seq<u8>>,
    other: Seq<u8>,
    x: u64,
    y: u64,
) -> (MutationResult, Seq<u8>, u64, u64) {
    let d = romu_step(x, y);
    let n = (2u64 << (d.0 % 7)) as nat;
    let st = havoc_steps(s, max_size, tokens, other, d.1, d.2, n);
    (if st.0 { MutationResult::Mutated } else { MutationResult::Skipped }, st.1, st.2, st.3)
}

/// Scheduled havoc: stacks `2^(1 + k)` operations, `k` below 7, each with
/// fresh random numbers. Mutated when one of them was. An input within
/// `max_size` stays within it; a skipped input is unchanged.
pub fn havoc(input: &mut Vec<u8>, max_size: usize, tokens: &Vec<Vec<u8>>, other: &Vec<u8>, rand: &mut StdRand) -> (r: MutationResult)
    ensures
        (r, final(input)@, final(rand).x, final(rand).y) == spec_havoc(
            old(input)@,
            max_size,
            token_seqs(tokens@),
            other@,
            old(rand).x,
            old(rand).y,
        ),
        old(input)@.len() <= max_size ==> final(input)@.len() <= max_size,
        r == MutationResult::Skipped ==> final(input)@ == old(input)@,
{
    let k = rand.below(7);
    let stack: u64 = 2u64 << k;
    assert(stack <= 128) by (bit_vector)
        requires
            k < 7,
            stack == 2u64 << k,
    ;
    let ghost x0 = rand.x;
    let ghost y0 = rand.y;
    let mut result = MutationResult::Skipped;
    let mut i: u64 = 0;
    while i < stack
        invariant
            i <= stack,
            old(input)@.len() <= max_size ==> input@.len() <= max_size,
            result == MutationResult::Skipped ==> input@ == old(input)@,
            ({
                let st = havoc_steps(old(input)@, max_size, token_seqs(tokens@), other@, x0, y0, i as nat);
                &&& st.0 == (result == MutationResult::Mutated)
                &&& st.1 == input@
                &&& st.2 == rand.x
                &&& st.3 == rand.y
            }),
        decreases stack - i,
    {
        let op = rand.next();
        let a = rand.next();
        let b = rand.next();
        let c = rand.next();
        if havoc_op(input, max_size, tokens, other, op, a, b, c) == MutationResult::Mutated {
            result = MutationResult::Mutated;
        }
        i = i + 1;
    }
    result
}

} // verus!
