//! Byte-level building blocks: concatenation, fixed-width integer encodings
//! and a comparison that does not stop at the first difference.

use vstd::prelude::*;

verus! {

/// `256` raised to the power `n`.
pub open spec fn pow256(n: nat) -> nat
    decreases n,
{
    if n == 0 {
        1
    } else {
        256 * pow256((n - 1) as nat)
    }
}

/// The `n` low base-256 digits of `x`, least significant first.
pub open spec fn le_digits(x: nat, n: nat) -> Seq<u8>
    decreases n,
{
    if n == 0 {
        Seq::empty()
    } else {
        seq![(x % 256) as u8] + le_digits(x / 256, (n - 1) as nat)
    }
}

/// The natural number that the byte string `s` spells in base 256, least
/// significant digit first.
pub open spec fn le_value(s: Seq<u8>) -> nat
    decreases s.len(),
{
    if s.len() == 0 {
        0
    } else {
        s[0] as nat + 256 * le_value(s.drop_first())
    }
}

/// The eight bytes of `x`, least significant first.
pub open spec fn u64_le_bytes(x: u64) -> Seq<u8> {
    le_digits(x as nat, 8)
}

/// The eight bytes of `x`, most significant first.
pub open spec fn u64_be_bytes(x: u64) -> Seq<u8> {
    le_digits(x as nat, 8).reverse()
}

/// `le_digits` yields exactly the number of digits asked for.
pub proof fn lemma_le_digits_len(x: nat, n: nat)
    ensures
        le_digits(x, n).len() == n,
    decreases n,
{
    if n > 0 {
        lemma_le_digits_len(x / 256, (n - 1) as nat);
    }
}

/// A string of `n` bytes spells a number below `256^n`.
pub proof fn lemma_le_value_bound(s: Seq<u8>)
    ensures
        le_value(s) < pow256(s.len()),
    decreases s.len(),
{
    if s.len() > 0 {
        lemma_le_value_bound(s.drop_first());
    }
}

/// Appending a most significant digit `b` to `s` adds `b * 256^len(s)` to
/// the number spelled.
pub proof fn lemma_le_value_push(s: Seq<u8>, b: u8)
    ensures
        le_value(s.push(b)) == le_value(s) + pow256(s.len()) * b,
    decreases s.len(),
{
    let t = s.push(b);
    assert(t.len() == s.len() + 1);
    assert(le_value(t) == t[0] as nat + 256 * le_value(t.drop_first()));
    if s.len() == 0 {
        assert(t.drop_first() =~= Seq::<u8>::empty());
        assert(le_value(t.drop_first()) == 0);
        assert(t[0] == b);
        assert(pow256(0) * b == b) by (nonlinear_arith)
            requires
                pow256(0) == 1,
        ;
    } else {
        let sd = s.drop_first();
        assert(t.drop_first() =~= sd.push(b));
        lemma_le_value_push(sd, b);
        assert(t[0] == s[0]);
        assert(le_value(s) == s[0] as nat + 256 * le_value(sd));
        assert(256 * (pow256(sd.len()) * b) == pow256(s.len()) * b) by (nonlinear_arith)
            requires
                pow256(s.len()) == 256 * pow256(sd.len()),
        ;
    }
}

/// The digits of a number spell that number again, as long as it fits in `n`
/// digits.
pub proof fn lemma_le_value_of_digits(x: nat, n: nat)
    requires
        x < pow256(n),
    ensures
        le_value(le_digits(x, n)) == x,
    decreases n,
{
    if n > 0 {
        let rest = le_digits(x / 256, (n - 1) as nat);
        let all = le_digits(x, n);
        lemma_le_value_of_digits(x / 256, (n - 1) as nat);
        assert(all.drop_first() =~= rest);
        assert(all[0] == (x % 256) as u8);
    }
}

/// Every byte string is the digit string of the number it spells.
pub proof fn lemma_le_digits_of_value(s: Seq<u8>)
    ensures
        le_digits(le_value(s), s.len()) == s,
    decreases s.len(),
{
    if s.len() > 0 {
        let v = le_value(s);
        let w = le_value(s.drop_first());
        lemma_le_digits_of_value(s.drop_first());
        assert(v % 256 == s[0] as nat);
        assert(v / 256 == w);
        assert(le_digits(v, s.len()) =~= s);
    } else {
        assert(le_digits(le_value(s), s.len()) =~= s);
    }
}

/// Every 64-bit integer fits in eight base-256 digits.
pub proof fn lemma_u64_fits(x: u64)
    ensures
        (x as nat) < pow256(8),
        pow256(8) == 0x1_0000_0000_0000_0000,
{
    reveal_with_fuel(pow256, 9);
}

/// Two integers with the same little-endian encoding are the same integer,
/// and so are two with the same big-endian encoding.
pub proof fn lemma_u64_bytes_injective(x: u64, y: u64)
    requires
        u64_le_bytes(x) == u64_le_bytes(y) || u64_be_bytes(x) == u64_be_bytes(y),
    ensures
        x == y,
{
    lemma_u64_fits(x);
    lemma_u64_fits(y);
    lemma_le_value_of_digits(x as nat, 8);
    lemma_le_value_of_digits(y as nat, 8);
    let a = le_digits(x as nat, 8);
    let b = le_digits(y as nat, 8);
    assert(a.reverse().reverse() =~= a);
    assert(b.reverse().reverse() =~= b);
}

/// Encodes `x` in eight bytes, least significant first.
pub fn u64_to_le(x: u64) -> (out: [u8; 8])
    ensures
        out@ == u64_le_bytes(x),
{
    let mut out = [0u8; 8];
    let mut rest: u64 = x;
    let mut i: usize = 0;
    while i < 8
        invariant
            i <= 8,
            le_digits(x as nat, 8) == out@.take(i as int) + le_digits(rest as nat, (8 - i) as nat),
        decreases 8 - i,
    {
        let ghost prev = out@;
        out[i] = (rest % 256) as u8;
        proof {
            let tail = le_digits((rest / 256) as nat, (8 - i - 1) as nat);
            assert(out@.take(i + 1) =~= prev.take(i as int) + seq![(rest % 256) as u8]);
            assert(out@.take(i + 1) + tail =~= prev.take(i as int) + (seq![(rest % 256) as u8]
                + tail));
        }
        rest = rest / 256;
        i += 1;
    }
    assert(out@.take(8) =~= out@);
    assert(out@ + le_digits(rest as nat, 0) =~= out@);
    out
}

/// Encodes `x` in eight bytes, most significant first.
pub fn u64_to_be(x: u64) -> (out: [u8; 8])
    ensures
        out@ == u64_be_bytes(x),
{
    let le = u64_to_le(x);
    let out: [u8; 8] = [le[7], le[6], le[5], le[4], le[3], le[2], le[1], le[0]];
    assert(out@ =~= le@.reverse());
    out
}

/// Decodes the eight bytes of `src` that start at `at`, least significant
/// first.
pub fn u64_read_le(src: &[u8], at: usize) -> (x: u64)
    requires
        at + 8 <= src@.len(),
    ensures
        x as nat == le_value(src@.subrange(at as int, at + 8)),
        u64_le_bytes(x) == src@.subrange(at as int, at + 8),
{
    let ghost s = src@.subrange(at as int, at + 8);
    let n = src.len();
    let mut acc: u64 = 0;
    let mut i: usize = 8;
    while i > 0
        invariant
            i <= 8,
            n == src@.len(),
            at + 8 <= n,
            s == src@.subrange(at as int, at + 8),
            acc as nat == le_value(s.subrange(i as int, 8)),
        decreases i,
    {
        i -= 1;
        proof {
            let hi = s.subrange(i + 1, 8);
            let cur = s.subrange(i as int, 8);
            assert(cur.drop_first() =~= hi);
            lemma_le_value_bound(hi);
            reveal_with_fuel(pow256, 9);
            assert(pow256(hi.len()) <= pow256(7)) by {
                lemma_pow256_monotonic(hi.len(), 7);
            }
        }
        acc = acc * 256 + (src[at + i] as u64);
    }
    proof {
        assert(s.subrange(0, 8) =~= s);
        lemma_le_digits_of_value(s);
    }
    acc
}

/// `256^m` does not exceed `256^n` when `m <= n`.
pub proof fn lemma_pow256_monotonic(m: nat, n: nat)
    requires
        m <= n,
    ensures
        pow256(m) <= pow256(n),
        pow256(m) > 0,
    decreases n,
{
    if m < n {
        lemma_pow256_monotonic(m, (n - 1) as nat);
    } else if n > 0 {
        lemma_pow256_monotonic((m - 1) as nat, (n - 1) as nat);
    }
}

/// Appends the bytes of `src` to `buf`.
pub fn append_bytes(buf: &mut Vec<u8>, src: &[u8])
    ensures
        final(buf)@ == old(buf)@ + src@,
{
    let mut i: usize = 0;
    while i < src.len()
        invariant
            i <= src@.len(),
            buf@ == old(buf)@ + src@.take(i as int),
        decreases src@.len() - i,
    {
        buf.push(src[i]);
        i += 1;
    }
    assert(src@.take(src@.len() as int) == src@);
}

/// Copies the 32 bytes of `src` that start at `at` into an array.
pub fn read_array_32(src: &[u8], at: usize) -> (out: [u8; 32])
    requires
        at + 32 <= src@.len(),
    ensures
        out@ == src@.subrange(at as int, at + 32),
{
    let n = src.len();
    let mut out = [0u8; 32];
    let mut i: usize = 0;
    while i < 32
        invariant
            i <= 32,
            n == src@.len(),
            at + 32 <= n,
            forall|j: int| 0 <= j < i ==> out@[j] == src@[at + j],
        decreases 32 - i,
    {
        out[i] = src[at + i];
        i += 1;
    }
    assert(out@ =~= src@.subrange(at as int, at + 32));
    out
}

/// Copies the 20 bytes of `src` that start at `at` into an array.
pub fn read_array_20(src: &[u8], at: usize) -> (out: [u8; 20])
    requires
        at + 20 <= src@.len(),
    ensures
        out@ == src@.subrange(at as int, at + 20),
{
    let n = src.len();
    let mut out = [0u8; 20];
    let mut i: usize = 0;
    while i < 20
        invariant
            i <= 20,
            n == src@.len(),
            at + 20 <= n,
            forall|j: int| 0 <= j < i ==> out@[j] == src@[at + j],
        decreases 20 - i,
    {
        out[i] = src[at + i];
        i += 1;
    }
    assert(out@ =~= src@.subrange(at as int, at + 20));
    out
}

/// Byte-string equality that reads every byte of both operands whenever their
/// lengths agree, so that its running time does not reveal where they differ.
pub fn ct_eq(a: &[u8], b: &[u8]) -> (same: bool)
    ensures
        same == (a@ == b@),
{
    if a.len() != b.len() {
        return false;
    }
    let mut diff: u8 = 0;
    let mut i: usize = 0;
    while i < a.len()
        invariant
            i <= a@.len(),
            a@.len() == b@.len(),
            diff == 0 <==> (forall|j: int| 0 <= j < i ==> a@[j] == b@[j]),
        decreases a@.len() - i,
    {
        let x = a[i];
        let y = b[i];
        let ghost before = diff;
        diff = diff | (x ^ y);
        assert((before | (x ^ y)) == 0 <==> (before == 0 && x == y)) by (bit_vector);
        i += 1;
    }
    assert(diff == 0 ==> a@ =~= b@);
    diff == 0
}

} // verus!
