//! Scalars of the Ristretto group: integers modulo the prime group order,
//! carried as 32 little-endian bytes.

use vstd::prelude::*;
use crate::bytes::{
    le_digits, le_value, lemma_le_value_bound, lemma_le_value_of_digits, lemma_le_value_push, pow256,
};

verus! {

/// The order of the Ristretto group,
/// `2^252 + 27742317777372353535851937790883648493`.
pub open spec fn group_order() -> nat {
    0x1000_0000_0000_0000_0000_0000_0000_0000_0000_0000_0000_0000_0000_0000_0000_0000nat
        + 27742317777372353535851937790883648493nat
}

/// The little-endian bytes of the group order.
pub open spec fn group_order_bytes() -> Seq<u8> {
    seq![
        0xed, 0xd3, 0xf5, 0x5c, 0x1a, 0x63, 0x12, 0x58,
        0xd6, 0x9c, 0xf7, 0xa2, 0xde, 0xf9, 0xde, 0x14,
        0x00, 0x00, 0x00, 0x00, 0x00, 0x00, 0x00, 0x00,
        0x00, 0x00, 0x00, 0x00, 0x00, 0x00, 0x00, 0x10,
    ]
}

/// A scalar encoding is canonical when it has 32 bytes and spells a number
/// below the group order.
pub open spec fn scalar_is_canonical(s: Seq<u8>) -> bool {
    s.len() == 32 && le_value(s) < group_order()
}

/// The canonical encoding of the integer `x` (which, being below `2^64`, is
/// its own residue modulo the group order).
pub open spec fn scalar_of_u64(x: u64) -> Seq<u8> {
    le_digits(x as nat, 32)
}

/// The canonical encoding of the sum of two scalars modulo the group order.
pub open spec fn scalar_sum(a: Seq<u8>, b: Seq<u8>) -> Seq<u8> {
    le_digits((le_value(a) + le_value(b)) % group_order(), 32)
}

/// The bytes of `group_order_bytes` spell the group order.
proof fn lemma_group_order_bytes()
    ensures
        group_order_bytes().len() == 32,
        le_value(group_order_bytes()) == group_order(),
{
    let s = group_order_bytes();
    reveal_with_fuel(le_value, 9);
    let s8 = s.subrange(8, 32);
    let s16 = s.subrange(16, 32);
    let s24 = s.subrange(24, 32);
    assert(s.drop_first().drop_first().drop_first().drop_first().drop_first().drop_first()
        .drop_first().drop_first() =~= s8);
    assert(s8.drop_first().drop_first().drop_first().drop_first().drop_first().drop_first()
        .drop_first().drop_first() =~= s16);
    assert(s16.drop_first().drop_first().drop_first().drop_first().drop_first().drop_first()
        .drop_first().drop_first() =~= s24);
    assert(s24.drop_first().drop_first().drop_first().drop_first().drop_first().drop_first()
        .drop_first().drop_first() =~= Seq::<u8>::empty());
    assert(le_value(s24) == 0x1000_0000_0000_0000);
    assert(le_value(s16) == 0x1_0000_0000_0000_0000 * le_value(s24));
    assert(le_value(s8) == 0x14de_f9de_a2f7_9cd6 + 0x1_0000_0000_0000_0000 * le_value(s16));
    assert(le_value(s) == 0x5812_631a_5cf5_d3ed + 0x1_0000_0000_0000_0000 * le_value(s8));
}

/// The encoding of a 64-bit integer is canonical and spells that integer.
pub proof fn lemma_scalar_of_u64(x: u64)
    ensures
        scalar_is_canonical(scalar_of_u64(x)),
        le_value(scalar_of_u64(x)) == x as nat,
{
    reveal_with_fuel(pow256, 33);
    crate::bytes::lemma_le_digits_len(x as nat, 32);
    lemma_le_value_of_digits(x as nat, 32);
}

/// The encoding of a sum of scalars is canonical and spells the sum of what
/// the operands spell, reduced modulo the group order.
pub proof fn lemma_scalar_sum(a: Seq<u8>, b: Seq<u8>)
    ensures
        scalar_is_canonical(scalar_sum(a, b)),
        le_value(scalar_sum(a, b)) == (le_value(a) + le_value(b)) % group_order(),
{
    let r = (le_value(a) + le_value(b)) % group_order();
    reveal_with_fuel(pow256, 33);
    crate::bytes::lemma_le_digits_len(r, 32);
    lemma_le_value_of_digits(r, 32);
}

/// The scalar of a sum of amounts is the sum of their scalars, as long as the
/// amounts add up within 64 bits: on the side of the amounts, adding
/// commitments loses nothing to the reduction modulo the group order.
pub proof fn lemma_scalar_of_sum(a: u64, b: u64)
    requires
        a + b <= u64::MAX,
    ensures
        scalar_sum(scalar_of_u64(a), scalar_of_u64(b)) == scalar_of_u64((a + b) as u64),
{
    lemma_scalar_of_u64(a);
    lemma_scalar_of_u64(b);
    vstd::arithmetic::div_mod::lemma_small_mod((a + b) as nat, group_order());
}

/// With `x, y` below `p`, the order of `a * p + x` and `b * p + y` is decided
/// by `a` and `b`, and by `x` and `y` only where those agree.
proof fn lemma_digit_order(a: int, b: int, x: int, y: int, p: int)
    requires
        0 <= x < p,
        0 <= y < p,
    ensures
        a * p + x < b * p + y <==> (a < b || (a == b && x < y)),
{
    if a < b {
        assert((a + 1) * p <= b * p) by (nonlinear_arith)
            requires
                a + 1 <= b,
                0 < p,
        ;
        assert((a + 1) * p == a * p + p) by (nonlinear_arith);
    } else if a > b {
        assert((b + 1) * p <= a * p) by (nonlinear_arith)
            requires
                b + 1 <= a,
                0 < p,
        ;
        assert((b + 1) * p == b * p + p) by (nonlinear_arith);
    }
}

/// The group order as an array of little-endian bytes.
fn group_order_array() -> (out: [u8; 32])
    ensures
        out@ == group_order_bytes(),
{
    let out: [u8; 32] = [
        0xed, 0xd3, 0xf5, 0x5c, 0x1a, 0x63, 0x12, 0x58,
        0xd6, 0x9c, 0xf7, 0xa2, 0xde, 0xf9, 0xde, 0x14,
        0x00, 0x00, 0x00, 0x00, 0x00, 0x00, 0x00, 0x00,
        0x00, 0x00, 0x00, 0x00, 0x00, 0x00, 0x00, 0x10,
    ];
    assert(out@ =~= group_order_bytes());
    out
}

/// Tells whether `bytes` is the canonical encoding of a scalar, that is,
/// whether the number it spells is below the group order.
///
/// The subtraction `bytes - order` is carried through all 32 bytes whatever
/// they hold; only the final borrow decides.
pub fn is_canonical_scalar(bytes: &[u8; 32]) -> (ok: bool)
    ensures
        ok == scalar_is_canonical(bytes@),
{
    let order = group_order_array();
    let mut borrow: u16 = 0;
    let mut i: usize = 0;
    while i < 32
        invariant
            i <= 32,
            order@ == group_order_bytes(),
            borrow == 0 || borrow == 1,
            borrow == 1 <==> le_value(bytes@.take(i as int)) < le_value(order@.take(i as int)),
        decreases 32 - i,
    {
        let x: u16 = bytes[i] as u16;
        let y: u16 = order[i] as u16;
        let t: u16 = 256 + x - y - borrow;
        proof {
            let a = bytes@.take(i as int);
            let l = order@.take(i as int);
            assert(bytes@.take(i + 1) =~= a.push(bytes@[i as int]));
            assert(order@.take(i + 1) =~= l.push(order@[i as int]));
            lemma_le_value_push(a, bytes@[i as int]);
            lemma_le_value_push(l, order@[i as int]);
            lemma_le_value_bound(a);
            lemma_le_value_bound(l);
            lemma_digit_order(
                x as int,
                y as int,
                le_value(a) as int,
                le_value(l) as int,
                pow256(i as nat) as int,
            );
            assert(x as int * pow256(i as nat) == pow256(i as nat) * x) by (nonlinear_arith);
            assert(y as int * pow256(i as nat) == pow256(i as nat) * y) by (nonlinear_arith);
            assert(t >> 8 == t / 256) by (bit_vector);
        }
        borrow = 1 - (t >> 8);
        i += 1;
    }
    proof {
        assert(bytes@.take(32) =~= bytes@);
        assert(order@.take(32) =~= order@);
        lemma_group_order_bytes();
    }
    borrow == 1
}

/// Encodes a 64-bit integer as a scalar.
pub fn scalar_from_u64(x: u64) -> (out: [u8; 32])
    ensures
        out@ == scalar_of_u64(x),
        le_value(out@) == x as nat,
        scalar_is_canonical(out@),
{
    let mut out = [0u8; 32];
    let mut rest: u64 = x;
    let mut i: usize = 0;
    while i < 32
        invariant
            i <= 32,
            le_digits(x as nat, 32) == out@.take(i as int) + le_digits(
                rest as nat,
                (32 - i) as nat,
            ),
        decreases 32 - i,
    {
        let ghost prev = out@;
        out[i] = (rest % 256) as u8;
        proof {
            let tail = le_digits((rest / 256) as nat, (32 - i - 1) as nat);
            assert(out@.take(i + 1) =~= prev.take(i as int) + seq![(rest % 256) as u8]);
            assert(out@.take(i + 1) + tail =~= prev.take(i as int) + (seq![(rest % 256) as u8]
                + tail));
        }
        rest = rest / 256;
        i += 1;
    }
    assert(out@.take(32) =~= out@);
    assert(out@ + le_digits(rest as nat, 0) =~= out@);
    proof {
        lemma_scalar_of_u64(x);
    }
    out
}

/// Calls `+` of `curve25519_dalek::scalar::Scalar` on the two scalars that
/// `Scalar::from_bytes_mod_order` makes of `a` and `b`.
///
/// Trusted: scalar arithmetic is arithmetic modulo the group order, and
/// `Scalar::to_bytes` yields the 32 little-endian bytes of the reduced result.
#[verifier::external_body]
pub(crate) fn scalar_add(a: &[u8; 32], b: &[u8; 32]) -> (sum: [u8; 32])
    ensures
        sum@ == scalar_sum(a@, b@),
{
    let x = curve25519_dalek::scalar::Scalar::from_bytes_mod_order(*a);
    let y = curve25519_dalek::scalar::Scalar::from_bytes_mod_order(*b);
    (x + y).to_bytes()
}

/// Calls `curve25519_dalek::scalar::Scalar::random` on the operating system's
/// random source.
///
/// Trusted: whatever is drawn, the scalar handed back is reduced, so its
/// encoding is canonical. Nothing is claimed of which scalar it is.
#[verifier::external_body]
pub(crate) fn random_scalar() -> (s: [u8; 32])
    ensures
        scalar_is_canonical(s@),
{
    curve25519_dalek::scalar::Scalar::random(&mut rand_core::OsRng).to_bytes()
}

} // verus!
