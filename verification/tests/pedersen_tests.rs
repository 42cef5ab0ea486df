use curve25519_dalek::constants::{RISTRETTO_BASEPOINT_COMPRESSED, RISTRETTO_BASEPOINT_POINT};
use curve25519_dalek::ristretto::{CompressedRistretto, RistrettoPoint};
use curve25519_dalek::scalar::Scalar;
use privacy_zkp::pedersen::PedersenCommitment;
use privacy_zkp::scalar::{is_canonical_scalar, scalar_from_u64};

fn generator_g() -> RistrettoPoint {
    RistrettoPoint::hash_from_bytes::<sha2::Sha512>(b"G")
}

fn direct_commit(amount: u64, blinding: &Scalar) -> [u8; 32] {
    (generator_g() * Scalar::from(amount) + RISTRETTO_BASEPOINT_POINT * blinding)
        .compress()
        .to_bytes()
}

fn scalar_bytes(seed: u8) -> [u8; 32] {
    Scalar::from_bytes_mod_order([seed; 32]).to_bytes()
}

const GROUP_ORDER: [u8; 32] = [
    0xed, 0xd3, 0xf5, 0x5c, 0x1a, 0x63, 0x12, 0x58, 0xd6, 0x9c, 0xf7, 0xa2, 0xde, 0xf9, 0xde, 0x14,
    0x00, 0x00, 0x00, 0x00, 0x00, 0x00, 0x00, 0x00, 0x00, 0x00, 0x00, 0x00, 0x00, 0x00, 0x00, 0x10,
];

#[test]
fn scalar_from_u64_exact() {
    assert_eq!(scalar_from_u64(0), [0u8; 32]);
    let mut expected = [0u8; 32];
    expected[0] = 0x40;
    expected[1] = 0x42;
    expected[2] = 0x0f;
    assert_eq!(scalar_from_u64(1_000_000), expected);
    for x in [0u64, 1, 255, 256, 1 << 40, u64::MAX] {
        assert_eq!(scalar_from_u64(x), Scalar::from(x).to_bytes());
    }
}

#[test]
fn canonical_scalars_are_those_below_the_order() {
    assert!(is_canonical_scalar(&[0u8; 32]));
    assert!(is_canonical_scalar(&scalar_from_u64(u64::MAX)));
    let mut below = GROUP_ORDER;
    below[0] -= 1;
    assert!(is_canonical_scalar(&below));
    assert!(!is_canonical_scalar(&GROUP_ORDER));
    let mut above = GROUP_ORDER;
    above[0] += 2;
    assert!(!is_canonical_scalar(&above));
    assert!(!is_canonical_scalar(&[0xffu8; 32]));
    let mut high_bit = [0u8; 32];
    high_bit[31] = 0x80;
    assert!(!is_canonical_scalar(&high_bit));
    // Smaller in the top byte, larger everywhere else.
    let mut mixed = [0xffu8; 32];
    mixed[31] = 0x0f;
    assert!(is_canonical_scalar(&mixed));
    // Equal in the top sixteen bytes, one more in byte 15.
    let mut middle = GROUP_ORDER;
    middle[15] += 1;
    middle[0] = 0;
    assert!(!is_canonical_scalar(&middle));
}

#[test]
fn canonical_check_agrees_with_the_curve_library() {
    let mut samples: Vec<[u8; 32]> = vec![[0u8; 32], [0xffu8; 32], GROUP_ORDER];
    for i in 0..32 {
        let mut up = GROUP_ORDER;
        up[i] = up[i].wrapping_add(1);
        samples.push(up);
        let mut down = GROUP_ORDER;
        down[i] = down[i].wrapping_sub(1);
        samples.push(down);
    }
    for seed in 0..=255u8 {
        samples.push([seed; 32]);
        samples.push(scalar_bytes(seed));
    }
    for sample in samples {
        let expected: bool = Scalar::from_canonical_bytes(sample).is_some().into();
        assert_eq!(is_canonical_scalar(&sample), expected);
    }
}

#[test]
fn commit_is_amount_g_plus_blinding_h() {
    for (amount, seed) in [(0u64, 0u8), (1, 1), (1_000_000, 7), (u64::MAX, 200)] {
        let blinding = Scalar::from_bytes_mod_order([seed; 32]);
        let commitment = PedersenCommitment::commit(amount, &blinding.to_bytes());
        assert_eq!(commitment, direct_commit(amount, &blinding));
        assert!(CompressedRistretto(commitment).decompress().is_some());
    }
}

#[test]
fn commit_with_zero_blinding_is_amount_times_g() {
    let commitment = PedersenCommitment::commit(5, &[0u8; 32]);
    assert_eq!(commitment, (generator_g() * Scalar::from(5u64)).compress().to_bytes());
    // With a zero amount only the blinding part is left: one times H is H.
    let only_h = PedersenCommitment::commit(0, &scalar_from_u64(1));
    assert_eq!(only_h, RISTRETTO_BASEPOINT_COMPRESSED.to_bytes());
}

#[test]
fn new_commitment_opens_to_its_amount() {
    let c = PedersenCommitment::new(1_000_000);
    assert_eq!(c.amount, 1_000_000);
    assert!(is_canonical_scalar(&c.blinding_factor));
    assert_eq!(c.commitment, PedersenCommitment::commit(1_000_000, &c.blinding_factor));
    assert!(c.verify(1_000_000));
    assert!(!c.verify(1_000_001));
}

#[test]
fn new_commitments_use_fresh_blinding() {
    let a = PedersenCommitment::new(10);
    let b = PedersenCommitment::new(10);
    assert_ne!(a.blinding_factor, b.blinding_factor);
    assert_ne!(a.commitment, b.commitment);
}

#[test]
fn binding_on_concrete_values() {
    let blinding = scalar_bytes(33);
    let other_blinding = scalar_bytes(34);
    for amount in [0u64, 1, 999, 1_000_000, u64::MAX - 1] {
        let commitment = PedersenCommitment::commit(amount, &blinding);
        let opened = PedersenCommitment { commitment, amount, blinding_factor: blinding };
        assert!(opened.verify(amount));
        assert!(!opened.verify(amount + 1));
        let reblinded = PedersenCommitment {
            commitment,
            amount,
            blinding_factor: other_blinding,
        };
        assert!(!reblinded.verify(amount));
    }
}

#[test]
fn verify_rejects_bytes_that_encode_no_element() {
    let c = PedersenCommitment {
        commitment: [0xffu8; 32],
        amount: 1,
        blinding_factor: scalar_bytes(1),
    };
    assert!(!c.verify(1));
}

#[test]
fn add_is_homomorphic_on_concrete_values() {
    let cases = [(1u64, 3u8, 2u64, 5u8), (1_000_000, 9, 0, 1), (123_456_789, 250, 987_654_321, 251)];
    for (a1, s1, a2, s2) in cases {
        let b1 = scalar_bytes(s1);
        let b2 = scalar_bytes(s2);
        let c1 = PedersenCommitment {
            commitment: PedersenCommitment::commit(a1, &b1),
            amount: a1,
            blinding_factor: b1,
        };
        let c2 = PedersenCommitment {
            commitment: PedersenCommitment::commit(a2, &b2),
            amount: a2,
            blinding_factor: b2,
        };
        let sum = c1.add(&c2).unwrap();
        assert_eq!(sum.amount, a1 + a2);
        let expected_blinding =
            Scalar::from_bytes_mod_order(b1) + Scalar::from_bytes_mod_order(b2);
        assert_eq!(sum.blinding_factor, expected_blinding.to_bytes());
        // The sum of the elements is the commitment to the sums.
        assert_eq!(sum.commitment, PedersenCommitment::commit(a1 + a2, &sum.blinding_factor));
        assert!(sum.verify(a1 + a2));
        let first_point = CompressedRistretto(c1.commitment).decompress().unwrap();
        let second_point = CompressedRistretto(c2.commitment).decompress().unwrap();
        assert_eq!(sum.commitment, (first_point + second_point).compress().to_bytes());
        assert_ne!(sum.commitment, c1.commitment);
    }
}

#[test]
fn add_reduces_the_blinding_sum() {
    let mut top = GROUP_ORDER;
    top[0] -= 1;
    let c1 = PedersenCommitment {
        commitment: PedersenCommitment::commit(1, &top),
        amount: 1,
        blinding_factor: top,
    };
    let two = scalar_from_u64(2);
    let c2 = PedersenCommitment {
        commitment: PedersenCommitment::commit(1, &two),
        amount: 1,
        blinding_factor: two,
    };
    let sum = c1.add(&c2).unwrap();
    // (order - 1) + 2 is 1 modulo the order.
    assert_eq!(sum.blinding_factor, scalar_from_u64(1));
    assert!(sum.verify(2));
}

#[test]
fn add_has_no_sum_for_bad_operands() {
    let b = scalar_bytes(4);
    let good = PedersenCommitment {
        commitment: PedersenCommitment::commit(u64::MAX, &b),
        amount: u64::MAX,
        blinding_factor: b,
    };
    let one = PedersenCommitment {
        commitment: PedersenCommitment::commit(1, &b),
        amount: 1,
        blinding_factor: b,
    };
    // The amounts do not fit in 64 bits.
    assert_eq!(good.add(&one), None);
    assert_eq!(one.add(&good), None);
    assert!(one.add(&one).is_some());
    // One operand encodes no group element.
    let broken = PedersenCommitment { commitment: [0xffu8; 32], amount: 1, blinding_factor: b };
    assert_eq!(one.add(&broken), None);
    assert_eq!(broken.add(&one), None);
}

#[test]
fn scalar_of_a_sum_is_the_sum_of_the_scalars() {
    for (a, b) in [(0u64, 0u64), (1, 2), (1_000_000, 999), (u64::MAX - 1, 1), (1 << 63, (1 << 63) - 1)] {
        let sum = Scalar::from_bytes_mod_order(scalar_from_u64(a))
            + Scalar::from_bytes_mod_order(scalar_from_u64(b));
        assert_eq!(sum.to_bytes(), scalar_from_u64(a + b));
    }
}
