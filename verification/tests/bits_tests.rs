//! Tests for bit vectors, bit matrices, and the expand-transpose kernel.

use cait_sith::bits::{BitMatrix, BitVector, SquareBitMatrix, SECURITY_PARAMETER, SEC_PARAM_8};

fn square_of_vectors(f: impl Fn(usize) -> BitVector) -> SquareBitMatrix {
    let rows: Vec<BitVector> = (0..SECURITY_PARAMETER).map(f).collect();
    SquareBitMatrix::try_from(BitMatrix::from_rows(&rows)).unwrap()
}

#[test]
fn test_zero_has_no_set_bits() {
    // Each entry compares a bit with zero, so for the zero vector every
    // entry is true.
    let z = BitVector::zero();
    assert!(z.bits().iter().all(|b| *b));
}

#[test]
fn test_from_bytes_low_bits() {
    let mut bytes = [0u8; SEC_PARAM_8];
    bytes[0] = 0b0000_0101;
    bytes[8] = 0b1000_0000;
    let v = BitVector::from_bytes(&bytes);
    let bits = v.bits();
    assert_eq!(bits.len(), SECURITY_PARAMETER);
    // Entries compare each bit with zero: false exactly at the set bits.
    assert!(!bits[0]);
    assert!(bits[1]);
    assert!(!bits[2]);
    // byte 8 is the low byte of word 1, so its high bit is bit 71.
    assert!(!bits[71]);
    assert_eq!(bits.iter().filter(|&&b| !b).count(), 3);
}

#[test]
fn test_from_bytes_matches_zero() {
    let bytes = [0u8; SEC_PARAM_8];
    assert_eq!(BitVector::from_bytes(&bytes), BitVector::zero());
}

#[test]
fn test_conditional_select() {
    let mut bytes = [0u8; SEC_PARAM_8];
    bytes[3] = 0xAB;
    let a = BitVector::from_bytes(&bytes);
    let b = BitVector::zero();
    assert_eq!(BitVector::conditional_select(&a, &b, false), a);
    assert_eq!(BitVector::conditional_select(&a, &b, true), b);
}

#[test]
fn test_random_is_not_constant() {
    let a = BitVector::random();
    let b = BitVector::random();
    // Two 256-bit draws colliding, or either being all-zero, would mean
    // the randomness source is broken.
    assert_ne!(a, b);
    assert_ne!(a, BitVector::zero());
}

#[test]
fn test_matrix_from_rows_round_trip() {
    let rows = vec![BitVector::zero(), BitVector::random(), BitVector::random()];
    let m = BitMatrix::from_rows(&rows);
    assert_eq!(m.height(), 3);
    assert_eq!(m.rows().as_slice(), rows.as_slice());
}

#[test]
fn test_square_requires_exact_height() {
    for h in [0usize, 1, SECURITY_PARAMETER - 1, SECURITY_PARAMETER + 1] {
        let rows = vec![BitVector::zero(); h];
        assert!(SquareBitMatrix::try_from(BitMatrix::from_rows(&rows)).is_err());
    }
    let rows = vec![BitVector::zero(); SECURITY_PARAMETER];
    let m = BitMatrix::from_rows(&rows);
    let square = SquareBitMatrix::try_from(m.clone()).unwrap();
    assert_eq!(square.matrix, m);
}

#[test]
fn test_expand_transpose_shape() {
    let square = square_of_vectors(|_| BitVector::zero());
    for width in [1usize, 7, 64, 100] {
        let out = square.expand_transpose(b"sid", width);
        assert_eq!(out.height(), width);
        for row in out.rows() {
            assert_eq!(row.bits().len(), SECURITY_PARAMETER);
        }
    }
    assert_eq!(square.expand_transpose(b"sid", 0).height(), 0);
}

#[test]
fn test_expand_transpose_deterministic() {
    let square = square_of_vectors(|i| {
        let mut bytes = [0u8; SEC_PARAM_8];
        bytes[i / 8] = 1 << (i % 8);
        BitVector::from_bytes(&bytes)
    });
    let a = square.expand_transpose(b"session", 40);
    let b = square.expand_transpose(b"session", 40);
    assert_eq!(a, b);

    let c = square.expand_transpose(b"other session", 40);
    assert_ne!(a, c);

    let zero_square = square_of_vectors(|_| BitVector::zero());
    let d = zero_square.expand_transpose(b"session", 40);
    assert_ne!(a, d);
}
