//! The field collaborator: exact ring arithmetic on canonical residues.

use plonkish::field::{Felt, MODULUS};

#[test]
fn add_sub_round_trip() {
    let a = Felt::from_u64(123_456_789);
    let b = Felt::from_u64(987_654_321);
    let s = a.add(b);
    assert_eq!(s.sub(b), a);
    assert_eq!(s.sub(a), b);
    assert_eq!(s.value(), 123_456_789 + 987_654_321);
}

#[test]
fn add_wraps_at_the_modulus() {
    let a = Felt::from_u64(MODULUS - 1);
    let one = Felt::one();
    assert_eq!(a.add(one), Felt::zero());
    assert_eq!(Felt::zero().sub(one).value(), MODULUS - 1);
}

#[test]
fn mul_and_pow_agree() {
    let a = Felt::from_u64(7);
    assert_eq!(a.mul(a).value(), 49);
    assert_eq!(a.pow(3).value(), 343);
    assert_eq!(a.pow(0), Felt::one());
    let big = Felt::from_u64(MODULUS - 1);
    // (p - 1)^2 = p^2 - 2p + 1 = 1 (mod p)
    assert_eq!(big.mul(big), Felt::one());
}

#[test]
fn from_u64_reduces() {
    assert_eq!(Felt::from_u64(MODULUS).value(), 0);
    assert_eq!(Felt::from_u64(MODULUS - 1).value(), MODULUS - 1);
    assert_eq!(Felt::from_u64(u64::MAX).value(), u64::MAX - MODULUS);
}

#[test]
fn xor_and_lt_use_canonical_values() {
    let a = Felt::from_u64(0b1100);
    let b = Felt::from_u64(0b1010);
    assert_eq!(a.xor(b).value(), 0b0110);
    assert!(b.lt(a));
    assert!(!a.lt(a));
}

#[test]
fn byte_decomposition_recomposes() {
    let v = 0x0102_0304_0506_0708u64;
    let bytes = Felt::from_u64(v).to_le_bytes();
    assert_eq!(bytes.len(), 8);
    let mut acc: u64 = 0;
    for (i, byte) in bytes.iter().enumerate() {
        acc += (*byte as u64) << (8 * i);
    }
    assert_eq!(acc, v);
    assert_eq!(bytes[0], 0x08);
    assert_eq!(bytes[7], 0x01);
}
