//! Tests of the Fiat-Shamir transcript helpers: challenges must be
//! bit-identically reproducible, and every absorbed datum must matter.

use curve25519_dalek::ristretto::CompressedRistretto;
use curve25519_dalek::scalar::Scalar;
use merlin::Transcript;

use verkle_trie::proving_schemes::transcript_protocol::{to_be_bytes_min, TranscriptProtocol};

#[test]
fn challenges_are_reproducible() {
    let mut t1 = Transcript::new(b"test");
    let mut t2 = Transcript::new(b"test");
    t1.append_usize(b"n", 5);
    t2.append_usize(b"n", 5);
    assert_eq!(t1.challenge_scalar(b"c"), t2.challenge_scalar(b"c"));
}

#[test]
fn absorbed_usize_changes_the_challenge() {
    let mut t1 = Transcript::new(b"test");
    let mut t2 = Transcript::new(b"test");
    t1.append_usize(b"n", 5);
    t2.append_usize(b"n", 6);
    assert_ne!(t1.challenge_scalar(b"c"), t2.challenge_scalar(b"c"));
}

#[test]
fn absorbed_scalar_changes_the_challenge() {
    let mut t1 = Transcript::new(b"test");
    let mut t2 = Transcript::new(b"test");
    t1.append_scalar(b"s", &Scalar::from(1u128));
    t2.append_scalar(b"s", &Scalar::from(2u128));
    assert_ne!(t1.challenge_scalar(b"c"), t2.challenge_scalar(b"c"));
}

#[test]
fn absorbed_points_change_the_challenge() {
    let p1 = CompressedRistretto([0u8; 32]);
    let p2 = CompressedRistretto([1u8; 32]);
    let mut t1 = Transcript::new(b"test");
    let mut t2 = Transcript::new(b"test");
    t1.append_points_vector(b"p", &vec![p1, p2]);
    t2.append_points_vector(b"p", &vec![p2, p1]);
    assert_ne!(t1.challenge_scalar(b"c"), t2.challenge_scalar(b"c"));

    let mut t3 = Transcript::new(b"test");
    t3.append_point(b"p", &p1);
    t3.append_point(b"p", &p2);
    let mut t4 = Transcript::new(b"test");
    t4.append_points_vector(b"p", &vec![p1, p2]);
    assert_eq!(t3.challenge_scalar(b"c"), t4.challenge_scalar(b"c"));
}

#[test]
fn minimal_big_endian_bytes() {
    assert_eq!(to_be_bytes_min(0), vec![0]);
    assert_eq!(to_be_bytes_min(5), vec![5]);
    assert_eq!(to_be_bytes_min(256), vec![1, 0]);
    assert_eq!(to_be_bytes_min(0x01_02_03), vec![1, 2, 3]);
}
