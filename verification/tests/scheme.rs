//! Tests of the polynomial and the Bulletproofs-backed proving scheme.

use bulletproofs::LinearProof;
use curve25519_dalek::ristretto::CompressedRistretto;
use curve25519_dalek::scalar::Scalar;

use verkle_trie::proving_schemes::bulletproof::{BulletproofPS, InnerProduct};
use verkle_trie::proving_schemes::polynomial::Polynomial;
use verkle_trie::proving_schemes::{next_pow2, ProvingScheme, SchemeError};

fn generate_bytes() -> Vec<[u8; 32]> {
    vec![
        [
            0x90, 0x76, 0x33, 0xfe, 0x1c, 0x4b, 0x66, 0xa4, 0xa2, 0x8d, 0x2d, 0xd7, 0x67, 0x83,
            0x86, 0xc3, 0x53, 0xd0, 0xde, 0x54, 0x55, 0xd4, 0xfc, 0x9d, 0xe8, 0xef, 0x7a, 0xc3,
            0x1f, 0x35, 0xbb, 0x05,
        ],
        [
            0x6c, 0x33, 0x74, 0xa1, 0x89, 0x4f, 0x62, 0x21, 0x0a, 0xaa, 0x2f, 0xe1, 0x86, 0xa6,
            0xf9, 0x2c, 0xe0, 0xaa, 0x75, 0xc2, 0x77, 0x95, 0x81, 0xc2, 0x95, 0xfc, 0x08, 0x17,
            0x9a, 0x73, 0x94, 0x0c,
        ],
        [
            0xef, 0xd3, 0xf5, 0x5c, 0x1a, 0x63, 0x12, 0x58, 0xd6, 0x9c, 0xf7, 0xa2, 0xde, 0xf9,
            0xde, 0x14, 0x00, 0x00, 0x00, 0x00, 0x00, 0x00, 0x00, 0x00, 0x00, 0x00, 0x00, 0x00,
            0x00, 0x00, 0x00, 0x10,
        ],
    ]
}

fn generate_positions() -> Vec<(Scalar, Scalar)> {
    generate_bytes()
        .iter()
        .enumerate()
        .map(|(position, &evaluation)| {
            (
                Scalar::from(position as u128),
                Scalar::from_bytes_mod_order(evaluation),
            )
        })
        .collect()
}

#[test]
fn correct_polynomial_construction() {
    let bytes = generate_positions();

    let polynomial = Polynomial::lagrange(&bytes);

    assert_eq!(polynomial.eval(&Scalar::from(0_u128)), bytes[0].1);
    assert_eq!(polynomial.eval(&Scalar::from(1_u128)), bytes[1].1);
    assert_eq!(polynomial.eval(&Scalar::from(2_u128)), bytes[2].1);
}

#[test]
fn correct_prove_verification() {
    let scheme = BulletproofPS::instantiate_generators();
    let bytes: Vec<[u8; 32]> = generate_bytes();

    let node = scheme.compute_commitment(&bytes);

    let proof = scheme.prove(&node, &(1, bytes[1]));

    assert!(scheme.verify(&proof, bytes.len(), &(1, bytes[1])).unwrap());
}

#[test]
fn lagrange_round_trip_scattered_positions() {
    let positions: [u128; 5] = [0, 1, 2, 7, 200];
    let values: [u128; 5] = [11, 0, 99999, 5, 1 << 40];
    let points: Vec<(Scalar, Scalar)> = positions
        .iter()
        .zip(values.iter())
        .map(|(&p, &v)| (Scalar::from(p), Scalar::from(v)))
        .collect();

    let polynomial = Polynomial::lagrange(&points);

    for (p, v) in &points {
        assert_eq!(polynomial.eval(p), *v);
    }
    // degree below the number of points
    assert!(polynomial.degree() < points.len());
}

#[test]
fn polynomial_arithmetic_exact_values() {
    // (1 + 2x) * (3 + 4x) == 3 + 10x + 8x^2
    let a = Polynomial::from(&[1, 2]);
    let b = Polynomial::from(&[3, 4]);
    let product = a.mul_poly(&b);
    assert_eq!(*product.get(0).unwrap(), Scalar::from(3u128));
    assert_eq!(*product.get(1).unwrap(), Scalar::from(10u128));
    assert_eq!(*product.get(2).unwrap(), Scalar::from(8u128));
    assert!(product.get(3).is_none());

    // addition and normalization: (1 + x) + (1 - x) == 2
    let mut c = Polynomial::new(vec![Scalar::from(1u128), Scalar::from(1u128)]);
    let d = Polynomial::new(vec![Scalar::from(1u128), -Scalar::from(1u128)]);
    c.add_assign(&d);
    assert_eq!(c.degree(), 0);
    assert_eq!(*c.get(0).unwrap(), Scalar::from(2u128));

    // subtraction to zero
    let mut e = Polynomial::from(&[5, 7]);
    let f = Polynomial::from(&[5, 7]);
    e.sub_assign(&f);
    assert!(e.is_zero());

    // set extends with zeros and normalizes
    let mut g = Polynomial::zero();
    g.set(3, Scalar::from(9u128));
    assert_eq!(g.degree(), 3);
    assert_eq!(*g.get(1).unwrap(), Scalar::from(0u128));
    g.set(3, Scalar::from(0u128));
    assert!(g.is_zero());
}

#[test]
fn multiplication_is_commutative() {
    let a = Polynomial::from(&[1, 2, 5]);
    let b = Polynomial::from(&[7, 3]);
    let ab = a.mul_poly(&b);
    let ba = b.mul_poly(&a);
    for i in 0..4 {
        assert_eq!(ab.get(i).copied(), ba.get(i).copied());
    }
}

#[test]
fn division_exact_and_with_remainder() {
    // (3 + 10x + 8x^2) / (1 + 2x) == (3 + 4x, 0)
    let a = Polynomial::from(&[3, 10, 8]);
    let b = Polynomial::from(&[1, 2]);
    let (q, r) = a.div_poly(&b);
    assert_eq!(*q.get(0).unwrap(), Scalar::from(3u128));
    assert_eq!(*q.get(1).unwrap(), Scalar::from(4u128));
    assert!(r.is_zero());

    // (1 + x^2) / (1 + x): remainder 2, quotient of degree 1
    let c = Polynomial::from(&[1, 0, 1]);
    let d = Polynomial::from(&[1, 1]);
    let (q2, r2) = c.div_poly(&d);
    assert_eq!(r2.degree(), 0);
    assert_eq!(*r2.get(0).unwrap(), Scalar::from(2u128));
    // q2 * d + r2 agrees with c at sample points
    for p in [0u128, 1, 2, 57] {
        let x = Scalar::from(p);
        assert_eq!(c.eval(&x), q2.eval(&x) * d.eval(&x) + r2.eval(&x));
    }

    // dividing by a higher-degree polynomial leaves everything in the
    // remainder
    let e = Polynomial::from(&[1, 2]);
    let f = Polynomial::from(&[1, 1, 1]);
    let (q3, r3) = e.div_poly(&f);
    assert!(q3.is_zero());
    assert_eq!(*r3.get(0).unwrap(), Scalar::from(1u128));
    assert_eq!(*r3.get(1).unwrap(), Scalar::from(2u128));
}

#[test]
fn adding_a_scalar_shifts_the_constant_coefficient() {
    let mut a = Polynomial::from(&[3, 7]);
    a.add_scalar(&Scalar::from(4u128));
    assert_eq!(*a.get(0).unwrap(), Scalar::from(7u128));
    assert_eq!(*a.get(1).unwrap(), Scalar::from(7u128));
}

#[test]
fn scaling_by_zero_collapses() {
    let a = Polynomial::from(&[4, 5, 6]);
    let z = a.mul_scalar(&Scalar::ZERO);
    assert!(z.is_zero());
    let doubled = a.mul_scalar(&Scalar::from(2u128));
    assert_eq!(*doubled.get(2).unwrap(), Scalar::from(12u128));
}

#[test]
fn commitment_determinism() {
    let s1 = BulletproofPS::instantiate_generators();
    let s2 = BulletproofPS::instantiate_generators();
    let bytes = generate_bytes();

    let c1 = s1.compute_commitment(&bytes);
    let c2 = s2.compute_commitment(&bytes);
    assert_eq!(
        BulletproofPS::commitment_to_bytes(c1),
        BulletproofPS::commitment_to_bytes(c2)
    );

    let mut changed = generate_bytes();
    changed[1][0] ^= 1;
    let c3 = s1.compute_commitment(&changed);
    let c1b = s1.compute_commitment(&bytes);
    assert_ne!(
        BulletproofPS::commitment_to_bytes(c1b),
        BulletproofPS::commitment_to_bytes(c3)
    );
}

fn pseudo_random_bytes(seed: u64, n: usize) -> Vec<[u8; 32]> {
    let mut state = seed;
    let mut out = Vec::new();
    for _ in 0..n {
        let mut v = [0u8; 32];
        for b in v.iter_mut().take(16) {
            state = state
                .wrapping_mul(6364136223846793005)
                .wrapping_add(1442695040888963407);
            *b = (state >> 33) as u8;
        }
        out.push(v);
    }
    out
}

#[test]
fn proof_soundness_sampled_polynomials() {
    let scheme = BulletproofPS::instantiate_generators();
    for (seed, n) in [(1u64, 1usize), (2, 2), (3, 3), (4, 5), (5, 8)] {
        let bytes = pseudo_random_bytes(seed, n);
        let com = scheme.compute_commitment(&bytes);
        for position in 0..n {
            let point = (position as u128, bytes[position]);
            let proof = scheme.prove(&com, &point);
            assert_eq!(scheme.verify(&proof, n, &point), Ok(true));
        }
    }
}

#[test]
fn proof_rejection_on_mutation() {
    let scheme = BulletproofPS::instantiate_generators();
    let bytes = generate_bytes();
    let com = scheme.compute_commitment(&bytes);
    let point = (1u128, bytes[1]);
    let proof = scheme.prove(&com, &point);
    assert_eq!(scheme.verify(&proof, bytes.len(), &point), Ok(true));

    // mutating any byte of the folding argument must not verify
    let lp_bytes = proof.proof.as_ref().unwrap().to_bytes();
    for i in 0..lp_bytes.len() {
        let mut mutated = lp_bytes.clone();
        mutated[i] ^= 1;
        if let Ok(lp) = LinearProof::from_bytes(&mutated) {
            let tampered = InnerProduct {
                proof: Some(lp),
                com: proof.com,
                value: proof.value,
            };
            assert_ne!(
                scheme.verify(&tampered, bytes.len(), &point),
                Ok(true),
                "byte {} mutated and still verified",
                i
            );
        }
    }

    // a different claimed value must not verify
    let wrong_value = InnerProduct {
        proof: Some(
            LinearProof::from_bytes(&lp_bytes).unwrap(),
        ),
        com: proof.com,
        value: proof.value + Scalar::ONE,
    };
    assert_ne!(scheme.verify(&wrong_value, bytes.len(), &point), Ok(true));

    // a different children count changes the padded width and fails
    let again = scheme.prove(&com, &point);
    assert_ne!(scheme.verify(&again, bytes.len() + 2, &point), Ok(true));
}

#[test]
fn verify_reports_decode_error_distinctly() {
    let scheme = BulletproofPS::instantiate_generators();
    let bytes = generate_bytes();
    let com = scheme.compute_commitment(&bytes);
    let point = (1u128, bytes[1]);
    let proof = scheme.prove(&com, &point);

    let undecodable = InnerProduct {
        proof: proof.proof,
        com: CompressedRistretto([0xff; 32]),
        value: proof.value,
    };
    assert_eq!(
        scheme.verify(&undecodable, bytes.len(), &point),
        Err(SchemeError::Decode)
    );

    // a missing folding argument fails closed, not with an error
    let missing = InnerProduct {
        proof: None,
        com: proof.com,
        value: proof.value,
    };
    assert_eq!(scheme.verify(&missing, bytes.len(), &point), Ok(false));
}

#[test]
fn claimed_value_is_the_stored_scalar_encoding() {
    let scheme = BulletproofPS::instantiate_generators();
    let bytes = generate_bytes();
    let com = scheme.compute_commitment(&bytes);

    let proof = scheme.prove(&com, &(1, bytes[1]));
    assert_eq!(proof.value, Scalar::from_bytes_mod_order(bytes[1]));
    assert_eq!(scheme.verify(&proof, bytes.len(), &(1, bytes[1])), Ok(true));
}

#[test]
fn generators_grow_and_commitments_stay() {
    let mut scheme = BulletproofPS::instantiate_generators();
    let bytes = generate_bytes();
    let before = BulletproofPS::commitment_to_bytes(scheme.compute_commitment(&bytes));
    let gens_before = scheme.gens.len();
    scheme.add_new_generator();
    assert!(scheme.gens.len() > gens_before);
    let after = BulletproofPS::commitment_to_bytes(scheme.compute_commitment(&bytes));
    assert_eq!(before, after);
}

#[test]
fn next_pow2_exact_values() {
    assert_eq!(next_pow2(0), 1);
    assert_eq!(next_pow2(1), 1);
    assert_eq!(next_pow2(2), 2);
    assert_eq!(next_pow2(3), 4);
    assert_eq!(next_pow2(4), 4);
    assert_eq!(next_pow2(5), 8);
    assert_eq!(next_pow2(256), 256);
    assert_eq!(next_pow2(257), 512);
}

#[test]
fn from_bytes_to_scalar_pads_short_input() {
    let r = <BulletproofPS as ProvingScheme>::from_bytes_to_scalar(&[1]);
    assert_eq!(r, Scalar::from(1u128));
    let r2 = <BulletproofPS as ProvingScheme>::from_bytes_to_scalar(&[0, 1]);
    assert_eq!(r2, Scalar::from(256u128));
}
