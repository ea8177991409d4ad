//! The Bulletproofs-backed proving scheme: Lagrange interpolation of the
//! children, a multiscalar-multiplication commitment over the generator
//! chain, and a linear (inner-product) argument that the committed
//! polynomial evaluates to the claimed value at a public position.

use vstd::prelude::*;

use crate::committer::Committer;
use crate::field::{
    s_from_u128, s_mod_order, s_mul, s_one, s_wide, s_zero, scalar_field_laws,
    scalar_from_bytes_mod_order, scalar_from_bytes_wide, scalar_from_u128, scalar_mul,
    scalar_one, scalar_zero,
};
use crate::group::{
    base_mul_of, basepoint_mul, bp_generators, compress_of, compressed_to_bytes, cr_bytes_of,
    decompress_of, fetch_generators, generators_prefix, msm_of, multiscalar_mul, p_add_of,
    p_mul_of, point_add, point_compress, point_decompress, point_mul,
};
use crate::proving_schemes::polynomial::{padded_to, poly_eval, Polynomial};
use crate::proving_schemes::polynomial_lemmas::{lemma_eval_append_zeros, lemma_interpolation_unique};
use crate::proving_schemes::transcript_protocol::{challenged, fresh_transcript};
use crate::proving_schemes::{
    is_pow2, lemma_next_pow2_bounds, lemma_next_pow2_fixed, lemma_next_pow2_mono, next_pow2,
    spec_next_pow2, ProvingScheme, SchemeError, MAX_GENERATORS,
};

verus! {

use bulletproofs::LinearProof;
use curve25519_dalek::ristretto::CompressedRistretto;
use curve25519_dalek::ristretto::RistrettoPoint;
use curve25519_dalek::scalar::Scalar;
use merlin::Transcript;

#[verifier::external_type_specification]
#[verifier::external_body]
pub struct ExLinearProof(LinearProof);

/// What `LinearProof::verify` decides: deterministic in the proof, the
/// transcript state, the commitment, the generators, the two Pedersen
/// bases and the public vector.
pub uninterp spec fn linear_verifies(
    p: LinearProof,
    t: Transcript,
    c: CompressedRistretto,
    g: Seq<RistrettoPoint>,
    f: RistrettoPoint,
    blind: RistrettoPoint,
    b: Seq<Scalar>,
) -> bool;

/// Relies on `LinearProof::create`: proves `<a, b> = c` for the committed
/// `a` and public `b`. The proof carries fresh random blindings, so
/// nothing is promised of the returned value itself; but the crate's only
/// error paths are its length and power-of-two checks, so on vectors of
/// one power-of-two length a proof always comes back.
#[verifier::external_body]
fn linear_proof_create(
    t: &mut Transcript,
    c: &CompressedRistretto,
    blinding: Scalar,
    a: Vec<Scalar>,
    b: Vec<Scalar>,
    g: Vec<RistrettoPoint>,
    f: &RistrettoPoint,
    blind: &RistrettoPoint,
) -> (r: Option<LinearProof>)
    ensures
        (a@.len() == b@.len() && b@.len() == g@.len() && is_pow2(b@.len() as int)) ==> r
            is Some,
{
    let mut rng = rand_core::OsRng;
    LinearProof::create(t, &mut rng, c, blinding, a, b, g, f, blind).ok()
}

/// Relies on `LinearProof::verify`: checks the folding argument against
/// the commitment and public vector; any failure, including generators of
/// the wrong length or points inside the proof that do not decode, is
/// reported as false.
#[verifier::external_body]
fn linear_proof_verify(
    p: &LinearProof,
    t: &mut Transcript,
    c: &CompressedRistretto,
    g: &Vec<RistrettoPoint>,
    f: &RistrettoPoint,
    blind: &RistrettoPoint,
    b: Vec<Scalar>,
) -> (r: bool)
    ensures
        r == linear_verifies(*p, *old(t), *c, g@, *f, *blind, b@),
{
    p.verify(t, c, &g[..], f, blind, b).is_ok()
}

/// `x` to the power `i` in the scalar field.
pub open spec fn s_pow(x: Scalar, i: int) -> Scalar
    decreases i,
{
    if i <= 0 {
        s_one()
    } else {
        s_mul(s_pow(x, i - 1), x)
    }
}

/// The first `n` powers of `x`: one, `x`, `x^2`, and so on.
pub open spec fn powers_of(x: Scalar, n: int) -> Seq<Scalar> {
    Seq::new(n as nat, |i: int| s_pow(x, i))
}

/// `bs` extended with zero bytes to 32 bytes.
pub open spec fn pad32(bs: Seq<u8>) -> Seq<u8> {
    Seq::new(
        32,
        |i: int|
            if i < bs.len() {
                bs[i]
            } else {
                0u8
            },
    )
}

/// The scalar the committed polynomial must take at padded position `i`:
/// the child's encoding below the children count, zero in the padding.
pub open spec fn eval_target(children: Seq<[u8; 32]>, i: int) -> Scalar {
    if i < children.len() {
        s_mod_order(children[i]@)
    } else {
        s_zero()
    }
}

/// The transcript domain label of the evaluation argument: the bytes of
/// `"InnerProductNode"`.
pub open spec fn ipa_label() -> Seq<u8> {
    seq![
        73u8,
        110u8,
        110u8,
        101u8,
        114u8,
        80u8,
        114u8,
        111u8,
        100u8,
        117u8,
        99u8,
        116u8,
        78u8,
        111u8,
        100u8,
        101u8,
    ]
}

/// The label of the `w` challenge: the bytes of `"w"`.
pub open spec fn w_label() -> Seq<u8> {
    seq![119u8]
}

/// Relies on `Transcript::new`, seeded with the fixed domain label
/// `"InnerProductNode"` whose bytes [`ipa_label`] spells out.
#[verifier::external_body]
fn ipa_transcript_new() -> (t: Transcript)
    ensures
        t == fresh_transcript(ipa_label()),
{
    Transcript::new(b"InnerProductNode")
}

/// Relies on `Transcript::challenge_bytes` under the fixed label `"w"`
/// (the byte [`w_label`] spells out), with a 64-byte buffer.
#[verifier::external_body]
fn ipa_challenge_w(t: &mut Transcript) -> (r: [u8; 64])
    ensures
        (*final(t), r@) == challenged(*old(t), w_label()),
{
    let mut buf = [0u8; 64];
    t.challenge_bytes(b"w", &mut buf);
    buf
}

/// The transcript state after the domain separation and the `w` challenge.
pub open spec fn ipa_transcript() -> Transcript {
    challenged(fresh_transcript(ipa_label()), w_label()).0
}

/// The base point `Q = w * BasePoint` both sides derive from the
/// transcript challenge `w`.
pub open spec fn ipa_base() -> RistrettoPoint {
    base_mul_of(s_wide(challenged(fresh_transcript(ipa_label()), w_label()).1))
}

/// The evaluation proof: the folding argument (absent when the outside
/// prover refused the shape), the commitment it opens, and the claimed
/// evaluation.
pub struct InnerProduct {
    pub proof: Option<LinearProof>,
    pub com: CompressedRistretto,
    pub value: Scalar,
}

/// The proving scheme over the Ristretto group: generators from the
/// deterministic chain, split into a G half for the committed vector and
/// an H half whose first element blinds the linear argument.
pub struct BulletproofPS {
    pub gens: Vec<RistrettoPoint>,
}

impl BulletproofPS {
    /// The generators are the prefix of the deterministic chain, a power
    /// of two of them, at least two and few enough to double.
    pub open spec fn gens_ok(&self) -> bool {
        &&& self.gens@ == bp_generators(self.gens@.len() as int)
        &&& is_pow2(self.gens@.len() as int)
        &&& 2 <= self.gens@.len() <= 0x4000_0000
    }
}

/// A prefix of the deterministic generator chain, padded to a power of
/// two, as the scheme's generator sets are always sized.
pub fn create_gens(gens_capacity: usize) -> (r: Vec<RistrettoPoint>)
    requires
        gens_capacity <= 0x4000_0000,
    ensures
        r@ == bp_generators(spec_next_pow2(gens_capacity as int)),
        r@.len() == spec_next_pow2(gens_capacity as int),
        is_pow2(r@.len() as int),
    decreases gens_capacity,
{
    let padded_length = next_pow2(gens_capacity);
    proof {
        lemma_next_pow2_bounds(gens_capacity as int);
    }
    fetch_generators(padded_length)
}

/// One position/value point of the committed polynomial: the position as
/// a field element, and the 32-byte value reduced into the field.
pub fn create_scalar_polynomial_point(position: u128, evaluation: [u8; 32]) -> (r: (
    Scalar,
    Scalar,
))
    ensures
        r.0 == s_from_u128(position),
        r.1 == s_mod_order(evaluation@),
{
    (scalar_from_u128(position), scalar_from_bytes_mod_order(evaluation))
}

/// Pads a point list with zero evaluations at the following positions, up
/// to the next power of two, as the folding argument needs such a width.
pub fn padding_scalar_polynomial_points(scalar_polynomial_points: &Vec<(Scalar, Scalar)>) -> (r:
    Vec<(Scalar, Scalar)>)
    requires
        scalar_polynomial_points@.len() <= 0x4000_0000,
    ensures
        r@.len() == spec_next_pow2(scalar_polynomial_points@.len() as int),
        forall|i: int|
            0 <= i < r@.len() ==> r@[i] == (if i < scalar_polynomial_points@.len() {
                scalar_polynomial_points@[i]
            } else {
                (s_from_u128(i as u128), s_zero())
            }),
{
    let k = scalar_polynomial_points.len();
    let m = next_pow2(k);
    proof {
        lemma_next_pow2_bounds(k as int);
    }
    let zero = scalar_zero();
    let mut out: Vec<(Scalar, Scalar)> = Vec::new();
    let mut i: usize = 0;
    while i < k
        invariant
            i <= k,
            k == scalar_polynomial_points@.len(),
            out@.len() == i,
            forall|j: int| 0 <= j < i ==> out@[j] == scalar_polynomial_points@[j],
        decreases k - i,
    {
        out.push((scalar_polynomial_points[i].0, scalar_polynomial_points[i].1));
        i = i + 1;
    }
    while i < m
        invariant
            k <= i <= m,
            k == scalar_polynomial_points@.len(),
            zero == s_zero(),
            out@.len() == i,
            forall|j: int| 0 <= j < k ==> out@[j] == scalar_polynomial_points@[j],
            forall|j: int| k <= j < i ==> out@[j] == (s_from_u128(j as u128), s_zero()),
        decreases m - i,
    {
        let pos = scalar_from_u128(i as u128);
        out.push((pos, zero));
        i = i + 1;
    }
    out
}

/// The padded position/value points for the given children: each child's
/// encoding at its index, zeros up to the next power of two.
pub fn compute_scalar_polynomial_points(bytes: &Vec<[u8; 32]>) -> (r: Vec<(Scalar, Scalar)>)
    requires
        bytes@.len() <= 0x4000_0000,
    ensures
        r@.len() == spec_next_pow2(bytes@.len() as int),
        forall|i: int|
            0 <= i < r@.len() ==> r@[i] == (s_from_u128(i as u128), eval_target(bytes@, i)),
{
    let mut points: Vec<(Scalar, Scalar)> = Vec::new();
    let mut i: usize = 0;
    while i < bytes.len()
        invariant
            i <= bytes@.len(),
            points@.len() == i,
            forall|j: int|
                0 <= j < i ==> points@[j] == (s_from_u128(j as u128), s_mod_order(bytes@[j]@)),
        decreases bytes@.len() - i,
    {
        let p = create_scalar_polynomial_point(i as u128, bytes[i]);
        points.push(p);
        i = i + 1;
    }
    padding_scalar_polynomial_points(&points)
}

/// Splits a generator vector into its G and H halves, the split point
/// rounding up so that odd lengths during growth transients still work.
pub fn split_gens(gens: &Vec<RistrettoPoint>) -> (r: (Vec<RistrettoPoint>, Vec<RistrettoPoint>))
    requires
        gens@.len() < usize::MAX,
    ensures
        r.0@ == gens@.take(((gens@.len() + 1) / 2) as int),
        r.1@ == gens@.skip(((gens@.len() + 1) / 2) as int),
{
    let half = (gens.len() + 1) / 2;
    let g_vec = generators_prefix(gens, half);
    let mut h_vec: Vec<RistrettoPoint> = Vec::new();
    let mut i: usize = half;
    while i < gens.len()
        invariant
            half <= i <= gens@.len(),
            h_vec@.len() == i - half,
            forall|k: int| 0 <= k < i - half ==> h_vec@[k] == gens@[half + k],
        decreases gens@.len() - i,
    {
        let p = crate::group::point_copy(&gens[i]);
        h_vec.push(p);
        i = i + 1;
    }
    proof {
        assert(h_vec@ =~= gens@.skip(half as int));
    }
    (g_vec, h_vec)
}

/// The vector `b` of the inner-product statement: successive powers of
/// the position, as a field element.
pub fn compute_b_vec(length: usize, position: u128) -> (r: Vec<Scalar>)
    ensures
        r@ == powers_of(s_from_u128(position), length as int),
{
    let x = scalar_from_u128(position);
    let mut acc = scalar_one();
    let mut out: Vec<Scalar> = Vec::new();
    let mut i: usize = 0;
    while i < length
        invariant
            i <= length,
            x == s_from_u128(position),
            acc == s_pow(x, i as int),
            out@.len() == i,
            forall|k: int| 0 <= k < i ==> out@[k] == s_pow(x, k),
        decreases length - i,
    {
        out.push(acc);
        acc = scalar_mul(acc, x);
        i = i + 1;
    }
    proof {
        assert(out@ =~= powers_of(s_from_u128(position), length as int));
    }
    out
}

/// A copy of a scalar vector; `Scalar` is a plain 32-byte value.
fn scalars_copy(v: &Vec<Scalar>) -> (r: Vec<Scalar>)
    ensures
        r@ == v@,
{
    let mut out: Vec<Scalar> = Vec::new();
    let mut i: usize = 0;
    while i < v.len()
        invariant
            i <= v@.len(),
            out@.len() == i,
            forall|k: int| 0 <= k < i ==> out@[k] == v@[k],
        decreases v@.len() - i,
    {
        out.push(v[i]);
        i = i + 1;
    }
    proof {
        assert(out@ =~= v@);
    }
    out
}

impl ProvingScheme for BulletproofPS {
    type Scalar = Scalar;

    type Commit = (Polynomial, CompressedRistretto);

    type Proof = InnerProduct;

    type PolynomialPoint = (u128, [u8; 32]);

    open spec fn wf(&self) -> bool {
        self.gens_ok()
    }

    open spec fn max_children(&self) -> int {
        self.gens@.len() as int / 2
    }

    open spec fn can_grow(&self) -> bool {
        self.gens@.len() < 0x2000_0000
    }

    open spec fn commit_post(
        &self,
        children: Seq<[u8; 32]>,
        c: (Polynomial, CompressedRistretto),
    ) -> bool {
        let m = spec_next_pow2(children.len() as int);
        &&& c.0@.len() == m
        &&& forall|i: int|
            0 <= i < m ==> poly_eval(c.0@, s_from_u128(i as u128)) == eval_target(children, i)
        &&& c.1 == compress_of(
            msm_of(c.0@, bp_generators(self.gens@.len() as int).take(m)),
        )
    }

    open spec fn spec_from_bytes(input: Seq<u8>) -> Scalar {
        s_mod_order(pad32(input))
    }

    open spec fn spec_from_commitment(c: (Polynomial, CompressedRistretto)) -> Scalar {
        s_mod_order(cr_bytes_of(c.1))
    }

    open spec fn spec_commitment_bytes(c: (Polynomial, CompressedRistretto)) -> Seq<u8> {
        cr_bytes_of(c.1)
    }

    open spec fn prove_req(
        &self,
        com: (Polynomial, CompressedRistretto),
        point: (u128, [u8; 32]),
    ) -> bool {
        &&& com.0@.len() >= 1
        &&& is_pow2(com.0@.len() as int)
        &&& 2 * com.0@.len() <= self.gens@.len()
    }

    open spec fn prove_post(
        &self,
        com: (Polynomial, CompressedRistretto),
        point: (u128, [u8; 32]),
        proof: InnerProduct,
    ) -> bool {
        &&& proof.proof is Some
        &&& proof.com == compress_of(
            msm_of(com.0@, bp_generators(self.gens@.len() as int).take(com.0@.len() as int)),
        )
        &&& proof.value == poly_eval(com.0@, s_from_u128(point.0))
    }

    open spec fn spec_verify(
        &self,
        proof: InnerProduct,
        children_count: int,
        point: (u128, [u8; 32]),
    ) -> Result<bool, SchemeError> {
        let glen = self.gens@.len() as int;
        let n = spec_next_pow2(children_count);
        match decompress_of(proof.com) {
            Option::None => Result::Err(SchemeError::Decode),
            Option::Some(a_com) => match proof.proof {
                Option::None => Result::Ok(false),
                Option::Some(lp) => Result::Ok(
                    linear_verifies(
                        lp,
                        ipa_transcript(),
                        compress_of(p_add_of(a_com, p_mul_of(proof.value, ipa_base()))),
                        bp_generators(glen).take(n),
                        ipa_base(),
                        bp_generators(glen)[glen / 2],
                        powers_of(s_from_u128(point.0), n),
                    ),
                ),
            },
        }
    }

    fn instantiate_generators() -> (r: BulletproofPS) {
        let gens = create_gens(2 * MAX_GENERATORS);
        proof {
            reveal_with_fuel(is_pow2, 12);
            lemma_next_pow2_fixed(512);
        }
        BulletproofPS { gens }
    }

    fn add_new_generator(&mut self) {
        let ghost glen = self.gens@.len() as int;
        let grown = create_gens(self.gens.len() + 1);
        proof {
            lemma_next_pow2_bounds(glen + 1);
            lemma_half_pow2(glen);
            // the grown set is a power of two above an even length, so it
            // clears the old length by at least two and the width grows
            let np = spec_next_pow2(glen + 1);
            assert(np % 2 == 0);
            assert(np >= glen + 2);
        }
        self.gens = grown;
    }

    fn compute_commitment(&self, children: &Vec<[u8; 32]>) -> (c: (
        Polynomial,
        CompressedRistretto,
    )) {
        let ghost glen = self.gens@.len() as int;
        let k = children.len();
        proof {
            lemma_half_pow2(glen);
            lemma_next_pow2_mono(k as int, glen / 2);
            lemma_next_pow2_fixed(glen / 2);
            lemma_next_pow2_bounds(k as int);
        }
        let zero = scalar_zero();
        proof {
            assert(scalar_field_laws());
        }
        let points = compute_scalar_polynomial_points(children);
        let m = points.len();
        proof {
            assert forall|i1: int, j1: int| 0 <= i1 < j1 < points@.len() implies points@[i1].0
                != points@[j1].0 by {
                reveal(scalar_field_laws);
                assert(points@[i1].0 == s_from_u128(i1 as u128));
                assert(points@[j1].0 == s_from_u128(j1 as u128));
                assert(i1 as u128 != j1 as u128);
            }
            assert(points@.len() + 2 <= usize::MAX);
        }
        let mut polynomial = Polynomial::lagrange(&points);
        let ghost stripped = polynomial@;
        while polynomial.0.len() < m
            invariant
                zero == s_zero(),
                1 <= polynomial@.len() <= m,
                polynomial@ == padded_to(stripped, polynomial@.len() as int),
                stripped.len() <= polynomial@.len(),
            decreases m - polynomial@.len(),
        {
            polynomial.0.push(zero);
            proof {
                assert(polynomial@ =~= padded_to(stripped, polynomial@.len() as int));
            }
        }
        proof {
            assert forall|i: int| 0 <= i < m implies poly_eval(
                polynomial@,
                s_from_u128(i as u128),
            ) == eval_target(children@, i) by {
                assert(points@[i].0 == s_from_u128(i as u128));
                assert(points@[i].1 == eval_target(children@, i));
                assert(poly_eval(stripped, points@[i].0) == points@[i].1);
                if stripped.len() < m {
                    let zs = Seq::new((m - stripped.len()) as nat, |j: int| s_zero());
                    assert(polynomial@ == stripped + zs);
                    lemma_eval_append_zeros(stripped, zs, s_from_u128(i as u128));
                }
            }
        }
        let g = generators_prefix(&self.gens, m);
        proof {
            assert(g@ =~= bp_generators(glen).take(m as int));
        }
        let commitment = point_compress(&multiscalar_mul(&polynomial.0, &g));
        (polynomial, commitment)
    }

    fn from_bytes_to_scalar(input: &[u8]) -> (r: Scalar) {
        let mut buf: [u8; 32] = [0u8; 32];
        let mut i: usize = 0;
        while i < input.len()
            invariant
                i <= input@.len(),
                input@.len() <= 32,
                buf@.len() == 32,
                forall|k: int| 0 <= k < i ==> buf@[k] == input@[k],
                forall|k: int| i <= k < 32 ==> buf@[k] == 0u8,
            decreases input@.len() - i,
        {
            buf[i] = input[i];
            i = i + 1;
        }
        proof {
            assert(buf@ =~= pad32(input@));
        }
        scalar_from_bytes_mod_order(buf)
    }

    fn from_commitment_to_scalar(input: &(Polynomial, CompressedRistretto)) -> (r: Scalar) {
        let bytes = compressed_to_bytes(&input.1);
        scalar_from_bytes_mod_order(bytes)
    }

    fn commitment_to_bytes(com: (Polynomial, CompressedRistretto)) -> (r: [u8; 32]) {
        compressed_to_bytes(&com.1)
    }

    fn prove(&self, com: &(Polynomial, CompressedRistretto), polynomial_point: &(
        u128,
        [u8; 32],
    )) -> (r: InnerProduct) {
        let ghost glen = self.gens@.len() as int;
        let n = com.0.0.len();
        let (g_vec, h_vec) = split_gens(&self.gens);
        proof {
            assert(self.gens@.len() as int % 2 == 0 || self.gens@.len() == 1);
            assert(((self.gens@.len() + 1) / 2) as int == glen / 2);
        }
        let g = generators_prefix(&g_vec, n);
        proof {
            assert(g@ =~= bp_generators(glen).take(n as int));
        }
        let b_vec = compute_b_vec(n, polynomial_point.0);
        let x = scalar_from_u128(polynomial_point.0);
        let value = com.0.eval(&x);
        let mut transcript = ipa_transcript_new();
        let wb = ipa_challenge_w(&mut transcript);
        let w = scalar_from_bytes_wide(&wb);
        let f = basepoint_mul(&w);
        let a_com = multiscalar_mul(&com.0.0, &g);
        let proof_com = point_compress(&a_com);
        let fv = point_mul(&value, &f);
        let cprime = point_compress(&point_add(&a_com, &fv));
        let blinding = scalar_zero();
        let a_copy = scalars_copy(&com.0.0);
        let lp = linear_proof_create(
            &mut transcript,
            &cprime,
            blinding,
            a_copy,
            b_vec,
            g,
            &f,
            &h_vec[0],
        );
        InnerProduct { proof: lp, com: proof_com, value }
    }

    fn verify(&self, proof: &InnerProduct, children_count: usize, polynomial_point: &(
        u128,
        [u8; 32],
    )) -> (r: Result<bool, SchemeError>) {
        let ghost glen = self.gens@.len() as int;
        proof {
            lemma_half_pow2(glen);
            lemma_next_pow2_mono(children_count as int, glen / 2);
            lemma_next_pow2_fixed(glen / 2);
            lemma_next_pow2_bounds(children_count as int);
        }
        let n = next_pow2(children_count);
        let (g_vec, h_vec) = split_gens(&self.gens);
        proof {
            assert(((self.gens@.len() + 1) / 2) as int == glen / 2);
        }
        let g = generators_prefix(&g_vec, n);
        proof {
            assert(g@ =~= bp_generators(glen).take(n as int));
            assert(h_vec@[0] == bp_generators(glen)[glen / 2]);
        }
        let b_vec = compute_b_vec(n, polynomial_point.0);
        let mut transcript = ipa_transcript_new();
        let wb = ipa_challenge_w(&mut transcript);
        let w = scalar_from_bytes_wide(&wb);
        let f = basepoint_mul(&w);
        match point_decompress(&proof.com) {
            Option::None => Result::Err(SchemeError::Decode),
            Option::Some(a_com) => match &proof.proof {
                Option::None => Result::Ok(false),
                Option::Some(lp) => {
                    let fv = point_mul(&proof.value, &f);
                    let cprime = point_compress(&point_add(&a_com, &fv));
                    Result::Ok(
                        linear_proof_verify(
                            lp,
                            &mut transcript,
                            &cprime,
                            &g,
                            &f,
                            &h_vec[0],
                            b_vec,
                        ),
                    )
                },
            },
        }
    }
}

/// Half of a power of two at least two is itself a power of two.
pub proof fn lemma_half_pow2(p: int)
    requires
        is_pow2(p),
        p >= 2,
    ensures
        is_pow2(p / 2),
        p % 2 == 0,
{
}

impl Committer for BulletproofPS {
    type Point = CompressedRistretto;

    type Scalar = Scalar;

    open spec fn spec_from_bytes(input: Seq<u8>) -> Scalar {
        s_mod_order(pad32(input))
    }

    open spec fn spec_from_point(p: CompressedRistretto) -> Scalar {
        s_mod_order(cr_bytes_of(p))
    }

    open spec fn spec_commit(&self, input: Seq<Scalar>) -> CompressedRistretto {
        compress_of(
            msm_of(input, bp_generators(self.gens@.len() as int).take(input.len() as int)),
        )
    }

    open spec fn max_width(&self) -> int {
        if self.gens_ok() {
            self.gens@.len() as int
        } else {
            -1
        }
    }

    fn from_bytes_to_scalar(input: &[u8]) -> (r: Scalar) {
        <BulletproofPS as ProvingScheme>::from_bytes_to_scalar(input)
    }

    fn from_point_to_scalar(p: &CompressedRistretto) -> (r: Scalar) {
        let bytes = compressed_to_bytes(p);
        scalar_from_bytes_mod_order(bytes)
    }

    fn commit(&self, input: Vec<Scalar>) -> (c: CompressedRistretto) {
        proof {
            if !self.gens_ok() {
                assert(self.max_width() == -1);
            }
        }
        let g = generators_prefix(&self.gens, input.len());
        proof {
            assert(g@ =~= bp_generators(self.gens@.len() as int).take(input@.len() as int));
        }
        point_compress(&multiscalar_mul(&input, &g))
    }
}

/// Commitment determinism: two schemes with the same generator state
/// assign the same vector commitment to the same scalar sequence.
pub proof fn lemma_committer_deterministic(a: &BulletproofPS, b: &BulletproofPS, v: Seq<Scalar>)
    requires
        a.gens@ == b.gens@,
    ensures
        Committer::spec_commit(a, v) == Committer::spec_commit(b, v),
{
}

/// Commitment determinism through interpolation: with the same generator
/// state and the same children, any two commitments have the same
/// coefficient vector - interpolation at the padded positions is unique -
/// and so the same committed point.
pub proof fn lemma_commitment_deterministic(
    s1: &BulletproofPS,
    s2: &BulletproofPS,
    children: Seq<[u8; 32]>,
    c1: (Polynomial, CompressedRistretto),
    c2: (Polynomial, CompressedRistretto),
)
    requires
        scalar_field_laws(),
        s1.gens@ == s2.gens@,
        children.len() <= 0x4000_0000,
        s1.commit_post(children, c1),
        s2.commit_post(children, c2),
    ensures
        c1.0@ == c2.0@,
        c1.1 == c2.1,
{
    let m = spec_next_pow2(children.len() as int);
    lemma_next_pow2_bounds(children.len() as int);
    let pts = Seq::new(m as nat, |i: int| s_from_u128(i as u128));
    assert forall|i: int, j: int| 0 <= i < j < pts.len() implies pts[i] != pts[j] by {
        reveal(scalar_field_laws);
        assert(m <= 2 * 0x4000_0000);
        assert(i as u128 != j as u128);
    }
    assert forall|i: int| 0 <= i < pts.len() implies poly_eval(c1.0@, pts[i]) == poly_eval(
        c2.0@,
        pts[i],
    ) by {
        assert(poly_eval(c1.0@, s_from_u128(i as u128)) == eval_target(children, i));
        assert(poly_eval(c2.0@, s_from_u128(i as u128)) == eval_target(children, i));
    }
    lemma_interpolation_unique(c1.0@, c2.0@, pts);
}

} // verus!
