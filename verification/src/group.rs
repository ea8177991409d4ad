//! Ristretto group layer: the commitment scheme's group elements and the
//! generator chain, behind named operations of the outside crate.

use vstd::prelude::*;

verus! {

use curve25519_dalek::ristretto::CompressedRistretto;
use curve25519_dalek::ristretto::RistrettoPoint;
use curve25519_dalek::scalar::Scalar;
use curve25519_dalek::traits::MultiscalarMul;

#[verifier::external_type_specification]
#[verifier::external_body]
pub struct ExRistrettoPoint(RistrettoPoint);

#[verifier::external_type_specification]
#[verifier::external_body]
pub struct ExCompressedRistretto(CompressedRistretto);

/// What `RistrettoPoint::multiscalar_mul` returns on equally long scalar
/// and point sequences.
pub uninterp spec fn msm_of(scalars: Seq<Scalar>, points: Seq<RistrettoPoint>) -> RistrettoPoint;

/// What `RistrettoPoint` addition returns.
pub uninterp spec fn p_add_of(a: RistrettoPoint, b: RistrettoPoint) -> RistrettoPoint;

/// What scalar-point multiplication returns.
pub uninterp spec fn p_mul_of(s: Scalar, p: RistrettoPoint) -> RistrettoPoint;

/// What multiplying the Ristretto basepoint by a scalar returns.
pub uninterp spec fn base_mul_of(s: Scalar) -> RistrettoPoint;

/// What `RistrettoPoint::compress` returns.
pub uninterp spec fn compress_of(p: RistrettoPoint) -> CompressedRistretto;

/// What `CompressedRistretto::decompress` returns.
pub uninterp spec fn decompress_of(c: CompressedRistretto) -> Option<RistrettoPoint>;

/// What `CompressedRistretto::to_bytes` returns.
pub uninterp spec fn cr_bytes_of(c: CompressedRistretto) -> Seq<u8>;

/// The first `n` elements of the deterministic generator chain that
/// `BulletproofGens` derives; the chain is append-only, so shorter
/// prefixes are prefixes of longer ones.
pub uninterp spec fn bp_generators(n: int) -> Seq<RistrettoPoint>;

/// Relies on `RistrettoPoint::multiscalar_mul`: the sum of each scalar
/// times its point, a function of the two sequences alone.
#[verifier::external_body]
pub fn multiscalar_mul(scalars: &Vec<Scalar>, points: &Vec<RistrettoPoint>) -> (r: RistrettoPoint)
    requires
        scalars@.len() == points@.len(),
    ensures
        r == msm_of(scalars@, points@),
{
    RistrettoPoint::multiscalar_mul(scalars.iter(), points.iter())
}

/// Relies on `RistrettoPoint`'s `Add` impl: the group operation.
#[verifier::external_body]
pub fn point_add(a: &RistrettoPoint, b: &RistrettoPoint) -> (r: RistrettoPoint)
    ensures
        r == p_add_of(*a, *b),
{
    a + b
}

/// Relies on `RistrettoPoint`'s `Mul<Scalar>` impl: scalar multiplication.
#[verifier::external_body]
pub fn point_mul(s: &Scalar, p: &RistrettoPoint) -> (r: RistrettoPoint)
    ensures
        r == p_mul_of(*s, *p),
{
    s * p
}

/// Relies on `RISTRETTO_BASEPOINT_POINT` and scalar multiplication: the
/// fixed basepoint times the given scalar.
#[verifier::external_body]
pub fn basepoint_mul(s: &Scalar) -> (r: RistrettoPoint)
    ensures
        r == base_mul_of(*s),
{
    s * curve25519_dalek::constants::RISTRETTO_BASEPOINT_POINT
}

/// Relies on `RistrettoPoint::compress`, the canonical 32-byte encoding;
/// `decompress` is documented to invert it.
#[verifier::external_body]
pub fn point_compress(p: &RistrettoPoint) -> (c: CompressedRistretto)
    ensures
        c == compress_of(*p),
        decompress_of(c) == Some(*p),
{
    p.compress()
}

/// Relies on `CompressedRistretto::decompress`: `Some` exactly on valid
/// canonical encodings, a function of the bytes alone.
#[verifier::external_body]
pub fn point_decompress(c: &CompressedRistretto) -> (r: Option<RistrettoPoint>)
    ensures
        r == decompress_of(*c),
{
    c.decompress()
}

/// Relies on `CompressedRistretto::to_bytes`: the 32 encoded bytes. A
/// compressed point is exactly its 32 bytes, so two points with the same
/// bytes are the same point and the encoding loses nothing.
#[verifier::external_body]
pub fn compressed_to_bytes(c: &CompressedRistretto) -> (b: [u8; 32])
    ensures
        b@ == cr_bytes_of(*c),
        b@.len() == 32,
        forall|d: CompressedRistretto| cr_bytes_of(d) == b@ ==> d == *c,
{
    c.to_bytes()
}

/// Relies on `BulletproofGens::new` and its `share(0).G(n)` view: the first
/// `n` points of the deterministic, append-only `GeneratorsChain`, so any
/// shorter request returns a prefix of any longer one.
#[verifier::external_body]
pub fn fetch_generators(n: usize) -> (g: Vec<RistrettoPoint>)
    ensures
        g@ == bp_generators(n as int),
        g@.len() == n,
        forall|m: int| 0 <= m <= n ==> bp_generators(m) == g@.take(m),
{
    let gens = bulletproofs::BulletproofGens::new(n, 1);
    gens.share(0).G(n).cloned().collect()
}

/// The first `n` generators out of an already fetched vector.
pub fn generators_prefix(gens: &Vec<RistrettoPoint>, n: usize) -> (r: Vec<RistrettoPoint>)
    requires
        n <= gens@.len(),
    ensures
        r@ == gens@.take(n as int),
{
    let mut out: Vec<RistrettoPoint> = Vec::new();
    let mut i: usize = 0;
    while i < n
        invariant
            i <= n,
            n <= gens@.len(),
            out@.len() == i,
            forall|k: int| 0 <= k < i ==> out@[k] == gens@[k],
        decreases n - i,
    {
        let p = point_copy(&gens[i]);
        out.push(p);
        i = i + 1;
    }
    proof {
        assert(out@ =~= gens@.take(n as int));
    }
    out
}

/// Relies on `RistrettoPoint` being `Copy`: hands back the same point.
#[verifier::external_body]
pub fn point_copy(p: &RistrettoPoint) -> (r: RistrettoPoint)
    ensures
        r == *p,
{
    *p
}

} // verus!
