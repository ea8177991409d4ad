//! Proving schemes: polynomial commitments with evaluation proofs.

pub mod bulletproof;
pub mod polynomial;
pub mod polynomial_lemmas;
pub mod transcript_protocol;

use vstd::prelude::*;

verus! {

/// Largest number of children a committed node may have; the generator set
/// is sized so that commitments and proofs over vectors of this width
/// always have enough bases.
pub const MAX_GENERATORS: usize = 256;

/// Failures distinct from a proof simply not verifying.
#[derive(Clone, Copy, Debug, PartialEq, Eq, Structural)]
pub enum SchemeError {
    /// The commitment bytes do not decode to a group element.
    Decode,
}

/// Whether `x` is a power of two.
pub open spec fn is_pow2(x: int) -> bool
    decreases x,
{
    if x <= 0 {
        false
    } else if x == 1 {
        true
    } else {
        x % 2 == 0 && is_pow2(x / 2)
    }
}

/// The least power of two that is at least `n` (and at least one).
pub open spec fn spec_next_pow2(n: int) -> int
    decreases n,
{
    if n <= 1 {
        1
    } else {
        2 * spec_next_pow2((n + 1) / 2)
    }
}

/// `spec_next_pow2` is a power of two, at least the argument, and below
/// twice a positive argument.
pub proof fn lemma_next_pow2_bounds(n: int)
    ensures
        spec_next_pow2(n) >= 1,
        spec_next_pow2(n) >= n,
        n >= 1 ==> spec_next_pow2(n) <= 2 * n - 1,
        is_pow2(spec_next_pow2(n)),
    decreases n,
{
    if n > 1 {
        lemma_next_pow2_bounds((n + 1) / 2);
    }
}

/// `spec_next_pow2` is monotone.
pub proof fn lemma_next_pow2_mono(a: int, b: int)
    requires
        a <= b,
    ensures
        spec_next_pow2(a) <= spec_next_pow2(b),
    decreases b,
{
    if b > 1 && a > 1 {
        lemma_next_pow2_mono((a + 1) / 2, (b + 1) / 2);
    } else if b > 1 {
        lemma_next_pow2_bounds(b);
    }
}

/// A power of two is its own `spec_next_pow2`.
pub proof fn lemma_next_pow2_fixed(p: int)
    requires
        is_pow2(p),
    ensures
        spec_next_pow2(p) == p,
    decreases p,
{
    if p > 1 {
        assert((p + 1) / 2 == p / 2);
        lemma_next_pow2_fixed(p / 2);
    }
}

/// The least power of two at least `n`, as the padded width of
/// commitments and proofs is computed.
pub fn next_pow2(n: usize) -> (r: usize)
    requires
        n <= 0x4000_0000,
    ensures
        r == spec_next_pow2(n as int),
    decreases n,
{
    proof {
        lemma_next_pow2_bounds(n as int);
    }
    if n <= 1 {
        1
    } else {
        let half = (n + 1) / 2;
        proof {
            lemma_next_pow2_bounds(half as int);
        }
        2 * next_pow2(half)
    }
}

/// A polynomial commitment scheme: it turns a vector of 32-byte child
/// encodings into a commitment, opens the committed polynomial at a
/// position, and verifies such openings.
pub trait ProvingScheme: Sized {
    type Scalar;

    type Commit;

    type Proof;

    type PolynomialPoint;

    /// The generator state is consistent.
    spec fn wf(&self) -> bool;

    /// How many children one commitment may bind with the current
    /// generators.
    spec fn max_children(&self) -> int;

    /// Whether the generator set may still be grown on this machine.
    spec fn can_grow(&self) -> bool;

    /// What the returned commitment looks like for the given children.
    spec fn commit_post(&self, children: Seq<[u8; 32]>, c: Self::Commit) -> bool;

    /// The scalar `from_bytes_to_scalar` assigns to the given bytes.
    spec fn spec_from_bytes(input: Seq<u8>) -> Self::Scalar;

    /// The scalar `from_commitment_to_scalar` assigns to a commitment.
    spec fn spec_from_commitment(c: Self::Commit) -> Self::Scalar;

    /// The bytes `commitment_to_bytes` encodes a commitment as.
    spec fn spec_commitment_bytes(c: Self::Commit) -> Seq<u8>;

    /// The inputs `prove` accepts.
    spec fn prove_req(&self, com: Self::Commit, point: Self::PolynomialPoint) -> bool;

    /// What holds of every proof `prove` returns.
    spec fn prove_post(
        &self,
        com: Self::Commit,
        point: Self::PolynomialPoint,
        proof: Self::Proof,
    ) -> bool;

    /// The outcome of verification: a decode failure, or the check's
    /// boolean result; deterministic in the proof, count and point.
    spec fn spec_verify(
        &self,
        proof: Self::Proof,
        children_count: int,
        point: Self::PolynomialPoint,
    ) -> Result<bool, SchemeError>;

    /// A scheme with a starting set of generators, sized exactly for the
    /// maximum branching factor.
    fn instantiate_generators() -> (r: Self)
        ensures
            r.wf(),
            r.max_children() == MAX_GENERATORS,
    ;

    /// Grows the generator set strictly; existing commitments stay valid,
    /// as generators are append-only.
    fn add_new_generator(&mut self)
        requires
            old(self).wf(),
            old(self).can_grow(),
        ensures
            final(self).wf(),
            final(self).max_children() > old(self).max_children(),
    ;

    /// The commitment for the given children's 32-byte encodings.
    fn compute_commitment(&self, children: &Vec<[u8; 32]>) -> (c: Self::Commit)
        requires
            self.wf(),
            children@.len() <= self.max_children(),
        ensures
            self.commit_post(children@, c),
    ;

    /// Injects raw bytes into the scalar field; the caller keeps the input
    /// short enough that the field cannot wrap it ambiguously.
    fn from_bytes_to_scalar(input: &[u8]) -> (r: Self::Scalar)
        requires
            input@.len() <= 32,
        ensures
            r == Self::spec_from_bytes(input@),
    ;

    /// Re-expresses a commitment as a scalar, for upward composition.
    fn from_commitment_to_scalar(input: &Self::Commit) -> (r: Self::Scalar)
        ensures
            r == Self::spec_from_commitment(*input),
    ;

    /// The commitment's canonical 32-byte encoding.
    fn commitment_to_bytes(com: Self::Commit) -> (r: [u8; 32])
        ensures
            r@ == Self::spec_commitment_bytes(com),
    ;

    /// Opens the committed polynomial at the given position.
    fn prove(&self, com: &Self::Commit, polynomial_point: &Self::PolynomialPoint) -> (r:
        Self::Proof)
        requires
            self.wf(),
            self.prove_req(*com, *polynomial_point),
        ensures
            self.prove_post(*com, *polynomial_point, r),
    ;

    /// Checks an opening against the padded width that `children_count`
    /// implies; a commitment that does not decode is a decode error, a
    /// failed check is `Ok(false)`.
    fn verify(
        &self,
        proof: &Self::Proof,
        children_count: usize,
        polynomial_point: &Self::PolynomialPoint,
    ) -> (r: Result<bool, SchemeError>)
        requires
            self.wf(),
            children_count <= self.max_children(),
        ensures
            r == self.spec_verify(*proof, children_count as int, *polynomial_point),
    ;
}

} // verus!
