//! The vector-commitment boundary the node model is built against.

use vstd::prelude::*;

verus! {

/// A vector commitment: binds a sequence of scalars into a single group
/// element, re-expresses group elements and raw bytes as scalars so that
/// commitments can feed parent commitments, and knows how many scalars one
/// commitment may bind before its generator set must be grown.
pub trait Committer: Sized {
    type Point;

    type Scalar: Copy;

    /// The scalar that `from_bytes_to_scalar` assigns to the given bytes.
    spec fn spec_from_bytes(input: Seq<u8>) -> Self::Scalar;

    /// The scalar that `from_point_to_scalar` assigns to the given point.
    spec fn spec_from_point(p: Self::Point) -> Self::Scalar;

    /// The commitment this committer assigns to a scalar sequence.
    spec fn spec_commit(&self, input: Seq<Self::Scalar>) -> Self::Point;

    /// How many scalars one commitment may bind with the current generators.
    spec fn max_width(&self) -> int;

    /// Injects raw bytes into the scalar field; the caller keeps the input
    /// short enough that the field cannot wrap it ambiguously.
    fn from_bytes_to_scalar(input: &[u8]) -> (r: Self::Scalar)
        requires
            input@.len() <= 32,
        ensures
            r == Self::spec_from_bytes(input@),
    ;

    /// Re-expresses a commitment as a scalar, for embedding in a parent
    /// commitment.
    fn from_point_to_scalar(p: &Self::Point) -> (r: Self::Scalar)
        ensures
            r == Self::spec_from_point(*p),
    ;

    /// The vector commitment itself: deterministic in the scalar sequence
    /// and the committer's generator state.
    fn commit(&self, input: Vec<Self::Scalar>) -> (c: Self::Point)
        requires
            input@.len() <= self.max_width(),
        ensures
            c == self.spec_commit(input@),
    ;
}

} // verus!
