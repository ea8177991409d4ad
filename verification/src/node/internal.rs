//! Internal nodes: up to the branching factor of children, committed over
//! the scalar encodings of the children's commitments.

use vstd::prelude::*;

use crate::committer::Committer;
use crate::node::{CommitNode, StemNode};
use crate::BRANCHING_FACTOR_WIDTH;

verus! {

/// The scalar encodings of a child sequence's commitments, in child order.
pub open spec fn children_scalars<C: Committer, S: StemNode<C>>(s: Seq<S>) -> Seq<C::Scalar> {
    Seq::new(s.len(), |i: int| s[i].spec_c_field())
}

/// The ordered children of an internal node, at most the branching factor
/// of them.
pub struct InternalNodeChildren<C: Committer, S: StemNode<C>>(pub Vec<S>, pub core::marker::PhantomData<C>);

impl<C: Committer, S: StemNode<C>> InternalNodeChildren<C, S> {
    /// No children yet.
    pub fn empty() -> (r: InternalNodeChildren<C, S>)
        ensures
            r.0@.len() == 0,
    {
        InternalNodeChildren(Vec::new(), core::marker::PhantomData)
    }

    /// Appends a child; the node must still have room, as a node never
    /// holds more than the branching factor of children.
    pub fn add(&mut self, child: S)
        requires
            old(self).0@.len() < BRANCHING_FACTOR_WIDTH,
        ensures
            final(self).0@ == old(self).0@.push(child),
    {
        self.0.push(child);
    }

    /// The scalar encodings of the children's commitments, in order.
    pub fn as_scalars(&self) -> (r: Vec<C::Scalar>)
        ensures
            r@ == children_scalars(self.0@),
    {
        let mut out: Vec<C::Scalar> = Vec::new();
        let mut i: usize = 0;
        while i < self.0.len()
            invariant
                i <= self.0@.len(),
                out@.len() == i,
                forall|k: int| 0 <= k < i ==> out@[k] == self.0@[k].spec_c_field(),
            decreases self.0@.len() - i,
        {
            let f = self.0[i].get_c_field();
            out.push(*f);
            i = i + 1;
        }
        proof {
            assert(out@ =~= children_scalars(self.0@));
        }
        out
    }
}

/// An internal node: its index under its parent, its cached commitment and
/// scalar encoding, and its children.
pub struct InternalNode<C: Committer, S: StemNode<C>> {
    pub index: u8,
    pub c: C::Point,
    pub c_field: C::Scalar,
    pub children: InternalNodeChildren<C, S>,
}

impl<C: Committer, S: StemNode<C>> InternalNode<C, S> {
    /// An internal node with no children, with its commitment computed.
    pub fn new(index: u8, committer: &C) -> (r: InternalNode<C, S>)
        requires
            committer.max_width() >= 0,
        ensures
            r.index == index,
            r.children.0@.len() == 0,
            r.spec_c() == committer.spec_commit(r.commit_source()),
            r.spec_commit_field() == C::spec_from_point(r.spec_c()),
    {
        let children = InternalNodeChildren::empty();
        let c = committer.commit(children.as_scalars());
        let c_field = C::from_point_to_scalar(&c);
        proof {
            assert(children_scalars::<C, S>(children.0@) =~= Seq::<C::Scalar>::empty());
        }
        InternalNode { index, c, c_field, children }
    }
}

impl<C: Committer, S: StemNode<C>> StemNode<C> for InternalNode<C, S> {
    open spec fn spec_c_field(&self) -> C::Scalar {
        self.c_field
    }

    fn get_c_field(&self) -> (r: &C::Scalar) {
        &self.c_field
    }
}

impl<C: Committer, S: StemNode<C>> CommitNode<C> for InternalNode<C, S> {
    open spec fn spec_c(&self) -> C::Point {
        self.c
    }

    open spec fn spec_commit_field(&self) -> C::Scalar {
        self.c_field
    }

    open spec fn commit_source(&self) -> Seq<C::Scalar> {
        children_scalars(self.children.0@)
    }

    open spec fn commit_ready(&self, committer: &C) -> bool {
        self.children.0@.len() <= committer.max_width()
    }

    open spec fn with_commitment(&self, c: C::Point, f: C::Scalar) -> InternalNode<C, S> {
        InternalNode { index: self.index, c, c_field: f, children: self.children }
    }

    fn compute_c(&mut self, committer: &C) {
        self.c = committer.commit(self.children.as_scalars());
        self.c_field = C::from_point_to_scalar(&self.c);
    }

    fn get_c(&self) -> (r: &C::Point) {
        &self.c
    }
}

} // verus!
