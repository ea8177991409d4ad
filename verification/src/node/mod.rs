//! The trie's node model: leaves, suffix trees, extension and internal
//! nodes, each owning a commitment derived from its children.

pub mod ext;
pub mod internal;
pub mod leaf;
pub mod suffix;

pub use ext::ExtensionNode;
pub use internal::{InternalNode, InternalNodeChildren};
pub use leaf::{LeafNode, LowerValue, UpperValue};
pub use suffix::{SuffixTree, SuffixTreeBranch};

use vstd::prelude::*;

use crate::committer::Committer;

verus! {

/// A node that can stand as the child of an internal node: it exposes the
/// scalar encoding of its own commitment for the parent to commit over.
pub trait StemNode<C: Committer>: Sized {
    /// The scalar encoding of this node's commitment.
    spec fn spec_c_field(&self) -> C::Scalar;

    fn get_c_field(&self) -> (r: &C::Scalar)
        ensures
            *r == self.spec_c_field(),
    ;
}

/// A node owning a commitment that is recomputed from its direct children's
/// already-computed scalar encodings.
pub trait CommitNode<C: Committer>: Sized {
    /// This node's commitment, as last computed.
    spec fn spec_c(&self) -> C::Point;

    /// The scalar encoding of this node's commitment, as last computed.
    spec fn spec_commit_field(&self) -> C::Scalar;

    /// The scalar sequence this node's commitment binds.
    spec fn commit_source(&self) -> Seq<C::Scalar>;

    /// Whether the committer is wide enough for this node's children.
    spec fn commit_ready(&self, committer: &C) -> bool;

    /// This node with its commitment and the commitment's scalar encoding
    /// replaced; all other state is kept.
    spec fn with_commitment(&self, c: C::Point, f: C::Scalar) -> Self;

    /// Recomputes the commitment (and its scalar encoding) strictly from
    /// the node's current children; it does not recurse.
    fn compute_c(&mut self, committer: &C)
        requires
            old(self).commit_ready(committer),
        ensures
            final(self).spec_c() == committer.spec_commit(old(self).commit_source()),
            final(self).spec_commit_field() == C::spec_from_point(final(self).spec_c()),
            *final(self) == old(self).with_commitment(
                final(self).spec_c(),
                final(self).spec_commit_field(),
            ),
            final(self).commit_source() == old(self).commit_source(),
            final(self).commit_ready(committer),
    ;

    fn get_c(&self) -> (r: &C::Point)
        ensures
            *r == self.spec_c(),
    ;
}

/// A child of an internal node: either a path-compressed stem (extension
/// node) or a further internal node. Children are owned directly by their
/// parent; there are no back references.
pub enum InnerNode<C: Committer> {
    Extension(ExtensionNode<C>),
    Internal(InternalNode<C, InnerNode<C>>),
}

/// Any node of the trie.
pub enum Node<C: Committer> {
    Empty,
    Leaf(LeafNode<C>),
    Extension(ExtensionNode<C>),
    Internal(InternalNode<C, InnerNode<C>>),
}

impl<C: Committer> StemNode<C> for InnerNode<C> {
    open spec fn spec_c_field(&self) -> C::Scalar {
        match self {
            InnerNode::Extension(e) => e.c_field,
            InnerNode::Internal(n) => n.c_field,
        }
    }

    fn get_c_field(&self) -> (r: &C::Scalar) {
        match self {
            InnerNode::Extension(e) => &e.c_field,
            InnerNode::Internal(n) => &n.c_field,
        }
    }
}

} // verus!
