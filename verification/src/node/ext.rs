//! Extension ("stem") nodes: a full 31-byte stem over a suffix tree, with
//! the domain-separated commitment `C = Commit(1, stem, C1, C2)`.

use vstd::prelude::*;

use crate::committer::Committer;
use crate::node::suffix::SuffixTree;
use crate::node::{CommitNode, StemNode};
use crate::{KeyStem, BRANCHING_FACTOR_WIDTH};

verus! {

/// An extension node: the stem, its suffix tree, and the cached commitment
/// with its scalar encoding. The leading constant one in the commitment is
/// a domain-separation tag distinguishing stem nodes from other commitment
/// shapes.
pub struct ExtensionNode<C: Committer> {
    pub stem: KeyStem,
    pub stem_field: C::Scalar,
    pub one_field: C::Scalar,
    pub c: C::Point,
    pub c_field: C::Scalar,
    pub suffix_tree: SuffixTree<C>,
}

impl<C: Committer> ExtensionNode<C> {
    /// The cached scalar encodings of the tag and the stem agree with the
    /// stem bytes, and the branches respect their capacity.
    pub open spec fn wf(&self) -> bool {
        &&& self.one_field == C::spec_from_bytes(seq![1u8])
        &&& self.stem_field == C::spec_from_bytes(self.stem@)
        &&& self.suffix_tree.branches_ok()
    }

    /// An extension node over the given suffix tree, with its commitment
    /// computed.
    pub fn new(stem: KeyStem, suffix_tree: SuffixTree<C>, committer: &C) -> (r: ExtensionNode<
        C,
    >)
        requires
            suffix_tree.branches_ok(),
            committer.max_width() >= BRANCHING_FACTOR_WIDTH,
        ensures
            r.wf(),
            r.stem == stem,
            r.suffix_tree == suffix_tree,
            r.spec_c() == committer.spec_commit(r.commit_source()),
            r.spec_commit_field() == C::spec_from_point(r.spec_c()),
    {
        let tag: [u8; 1] = [1u8];
        let one_field = C::from_bytes_to_scalar(tag.as_slice());
        let stem_field = C::from_bytes_to_scalar(stem.as_slice());
        proof {
            assert(tag@ =~= seq![1u8]);
        }
        let mut node = ExtensionNode {
            stem,
            stem_field,
            one_field,
            c: Self::commit_over(one_field, stem_field, &suffix_tree, committer),
            c_field: one_field,  // overwritten just below
            suffix_tree,
        };
        node.c_field = C::from_point_to_scalar(&node.c);
        node
    }

    /// The commitment over the tag, the stem and the two branch encodings.
    fn commit_over(
        one_field: C::Scalar,
        stem_field: C::Scalar,
        suffix_tree: &SuffixTree<C>,
        committer: &C,
    ) -> (r: C::Point)
        requires
            committer.max_width() >= 4,
        ensures
            r == committer.spec_commit(
                seq![one_field, stem_field, suffix_tree.c1_field, suffix_tree.c2_field],
            ),
    {
        let mut input: Vec<C::Scalar> = Vec::new();
        input.push(one_field);
        input.push(stem_field);
        input.push(*suffix_tree.get_c1_field());
        input.push(*suffix_tree.get_c2_field());
        proof {
            assert(input@ =~= seq![
                one_field,
                stem_field,
                suffix_tree.c1_field,
                suffix_tree.c2_field,
            ]);
        }
        committer.commit(input)
    }

    /// The suffix tree this stem owns.
    pub fn get_suffix_tree(&self) -> (r: &SuffixTree<C>)
        ensures
            *r == self.suffix_tree,
    {
        &self.suffix_tree
    }
}

impl<C: Committer> StemNode<C> for ExtensionNode<C> {
    open spec fn spec_c_field(&self) -> C::Scalar {
        self.c_field
    }

    fn get_c_field(&self) -> (r: &C::Scalar) {
        &self.c_field
    }
}

impl<C: Committer> CommitNode<C> for ExtensionNode<C> {
    open spec fn spec_c(&self) -> C::Point {
        self.c
    }

    open spec fn spec_commit_field(&self) -> C::Scalar {
        self.c_field
    }

    open spec fn commit_source(&self) -> Seq<C::Scalar> {
        seq![self.one_field, self.stem_field, self.suffix_tree.c1_field, self.suffix_tree.c2_field]
    }

    open spec fn commit_ready(&self, committer: &C) -> bool {
        committer.max_width() >= 4
    }

    open spec fn with_commitment(&self, c: C::Point, f: C::Scalar) -> ExtensionNode<C> {
        ExtensionNode {
            stem: self.stem,
            stem_field: self.stem_field,
            one_field: self.one_field,
            c,
            c_field: f,
            suffix_tree: self.suffix_tree,
        }
    }

    fn compute_c(&mut self, committer: &C) {
        self.c = Self::commit_over(self.one_field, self.stem_field, &self.suffix_tree, committer);
        self.c_field = C::from_point_to_scalar(&self.c);
    }

    fn get_c(&self) -> (r: &C::Point) {
        &self.c
    }
}

/// Commitment composability: re-deriving an extension node's commitment
/// from the same tag, stem and branch encodings reproduces the same
/// commitment, whichever node carries them.
pub proof fn lemma_extension_commitment_composable<C: Committer>(
    e1: &ExtensionNode<C>,
    e2: &ExtensionNode<C>,
    committer: &C,
)
    requires
        e1.one_field == e2.one_field,
        e1.stem_field == e2.stem_field,
        e1.suffix_tree.c1_field == e2.suffix_tree.c1_field,
        e1.suffix_tree.c2_field == e2.suffix_tree.c2_field,
    ensures
        committer.spec_commit(e1.commit_source()) == committer.spec_commit(e2.commit_source()),
{
    assert(e1.commit_source() =~= e2.commit_source());
}

} // verus!
