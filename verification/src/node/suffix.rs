//! Suffix trees: two branches of up to 128 leaves each, with one
//! commitment per branch.

use vstd::prelude::*;

use crate::committer::Committer;
use crate::node::leaf::LeafNode;
use crate::BRANCHING_FACTOR_WIDTH;

verus! {

/// The scalar sequence a branch commitment binds: each leaf contributes its
/// lower-half encoding then its upper-half encoding.
pub open spec fn branch_scalars<C: Committer>(s: Seq<LeafNode<C>>) -> Seq<C::Scalar> {
    Seq::new(
        2 * s.len(),
        |i: int|
            if i % 2 == 0 {
                s[i / 2].lower_field
            } else {
                s[i / 2].upper_field
            },
    )
}

/// One branch of a suffix tree: at most half the branching factor of leaves.
pub struct SuffixTreeBranch<C: Committer>(pub Vec<LeafNode<C>>);

impl<C: Committer> SuffixTreeBranch<C> {
    /// An empty branch.
    pub fn empty() -> (r: SuffixTreeBranch<C>)
        ensures
            r.0@.len() == 0,
    {
        SuffixTreeBranch(Vec::new())
    }

    /// Appends a leaf; the branch must still have room, as a branch never
    /// holds more than half the branching factor.
    pub fn add(&mut self, child: LeafNode<C>)
        requires
            old(self).0@.len() < BRANCHING_FACTOR_WIDTH / 2,
        ensures
            final(self).0@ == old(self).0@.push(child),
    {
        self.0.push(child);
    }
}

/// A suffix tree: the left branch holds the leaves with suffixes 0 to 127,
/// the right branch those with suffixes 128 to 255, and each branch has a
/// commitment over its leaves' packed scalar encodings, cached together
/// with its own scalar encoding.
pub struct SuffixTree<C: Committer> {
    pub c1: C::Point,
    pub c1_field: C::Scalar,
    pub left_branch: SuffixTreeBranch<C>,
    pub c2: C::Point,
    pub c2_field: C::Scalar,
    pub right_branch: SuffixTreeBranch<C>,
}

impl<C: Committer> SuffixTree<C> {
    /// The branches respect the leaf capacity.
    pub open spec fn branches_ok(&self) -> bool {
        &&& self.left_branch.0@.len() <= BRANCHING_FACTOR_WIDTH as int / 2
        &&& self.right_branch.0@.len() <= BRANCHING_FACTOR_WIDTH as int / 2
    }

    /// The cached commitments agree with the current branches.
    pub open spec fn commitments_ok(&self, committer: &C) -> bool {
        &&& self.c1 == committer.spec_commit(branch_scalars(self.left_branch.0@))
        &&& self.c1_field == C::spec_from_point(self.c1)
        &&& self.c2 == committer.spec_commit(branch_scalars(self.right_branch.0@))
        &&& self.c2_field == C::spec_from_point(self.c2)
    }

    /// An empty suffix tree with both branch commitments computed.
    pub fn new(committer: &C) -> (r: SuffixTree<C>)
        requires
            committer.max_width() >= BRANCHING_FACTOR_WIDTH,
        ensures
            r.branches_ok(),
            r.commitments_ok(committer),
            r.left_branch.0@.len() == 0,
            r.right_branch.0@.len() == 0,
    {
        let left_branch = SuffixTreeBranch::empty();
        let right_branch = SuffixTreeBranch::empty();
        let c1 = Self::compute_commit(&left_branch, committer);
        let c1_field = C::from_point_to_scalar(&c1);
        let c2 = Self::compute_commit(&right_branch, committer);
        let c2_field = C::from_point_to_scalar(&c2);
        SuffixTree { c1, c1_field, left_branch, c2, c2_field, right_branch }
    }

    /// Adds a leaf to the branch its suffix selects: left below half the
    /// branching factor, right from there up.
    pub fn add_leaf(&mut self, child: LeafNode<C>)
        requires
            old(self).branches_ok(),
            child.suffix@[0] < 128 ==> old(self).left_branch.0@.len() < BRANCHING_FACTOR_WIDTH
                / 2,
            child.suffix@[0] >= 128 ==> old(self).right_branch.0@.len() < BRANCHING_FACTOR_WIDTH
                / 2,
        ensures
            final(self).branches_ok(),
            child.suffix@[0] < 128 ==> final(self).left_branch.0@ == old(
                self,
            ).left_branch.0@.push(child) && final(self).right_branch == old(self).right_branch,
            child.suffix@[0] >= 128 ==> final(self).right_branch.0@ == old(
                self,
            ).right_branch.0@.push(child) && final(self).left_branch == old(self).left_branch,
    {
        if child.suffix[0] < 128 {
            self.left_branch.add(child);
        } else {
            self.right_branch.add(child);
        }
    }

    /// Recomputes both branch commitments and their scalar encodings. The
    /// two branch commitments are data-independent of each other.
    pub fn compute_c(&mut self, committer: &C)
        requires
            old(self).branches_ok(),
            committer.max_width() >= BRANCHING_FACTOR_WIDTH,
        ensures
            final(self).branches_ok(),
            final(self).commitments_ok(committer),
            final(self).left_branch == old(self).left_branch,
            final(self).right_branch == old(self).right_branch,
    {
        self.c1 = Self::compute_commit(&self.left_branch, committer);
        self.c2 = Self::compute_commit(&self.right_branch, committer);
        self.c1_field = C::from_point_to_scalar(&self.c1);
        self.c2_field = C::from_point_to_scalar(&self.c2);
    }

    /// One branch's commitment: the committer over the packed leaves.
    fn compute_commit(branch: &SuffixTreeBranch<C>, committer: &C) -> (r: C::Point)
        requires
            2 * branch.0@.len() <= committer.max_width(),
        ensures
            r == committer.spec_commit(branch_scalars(branch.0@)),
    {
        let scalars = Self::pack_leaves(branch);
        committer.commit(scalars)
    }

    /// The packed scalar encodings of a branch's leaves, in leaf order.
    fn pack_leaves(branch: &SuffixTreeBranch<C>) -> (r: Vec<C::Scalar>)
        ensures
            r@ == branch_scalars(branch.0@),
    {
        let mut out: Vec<C::Scalar> = Vec::new();
        let mut i: usize = 0;
        while i < branch.0.len()
            invariant
                i <= branch.0@.len(),
                out@.len() == 2 * i,
                forall|k: int| 0 <= k < 2 * i ==> out@[k] == branch_scalars(branch.0@)[k],
            decreases branch.0@.len() - i,
        {
            let mut pair = branch.0[i].get_value_as_scalars();
            let upper = pair.pop().unwrap();
            let lower = pair.pop().unwrap();
            out.push(lower);
            out.push(upper);
            i = i + 1;
        }
        proof {
            assert(out@ =~= branch_scalars(branch.0@));
        }
        out
    }

    /// The scalar encoding of the right branch's commitment.
    pub fn get_c2_field(&self) -> (r: &C::Scalar)
        ensures
            *r == self.c2_field,
    {
        &self.c2_field
    }

    /// The scalar encoding of the left branch's commitment.
    pub fn get_c1_field(&self) -> (r: &C::Scalar)
        ensures
            *r == self.c1_field,
    {
        &self.c1_field
    }

    /// The right branch's commitment.
    pub fn get_c2(&self) -> (r: &C::Point)
        ensures
            *r == self.c2,
    {
        &self.c2
    }

    /// The left branch's commitment.
    pub fn get_c1(&self) -> (r: &C::Point)
        ensures
            *r == self.c1,
    {
        &self.c1
    }

    /// The branch holding the leaves with suffixes below 128.
    pub fn get_left_branch(&self) -> (r: &SuffixTreeBranch<C>)
        ensures
            *r == self.left_branch,
    {
        &self.left_branch
    }

    /// The branch holding the leaves with suffixes 128 and above.
    pub fn get_right_branch(&self) -> (r: &SuffixTreeBranch<C>)
        ensures
            *r == self.right_branch,
    {
        &self.right_branch
    }

}

} // verus!
