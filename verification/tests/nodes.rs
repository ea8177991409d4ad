//! Tests of the node model: leaves, suffix trees, extension and internal
//! nodes, and the end-to-end commitment scenarios.

use curve25519_dalek::scalar::Scalar;

use verkle_trie::committer::Committer;
use verkle_trie::node::{CommitNode, ExtensionNode, InnerNode, InternalNode, LeafNode, StemNode, SuffixTree};
use verkle_trie::proving_schemes::bulletproof::BulletproofPS;
use verkle_trie::proving_schemes::ProvingScheme;

type PS = BulletproofPS;

fn committer() -> PS {
    <PS as ProvingScheme>::instantiate_generators()
}

fn value_bytes(tag: u8) -> [u8; 32] {
    let mut v = [0u8; 32];
    v[0] = tag;
    v[31] = tag.wrapping_add(1);
    v
}

#[test]
fn leaf_split_is_exact() {
    let mut value = [0u8; 32];
    for (i, b) in value.iter_mut().enumerate() {
        *b = i as u8;
    }
    let (lower, upper) = LeafNode::<PS>::split_node_value(value, true);
    for i in 0..16 {
        assert_eq!(lower.0[i], i as u8);
        assert_eq!(upper.0[i], (16 + i) as u8);
    }
    assert_eq!(lower.0[16], 1);

    let (lower0, _) = LeafNode::<PS>::split_node_value(value, false);
    assert_eq!(lower0.0[16], 0);
}

#[test]
fn leaf_update_rederives_encodings() {
    let first = value_bytes(3);
    let second = value_bytes(9);
    let mut leaf: LeafNode<PS> = LeafNode::new([7], first);
    assert!(!leaf.modifier);
    let old_lower = leaf.lower_field;

    leaf.update(second);
    assert!(leaf.modifier);
    assert_eq!(leaf.value, second);
    // the scalar encodings follow the value and the flag
    assert_ne!(leaf.lower_field, old_lower);
    let (lower, upper) = LeafNode::<PS>::split_node_value(second, true);
    assert_eq!(leaf.lower_field, <PS as Committer>::from_bytes_to_scalar(&lower.0));
    assert_eq!(leaf.upper_field, <PS as Committer>::from_bytes_to_scalar(&upper.0));
}

#[test]
fn suffix_tree_partitions_by_suffix() {
    let c = committer();
    let mut st: SuffixTree<PS> = SuffixTree::new(&c);
    st.add_leaf(LeafNode::new([3], value_bytes(1)));
    st.add_leaf(LeafNode::new([200], value_bytes(2)));
    st.add_leaf(LeafNode::new([127], value_bytes(3)));
    st.add_leaf(LeafNode::new([128], value_bytes(4)));
    assert_eq!(st.get_left_branch().0.len(), 2);
    assert_eq!(st.get_right_branch().0.len(), 2);

    let before_c1 = st.get_c1().to_bytes();
    st.compute_c(&c);
    let after_c1 = st.get_c1().to_bytes();
    // the empty-tree commitment differs from the filled one
    assert_ne!(before_c1, after_c1);

    // the two branch commitments are over disjoint data
    assert_ne!(st.get_c1().to_bytes(), st.get_c2().to_bytes());
}

#[test]
fn suffix_tree_branch_commitments_are_reproducible() {
    let c = committer();
    let build = || {
        let mut st: SuffixTree<PS> = SuffixTree::new(&c);
        st.add_leaf(LeafNode::new([3], value_bytes(1)));
        st.add_leaf(LeafNode::new([200], value_bytes(2)));
        st.compute_c(&c);
        st
    };
    let st1 = build();
    let st2 = build();
    assert_eq!(st1.get_c1().to_bytes(), st2.get_c1().to_bytes());
    assert_eq!(st1.get_c2().to_bytes(), st2.get_c2().to_bytes());
    assert_eq!(*st1.get_c1_field(), *st2.get_c1_field());
}

#[test]
fn extension_commitment_composes_reproducibly() {
    let c = committer();
    let stem = [0x11u8; 31];
    let build = || {
        let mut st: SuffixTree<PS> = SuffixTree::new(&c);
        st.add_leaf(LeafNode::new([9], value_bytes(5)));
        st.add_leaf(LeafNode::new([130], value_bytes(6)));
        st.compute_c(&c);
        ExtensionNode::new(stem, st, &c)
    };
    let e1 = build();
    let e2 = build();
    // re-deriving C = Commit(1, stem, C1, C2) reproduces the same bytes
    assert_eq!(e1.get_c().to_bytes(), e2.get_c().to_bytes());
    assert_eq!(*e1.get_c_field(), *e2.get_c_field());

    // recomputing in place is idempotent
    let mut e3 = build();
    let bytes_before = e3.get_c().to_bytes();
    e3.compute_c(&c);
    assert_eq!(e3.get_c().to_bytes(), bytes_before);
}

#[test]
fn internal_node_commits_over_children_encodings() {
    let c = committer();
    let stem = [0x22u8; 31];
    let mut st: SuffixTree<PS> = SuffixTree::new(&c);
    st.add_leaf(LeafNode::new([1], value_bytes(7)));
    st.compute_c(&c);
    let ext = ExtensionNode::new(stem, st, &c);

    let mut node: InternalNode<PS, InnerNode<PS>> = InternalNode::new(0, &c);
    let empty_bytes = node.get_c().to_bytes();
    node.children.add(InnerNode::Extension(ext));
    node.compute_c(&c);
    assert_ne!(node.get_c().to_bytes(), empty_bytes);
    assert_eq!(node.children.as_scalars().len(), 1);
}

fn build_two_stem_chain(c: &PS) -> InternalNode<PS, InnerNode<PS>> {
    // stems 0x00...00 and 0x00...01 differ only in the last stem byte
    let stem_a = [0u8; 31];
    let mut stem_b = [0u8; 31];
    stem_b[30] = 1;

    let make_ext = |stem: [u8; 31], suffix: u8, tag: u8| {
        let mut st: SuffixTree<PS> = SuffixTree::new(c);
        st.add_leaf(LeafNode::new([suffix], value_bytes(tag)));
        st.compute_c(c);
        ExtensionNode::new(stem, st, c)
    };
    let ext_a = make_ext(stem_a, 0, 10);
    let ext_b = make_ext(stem_b, 1, 20);

    // the two stems share bytes 0..=29, so one internal node per shared
    // byte, and the node at the differing byte holds both extensions
    let mut node: InternalNode<PS, InnerNode<PS>> = InternalNode::new(0, c);
    node.children.add(InnerNode::Extension(ext_a));
    node.children.add(InnerNode::Extension(ext_b));
    node.compute_c(c);
    let mut depth: usize = 30;
    while depth > 0 {
        depth -= 1;
        let mut parent: InternalNode<PS, InnerNode<PS>> = InternalNode::new(0, c);
        parent.children.add(InnerNode::Internal(node));
        parent.compute_c(c);
        node = parent;
    }
    node
}

#[test]
fn two_stem_scenario_root_is_reproducible() {
    let c = committer();
    let root1 = build_two_stem_chain(&c);
    let root2 = build_two_stem_chain(&c);
    assert_eq!(root1.get_c().to_bytes(), root2.get_c().to_bytes());

    // one shared chain down to the differing byte, then two extensions
    let mut steps = 0;
    let mut cursor = &root1;
    loop {
        match cursor.children.0.as_slice() {
            [InnerNode::Internal(inner)] => {
                steps += 1;
                cursor = inner;
            }
            [InnerNode::Extension(a), InnerNode::Extension(b)] => {
                assert_eq!(a.stem[30], 0);
                assert_eq!(b.stem[30], 1);
                break;
            }
            _ => panic!("unexpected chain shape"),
        }
    }
    assert_eq!(steps, 30);
}

#[test]
fn committer_commit_depends_on_every_scalar() {
    let c = committer();
    let v1 = vec![Scalar::from(1u128), Scalar::from(2u128)];
    let v2 = vec![Scalar::from(1u128), Scalar::from(3u128)];
    let c1 = c.commit(v1.clone());
    let c1_again = c.commit(v1);
    let c2 = c.commit(v2);
    assert_eq!(c1.to_bytes(), c1_again.to_bytes());
    assert_ne!(c1.to_bytes(), c2.to_bytes());
}
