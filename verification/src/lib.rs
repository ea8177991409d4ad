pub mod committer;
pub mod field;
pub mod group;
pub mod node;
pub mod proving_schemes;
pub mod trie;

use vstd::prelude::*;

verus! {

/// Size in bytes of a full key: a 31-byte stem followed by a 1-byte suffix.
pub const KEY_BYTES: usize = 32;

/// Size in bytes of a stored leaf value.
pub const LEAF_VALUE_SIZE: usize = 32;

/// Half of a leaf value; each half is encoded into its own field element.
pub const LEAF_HALF_VALUE_SIZE: usize = 16;

/// Width of the trie: every internal node has up to this many children.
pub const BRANCHING_FACTOR_WIDTH: usize = 256;

/// Bytes of a key taken by the suffix.
pub const KEY_SUFFIX_BYTES: usize = 1;

/// A full 32-byte key.
pub type Key = [u8; 32];

/// The 31-byte shared prefix of a key.
pub type KeyStem = [u8; 31];

/// The trailing byte of a key, selecting a leaf within a suffix tree.
pub type KeySuffix = [u8; 1];

/// A raw 32-byte leaf value.
pub type LeafNodeValue = [u8; 32];

} // verus!
