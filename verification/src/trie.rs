//! The trie boundary: the key-value interface over the node model, and the
//! interfaces of the outside collaborators that persistence needs.

use vstd::prelude::*;

use crate::committer::Committer;
use crate::node::Node;

verus! {

/// A trie operation's outcome.
pub type TrieResult<T> = Result<T, TrieError>;

/// Failures the trie surfaces to its callers.
#[derive(Clone, Copy, Debug, PartialEq, Eq, Structural)]
pub enum TrieError {
    /// Stored bytes do not decode to a node.
    Decode,
    /// The backing store failed to read or write.
    Storage,
}

/// A byte-oriented backing store for encoded nodes; its engine is a
/// collaborator outside this crate, so nothing more is assumed of it.
pub trait DB {
    fn get(&self, key: &[u8]) -> Option<Vec<u8>>;

    fn put(&mut self, key: Vec<u8>, value: Vec<u8>) -> bool;

    fn delete(&mut self, key: &[u8]) -> bool;
}

/// An auxiliary hash for root encoding, a collaborator outside this crate.
pub trait Hasher {
    fn hash(&self, bytes: &[u8]) -> Vec<u8>;
}

/// An authenticated key-value trie.
pub trait Trie<D: DB, H: Hasher>: Sized {
    /// The value stored under the key, if any.
    fn get(&self, key: &[u8]) -> TrieResult<Option<Vec<u8>>>;

    /// Whether the key is present.
    fn contains(&self, key: &[u8]) -> TrieResult<bool>;

    /// Inserts the value under the key, replacing any previous value.
    fn insert(&mut self, key: Vec<u8>, value: Vec<u8>) -> TrieResult<()>;

    /// Removes any value stored under the key.
    fn remove(&mut self, key: &[u8]) -> TrieResult<bool>;

    /// Persists the nodes, recomputes the root, and returns its hash.
    fn root(&mut self) -> TrieResult<Vec<u8>>;

    /// The encoded nodes along the key's path, ending with the node that
    /// proves presence or absence.
    fn get_proof(&self, key: &[u8]) -> TrieResult<Vec<Vec<u8>>>;

    /// Checks a path proof against a root hash: the value if the key is
    /// present, nothing if absent, an error if the proof is wrong.
    fn verify_proof(&self, root_hash: &[u8], key: &[u8], proof: Vec<Vec<u8>>) -> TrieResult<
        Option<Vec<u8>>,
    >;
}

/// The trie's own state: the root node and the collaborators that persist
/// and hash it.
pub struct VerkleTrie<C: Committer, D: DB, H: Hasher> {
    pub root: Node<C>,
    pub root_hash: Vec<u8>,
    pub db: D,
    pub hasher: H,
}

} // verus!
