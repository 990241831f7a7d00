//! A Merkle sum tree over a sequence of `u64` balances, with inclusion proofs.
//!
//! Every node commits to the total amount of its subtree and to a SHA-256 digest
//! that binds the amounts and digests of its children. The contracts speak of the
//! spec functions in `hash`, `commitment`, `tree` and `inclusion`; the laws that tie
//! them together are in `laws`.
mod hash;
mod commitment;
mod tree;
mod inclusion;
mod laws;

pub use hash::{sha256_of, u64_be, LEAF_TAG, NODE_TAG};
pub use commitment::{
    SumCommitment, MimiSumCommitment, MimiSumCommitmentWrapper, CommitmentView, leaf_view,
    combine_view, leaf_preimage, node_preimage,
};
pub use tree::{MerkleTree, MimiMerkleTree, MerkleError, subtree_view, root_view, sum_of, path_view};
pub use inclusion::{
    ExclusiveAllotmentProof, MimiExclusiveAllotmentProof, PathEntry, PathEntryView, Side,
    step_view, reconstruct_view, path_views,
};
pub use laws::{
    lemma_sum_conservation, lemma_single_leaf, lemma_round_trip, lemma_leaf_amount_tamper,
    lemma_sibling_amount_tamper, lemma_determinism,
};
