use crate::hash::{
    digests_equal, push_digest, push_u64_be, sha256, sha256_of, u64_be, LEAF_TAG, NODE_TAG,
};
use crate::tree::MerkleError;
use vstd::prelude::*;

verus! {

/// The mathematical value of a commitment: an amount and the bytes of a digest.
pub struct CommitmentView {
    pub amount: int,
    pub digest: Seq<u8>,
}

/// What is hashed for a leaf: the leaf tag, then the amount.
pub open spec fn leaf_preimage(amount: u64) -> Seq<u8> {
    seq![LEAF_TAG] + u64_be(amount)
}

/// What is hashed for an internal node: the node tag, then the amount and digest of
/// the left child, then those of the right child.
pub open spec fn node_preimage(left: CommitmentView, right: CommitmentView) -> Seq<u8> {
    seq![NODE_TAG] + u64_be(left.amount as u64) + left.digest + u64_be(right.amount as u64)
        + right.digest
}

/// The commitment of a leaf holding `amount`.
pub open spec fn leaf_view(amount: u64) -> CommitmentView {
    CommitmentView { amount: amount as int, digest: sha256_of(leaf_preimage(amount)) }
}

/// The commitment of a node whose children are `left` and `right`.
pub open spec fn combine_view(left: CommitmentView, right: CommitmentView) -> CommitmentView {
    CommitmentView {
        amount: left.amount + right.amount,
        digest: sha256_of(node_preimage(left, right)),
    }
}

/// A value that commits to an amount and to a 32-byte digest.
pub trait SumCommitment {
    spec fn commitment_view(&self) -> CommitmentView;

    fn amount(&self) -> (r: u64)
        ensures
            r as int == self.commitment_view().amount,
    ;

    fn digest(&self) -> (r: [u8; 32])
        ensures
            r@ == self.commitment_view().digest,
    ;
}

/// A sum commitment: the amount of a subtree and the digest that binds it.
#[derive(Clone, Copy, Debug)]
pub struct MimiSumCommitment {
    pub amount: u64,
    pub digest: [u8; 32],
}

impl View for MimiSumCommitment {
    type V = CommitmentView;

    open spec fn view(&self) -> CommitmentView {
        CommitmentView { amount: self.amount as int, digest: self.digest@ }
    }
}

impl MimiSumCommitment {
    pub fn new(amount: u64, digest: [u8; 32]) -> (r: Self)
        ensures
            r.amount == amount,
            r.digest == digest,
    {
        MimiSumCommitment { amount, digest }
    }

    /// The commitment of a leaf: `H(LEAF_TAG || amount)`.
    pub fn leaf(amount: u64) -> (r: Self)
        ensures
            r@ == leaf_view(amount),
    {
        let mut buf: Vec<u8> = Vec::new();
        buf.push(LEAF_TAG);
        push_u64_be(&mut buf, amount);
        let digest = sha256(&buf);
        MimiSumCommitment { amount, digest }
    }

    /// Combines two children whose amounts are known to sum within `u64`.
    pub(crate) fn combine_within(left: &Self, right: &Self) -> (r: Self)
        requires
            left.amount + right.amount <= u64::MAX,
        ensures
            r@ == combine_view(left@, right@),
    {
        let mut buf: Vec<u8> = Vec::new();
        buf.push(NODE_TAG);
        push_u64_be(&mut buf, left.amount);
        push_digest(&mut buf, &left.digest);
        push_u64_be(&mut buf, right.amount);
        push_digest(&mut buf, &right.digest);
        let digest = sha256(&buf);
        MimiSumCommitment { amount: left.amount + right.amount, digest }
    }

    /// The commitment of the node whose children are `left` and `right`;
    /// `AmountOverflow` when their amounts do not sum within `u64`.
    pub fn combine(left: &Self, right: &Self) -> (r: Result<Self, MerkleError>)
        ensures
            left.amount + right.amount <= u64::MAX ==> (r matches Ok(c) && c@ == combine_view(
                left@,
                right@,
            )),
            left.amount + right.amount > u64::MAX ==> r == Err::<Self, MerkleError>(
                MerkleError::AmountOverflow,
            ),
    {
        if left.amount > u64::MAX - right.amount {
            Err(MerkleError::AmountOverflow)
        } else {
            Ok(Self::combine_within(left, right))
        }
    }

    /// Equality by value: same amount and same digest bytes.
    pub fn same_as(&self, other: &Self) -> (r: bool)
        ensures
            r == (self@ == other@),
    {
        self.amount == other.amount && digests_equal(&self.digest, &other.digest)
    }
}

impl PartialEq for MimiSumCommitment {
    fn eq(&self, other: &Self) -> (r: bool) {
        self.same_as(other)
    }
}

impl vstd::std_specs::cmp::PartialEqSpecImpl for MimiSumCommitment {
    open spec fn obeys_eq_spec() -> bool {
        true
    }

    open spec fn eq_spec(&self, other: &Self) -> bool {
        self@ == other@
    }
}

impl SumCommitment for MimiSumCommitment {
    open spec fn commitment_view(&self) -> CommitmentView {
        self@
    }

    fn amount(&self) -> (r: u64) {
        self.amount
    }

    fn digest(&self) -> (r: [u8; 32]) {
        self.digest
    }
}

/// A commitment held behind a wrapper; it commits to what it holds.
#[derive(Clone, Copy, Debug)]
pub struct MimiSumCommitmentWrapper {
    inner: MimiSumCommitment,
}

impl View for MimiSumCommitmentWrapper {
    type V = CommitmentView;

    closed spec fn view(&self) -> CommitmentView {
        self.inner@
    }
}

impl MimiSumCommitmentWrapper {
    pub fn new(amount: u64, digest: [u8; 32]) -> (r: Self)
        ensures
            r@ == (CommitmentView { amount: amount as int, digest: digest@ }),
    {
        MimiSumCommitmentWrapper { inner: MimiSumCommitment { amount, digest } }
    }

    /// The commitment held.
    pub fn inner(&self) -> (r: MimiSumCommitment)
        ensures
            r@ == self@,
    {
        self.inner
    }
}

impl SumCommitment for MimiSumCommitmentWrapper {
    open spec fn commitment_view(&self) -> CommitmentView {
        self@
    }

    fn amount(&self) -> (r: u64) {
        self.inner.amount
    }

    fn digest(&self) -> (r: [u8; 32]) {
        self.inner.digest
    }
}

} // verus!
