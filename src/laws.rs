use crate::commitment::{leaf_view, CommitmentView, MimiSumCommitment};
use crate::inclusion::{
    path_views, reconstruct_view, MimiExclusiveAllotmentProof, PathEntryView,
};
use crate::tree::{lemma_subtree_amount, path_view, root_view, subtree_view, sum_of, MimiMerkleTree};
use vstd::prelude::*;

verus! {

/// The root of a tree commits to the sum of all its balances.
pub proof fn lemma_sum_conservation(s: Seq<u64>)
    requires
        s.len() > 0,
    ensures
        root_view(s).amount == sum_of(s),
{
    lemma_subtree_amount(s, 0, s.len() as int);
    assert(s.subrange(0, s.len() as int) =~= s);
}

/// The root of a tree of one leaf is that leaf's commitment.
pub proof fn lemma_single_leaf(v: u64)
    ensures
        root_view(seq![v]) == leaf_view(v),
{
}

/// Rebuilding along the path of a leaf within a subtree gives that subtree's commitment.
proof fn lemma_path_rebuilds_subtree(s: Seq<u64>, start: int, end: int, pos: int)
    requires
        0 <= start <= pos < end <= s.len(),
    ensures
        reconstruct_view(leaf_view(s[pos]), path_view(s, start, end, pos)) == subtree_view(
            s,
            start,
            end,
        ),
    decreases end - start,
{
    if end - start > 1 {
        let mid = start + (end - start) / 2;
        let path = path_view(s, start, end, pos);
        if pos < mid {
            lemma_path_rebuilds_subtree(s, start, mid, pos);
            assert(path.drop_last() =~= path_view(s, start, mid, pos));
        } else {
            lemma_path_rebuilds_subtree(s, mid, end, pos);
            assert(path.drop_last() =~= path_view(s, mid, end, pos));
        }
    }
}

/// The proof of every position verifies its own balance against the root: rebuilding
/// from that balance along the path gives the root.
pub proof fn lemma_round_trip(s: Seq<u64>, i: int)
    requires
        0 <= i < s.len(),
    ensures
        reconstruct_view(leaf_view(s[i]), path_view(s, 0, s.len() as int, i)) == root_view(s),
{
    lemma_path_rebuilds_subtree(s, 0, s.len() as int, i);
}

/// Two leaves rebuilt along the same path keep the difference of their amounts.
proof fn lemma_amount_shift(a: CommitmentView, b: CommitmentView, path: Seq<PathEntryView>)
    ensures
        reconstruct_view(a, path).amount - a.amount == reconstruct_view(b, path).amount - b.amount,
    decreases path.len(),
{
    if path.len() > 0 {
        lemma_amount_shift(a, b, path.drop_last());
    }
}

/// A proof that verifies one balance against a root does not verify another balance
/// against it.
pub proof fn lemma_leaf_amount_tamper(
    path: Seq<PathEntryView>,
    amount: u64,
    other: u64,
    root: CommitmentView,
)
    requires
        reconstruct_view(leaf_view(amount), path) == root,
        other != amount,
    ensures
        reconstruct_view(leaf_view(other), path) != root,
{
    lemma_amount_shift(leaf_view(amount), leaf_view(other), path);
}

/// Changing the amount of one sibling of a path changes the rebuilt amount by as much.
proof fn lemma_sibling_amount_shift(
    leaf: CommitmentView,
    path: Seq<PathEntryView>,
    j: int,
    e: PathEntryView,
)
    requires
        0 <= j < path.len(),
    ensures
        reconstruct_view(leaf, path.update(j, e)).amount - reconstruct_view(leaf, path).amount
            == e.sibling.amount - path[j].sibling.amount,
    decreases path.len(),
{
    let q = path.update(j, e);
    if j == path.len() - 1 {
        assert(q.drop_last() =~= path.drop_last());
    } else {
        lemma_sibling_amount_shift(leaf, path.drop_last(), j, e);
        assert(q.drop_last() =~= path.drop_last().update(j, e));
    }
}

/// A proof that verifies against a root stops verifying once the amount of one
/// sibling on its path is changed, whatever else that entry holds.
pub proof fn lemma_sibling_amount_tamper(
    leaf_amount: u64,
    path: Seq<PathEntryView>,
    root: CommitmentView,
    j: int,
    e: PathEntryView,
)
    requires
        reconstruct_view(leaf_view(leaf_amount), path) == root,
        0 <= j < path.len(),
        e.sibling.amount != path[j].sibling.amount,
    ensures
        reconstruct_view(leaf_view(leaf_amount), path.update(j, e)) != root,
{
    lemma_sibling_amount_shift(leaf_view(leaf_amount), path, j, e);
}

/// Two trees over the same balances give the same root, byte for byte, and the same
/// proof for the same position.
pub proof fn lemma_determinism(
    t1: MimiMerkleTree,
    t2: MimiMerkleTree,
    c1: MimiSumCommitment,
    c2: MimiSumCommitment,
    p1: MimiExclusiveAllotmentProof,
    p2: MimiExclusiveAllotmentProof,
)
    requires
        t1@ == t2@,
        c1@ == root_view(t1@),
        c2@ == root_view(t2@),
        p1.position == p2.position,
        path_views(p1.path@) == path_view(t1@, 0, t1@.len() as int, p1.position as int),
        path_views(p2.path@) == path_view(t2@, 0, t2@.len() as int, p2.position as int),
    ensures
        c1.amount == c2.amount,
        c1.digest@ == c2.digest@,
        p1.path@.len() == p2.path@.len(),
        forall|i: int|
            0 <= i < p1.path@.len() ==> (#[trigger] p1.path@[i]).sibling.amount == p2.path@[i].sibling.amount
                && p1.path@[i].sibling.digest@ == p2.path@[i].sibling.digest@ && p1.path@[i].side
                == p2.path@[i].side,
{
    assert(path_views(p1.path@).len() == p1.path@.len());
    assert(path_views(p2.path@).len() == p2.path@.len());
    assert forall|i: int| 0 <= i < p1.path@.len() implies (#[trigger] p1.path@[i]).sibling.amount
        == p2.path@[i].sibling.amount && p1.path@[i].sibling.digest@ == p2.path@[i].sibling.digest@
        && p1.path@[i].side == p2.path@[i].side by {
        assert(path_views(p1.path@)[i] == p1.path@[i]@);
        assert(path_views(p2.path@)[i] == p2.path@[i]@);
    }
}

} // verus!
