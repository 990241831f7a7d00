use crate::commitment::{
    combine_view, leaf_view, CommitmentView, MimiSumCommitment, SumCommitment,
};
use crate::hash::digests_equal;
use vstd::prelude::*;

verus! {

/// The side on which a sibling stands, next to the commitment being rebuilt.
#[derive(Clone, Copy, Debug, PartialEq, Eq, Structural)]
pub enum Side {
    Left,
    Right,
}

/// The mathematical value of one step of an inclusion path.
pub struct PathEntryView {
    pub sibling: CommitmentView,
    pub side: Side,
}

/// One step of an inclusion path: the commitment of the sibling subtree and its side.
#[derive(Clone, Copy, Debug)]
pub struct PathEntry {
    pub sibling: MimiSumCommitment,
    pub side: Side,
}

impl View for PathEntry {
    type V = PathEntryView;

    open spec fn view(&self) -> PathEntryView {
        PathEntryView { sibling: self.sibling@, side: self.side }
    }
}

/// The values of the entries of a path.
pub open spec fn path_views(path: Seq<PathEntry>) -> Seq<PathEntryView> {
    path.map_values(|e: PathEntry| e@)
}

/// One level up: the running commitment combined with the sibling, in the order
/// that the sibling's side gives.
pub open spec fn step_view(running: CommitmentView, e: PathEntryView) -> CommitmentView {
    match e.side {
        Side::Right => combine_view(running, e.sibling),
        Side::Left => combine_view(e.sibling, running),
    }
}

/// The root rebuilt from a leaf commitment and a path from the leaf up.
pub open spec fn reconstruct_view(leaf: CommitmentView, path: Seq<PathEntryView>) -> CommitmentView
    decreases path.len(),
{
    if path.len() == 0 {
        leaf
    } else {
        step_view(reconstruct_view(leaf, path.drop_last()), path.last())
    }
}

/// Rebuilding over a longer path never lowers the amount, when no sibling amount
/// is negative.
pub proof fn lemma_reconstruct_amount_grows(leaf: CommitmentView, path: Seq<PathEntryView>, k: int)
    requires
        0 <= k <= path.len(),
        forall|i: int| 0 <= i < path.len() ==> #[trigger] path[i].sibling.amount >= 0,
    ensures
        reconstruct_view(leaf, path.take(k)).amount <= reconstruct_view(leaf, path).amount,
    decreases path.len(),
{
    if k == path.len() {
        assert(path.take(k) =~= path);
    } else {
        let shorter = path.drop_last();
        assert(shorter.take(k) =~= path.take(k));
        assert(path[path.len() - 1].sibling.amount >= 0);
        lemma_reconstruct_amount_grows(leaf, shorter, k);
    }
}

/// Proves the inclusion of one leaf in a tree.
pub trait ExclusiveAllotmentProof<C: SumCommitment>: Sized {
    spec fn spec_position(&self) -> usize;

    spec fn spec_path(&self) -> Seq<PathEntryView>;

    fn position(&self) -> (r: usize)
        ensures
            r == self.spec_position(),
    ;

    /// Whether the root rebuilt from `leaf_amount` along the path equals
    /// `root_commitment`, amount and digest.
    fn verify(&self, leaf_amount: u64, root_commitment: &C) -> (r: bool)
        ensures
            r == (reconstruct_view(leaf_view(leaf_amount), self.spec_path())
                == root_commitment.commitment_view()),
    ;

    fn generate_proof(position: usize, path: Vec<PathEntry>) -> (r: Self)
        ensures
            r.spec_position() == position,
            r.spec_path() == path_views(path@),
    ;
}

/// An inclusion proof: the leaf's position and its path, from the leaf's sibling up
/// to the sibling just below the root.
#[derive(Clone, Debug)]
pub struct MimiExclusiveAllotmentProof {
    pub position: usize,
    pub path: Vec<PathEntry>,
}

impl MimiExclusiveAllotmentProof {
    /// The root rebuilt from `leaf_amount`; `None` when an amount on the way does not
    /// fit in `u64`.
    pub fn reconstruct_root(&self, leaf_amount: u64) -> (r: Option<MimiSumCommitment>)
        ensures
            r is None <==> reconstruct_view(leaf_view(leaf_amount), path_views(self.path@)).amount
                > u64::MAX,
            r matches Some(c) ==> c@ == reconstruct_view(
                leaf_view(leaf_amount),
                path_views(self.path@),
            ),
    {
        let ghost views = path_views(self.path@);
        let ghost leaf = leaf_view(leaf_amount);
        let mut running = MimiSumCommitment::leaf(leaf_amount);
        let mut i: usize = 0;
        assert(views.take(0) =~= Seq::<PathEntryView>::empty());
        while i < self.path.len()
            invariant
                i <= self.path@.len(),
                views == path_views(self.path@),
                leaf == leaf_view(leaf_amount),
                running@ == reconstruct_view(leaf, views.take(i as int)),
            decreases self.path@.len() - i,
        {
            let e = self.path[i];
            let next = match e.side {
                Side::Right => MimiSumCommitment::combine(&running, &e.sibling),
                Side::Left => MimiSumCommitment::combine(&e.sibling, &running),
            };
            assert(views.take(i + 1).drop_last() =~= views.take(i as int));
            match next {
                Ok(c) => {
                    running = c;
                },
                Err(_) => {
                    proof {
                        lemma_reconstruct_amount_grows(leaf, views, i + 1);
                    }
                    return None;
                },
            }
            i = i + 1;
        }
        assert(views.take(self.path@.len() as int) =~= views);
        Some(running)
    }
}

impl<C: SumCommitment> ExclusiveAllotmentProof<C> for MimiExclusiveAllotmentProof {
    open spec fn spec_position(&self) -> usize {
        self.position
    }

    open spec fn spec_path(&self) -> Seq<PathEntryView> {
        path_views(self.path@)
    }

    fn position(&self) -> (r: usize) {
        self.position
    }

    fn verify(&self, leaf_amount: u64, root_commitment: &C) -> (r: bool) {
        let root_amount = root_commitment.amount();
        let root_digest = root_commitment.digest();
        match self.reconstruct_root(leaf_amount) {
            None => false,
            Some(c) => c.amount == root_amount && digests_equal(&c.digest, &root_digest),
        }
    }

    fn generate_proof(position: usize, path: Vec<PathEntry>) -> (r: Self) {
        MimiExclusiveAllotmentProof { position, path }
    }
}

} // verus!
