use crate::commitment::{combine_view, leaf_view, CommitmentView, MimiSumCommitment};
use crate::inclusion::{path_views, ExclusiveAllotmentProof, MimiExclusiveAllotmentProof, PathEntry, PathEntryView, Side};
use vstd::prelude::*;

verus! {

/// Why an operation on a tree was refused.
#[derive(Clone, Copy, Debug, PartialEq, Eq, Structural)]
pub enum MerkleError {
    /// A tree was asked for over no balances.
    EmptyInput,
    /// A proof was asked for at a position that holds no leaf.
    PositionOutOfRange,
    /// A sum of amounts does not fit in `u64`.
    AmountOverflow,
}

/// The sum of a sequence of balances.
pub open spec fn sum_of(s: Seq<u64>) -> int
    decreases s.len(),
{
    if s.len() == 0 {
        0
    } else {
        sum_of(s.drop_last()) + s.last()
    }
}

/// The commitment of the subtree over leaves `[start, end)`: a single leaf, or the
/// combination of `[start, mid)` and `[mid, end)` with `mid = start + (end - start) / 2`.
pub open spec fn subtree_view(s: Seq<u64>, start: int, end: int) -> CommitmentView
    decreases end - start,
{
    if end - start <= 1 {
        leaf_view(s[start])
    } else {
        let mid = start + (end - start) / 2;
        combine_view(subtree_view(s, start, mid), subtree_view(s, mid, end))
    }
}

/// The root commitment of the tree over `s`.
pub open spec fn root_view(s: Seq<u64>) -> CommitmentView {
    subtree_view(s, 0, s.len() as int)
}

/// The inclusion path of leaf `pos` within the subtree over `[start, end)`, from the
/// leaf's own sibling up: one entry per level, holding the commitment of the half
/// that does not contain `pos` and the side on which that half stands.
pub open spec fn path_view(s: Seq<u64>, start: int, end: int, pos: int) -> Seq<PathEntryView>
    decreases end - start,
{
    if end - start <= 1 {
        Seq::empty()
    } else {
        let mid = start + (end - start) / 2;
        if pos < mid {
            path_view(s, start, mid, pos).push(
                PathEntryView { sibling: subtree_view(s, mid, end), side: Side::Right },
            )
        } else {
            path_view(s, mid, end, pos).push(
                PathEntryView { sibling: subtree_view(s, start, mid), side: Side::Left },
            )
        }
    }
}

pub proof fn lemma_sum_nonneg(s: Seq<u64>)
    ensures
        sum_of(s) >= 0,
    decreases s.len(),
{
    if s.len() > 0 {
        lemma_sum_nonneg(s.drop_last());
    }
}

pub proof fn lemma_sum_split(s: Seq<u64>, a: int, b: int, c: int)
    requires
        0 <= a <= b <= c <= s.len(),
    ensures
        sum_of(s.subrange(a, c)) == sum_of(s.subrange(a, b)) + sum_of(s.subrange(b, c)),
    decreases c - b,
{
    if c == b {
        assert(s.subrange(b, c) =~= Seq::<u64>::empty());
    } else {
        lemma_sum_split(s, a, b, c - 1);
        assert(s.subrange(a, c).drop_last() =~= s.subrange(a, c - 1));
        assert(s.subrange(b, c).drop_last() =~= s.subrange(b, c - 1));
    }
}

/// The sum over a range of positions is at most the sum of the whole sequence.
pub proof fn lemma_sum_range_bounded(s: Seq<u64>, a: int, b: int)
    requires
        0 <= a <= b <= s.len(),
    ensures
        sum_of(s.subrange(a, b)) <= sum_of(s),
{
    lemma_sum_split(s, 0, a, s.len() as int);
    lemma_sum_split(s, a, b, s.len() as int);
    lemma_sum_nonneg(s.subrange(0, a));
    lemma_sum_nonneg(s.subrange(b, s.len() as int));
    assert(s.subrange(0, s.len() as int) =~= s);
}

/// A subtree commits to the sum of the balances under it.
pub proof fn lemma_subtree_amount(s: Seq<u64>, start: int, end: int)
    requires
        0 <= start < end <= s.len(),
    ensures
        subtree_view(s, start, end).amount == sum_of(s.subrange(start, end)),
    decreases end - start,
{
    if end - start == 1 {
        let one = s.subrange(start, end);
        assert(one.drop_last() =~= Seq::<u64>::empty());
        assert(sum_of(one.drop_last()) == 0);
        assert(one.last() == s[start]);
    } else {
        let mid = start + (end - start) / 2;
        lemma_subtree_amount(s, start, mid);
        lemma_subtree_amount(s, mid, end);
        lemma_sum_split(s, start, mid, end);
    }
}

/// A Merkle sum tree over a sequence of balances, with proofs of type `P`.
pub trait MerkleTree: Sized {
    type P: ExclusiveAllotmentProof<MimiSumCommitment>;

    /// The balances, in the order of their positions.
    spec fn spec_balances(&self) -> Seq<u64>;

    spec fn spec_wf(&self) -> bool;

    fn new(values: Vec<u64>) -> (r: Result<Self, MerkleError>)
        ensures
            values@.len() == 0 ==> r == Err::<Self, MerkleError>(MerkleError::EmptyInput),
            values@.len() > 0 && sum_of(values@) > u64::MAX ==> r == Err::<Self, MerkleError>(
                MerkleError::AmountOverflow,
            ),
            values@.len() > 0 && sum_of(values@) <= u64::MAX ==> (r matches Ok(t) && t.spec_wf()
                && t.spec_balances() == values@),
    ;

    fn commit(&self) -> (r: MimiSumCommitment)
        requires
            self.spec_wf(),
        ensures
            r@ == root_view(self.spec_balances()),
    ;

    fn prove(&self, position: usize) -> (r: Result<Self::P, MerkleError>)
        requires
            self.spec_wf(),
        ensures
            position >= self.spec_balances().len() ==> r == Err::<Self::P, MerkleError>(
                MerkleError::PositionOutOfRange,
            ),
            position < self.spec_balances().len() ==> (r matches Ok(p) && p.spec_position()
                == position && p.spec_path() == path_view(
                self.spec_balances(),
                0,
                self.spec_balances().len() as int,
                position as int,
            )),
    ;
}

/// A tree over a non-empty sequence of balances whose sum fits in `u64`.
#[derive(Debug)]
pub struct MimiMerkleTree {
    balances: Vec<u64>,
    leaf_nodes: Vec<MimiSumCommitment>,
}

impl View for MimiMerkleTree {
    type V = Seq<u64>;

    /// The balances, in the order of their positions.
    closed spec fn view(&self) -> Seq<u64> {
        self.balances@
    }
}

impl MimiMerkleTree {
    /// At least one leaf, each leaf commitment is that of its balance, and the sum of
    /// the balances fits in `u64`.
    pub closed spec fn wf(&self) -> bool {
        &&& self.balances.len() >= 1
        &&& self.leaf_nodes.len() == self.balances.len()
        &&& forall|i: int|
            0 <= i < self.balances.len() ==> #[trigger] self.leaf_nodes@[i]@ == leaf_view(
                self.balances@[i],
            )
        &&& sum_of(self.balances@) <= u64::MAX
    }

    /// Builds the tree over `values`, position `i` holding `values[i]`.
    pub fn new(values: Vec<u64>) -> (r: Result<Self, MerkleError>)
        ensures
            values@.len() == 0 ==> r == Err::<Self, MerkleError>(MerkleError::EmptyInput),
            values@.len() > 0 && sum_of(values@) > u64::MAX ==> r == Err::<Self, MerkleError>(
                MerkleError::AmountOverflow,
            ),
            values@.len() > 0 && sum_of(values@) <= u64::MAX ==> (r matches Ok(t) && t.wf()
                && t@ == values@),
    {
        if values.len() == 0 {
            return Err(MerkleError::EmptyInput);
        }
        let mut total: u64 = 0;
        let mut i: usize = 0;
        while i < values.len()
            invariant
                i <= values@.len(),
                total == sum_of(values@.subrange(0, i as int)),
            decreases values@.len() - i,
        {
            assert(values@.subrange(0, i + 1).drop_last() =~= values@.subrange(0, i as int));
            if total > u64::MAX - values[i] {
                proof {
                    lemma_sum_range_bounded(values@, 0, i + 1);
                }
                return Err(MerkleError::AmountOverflow);
            }
            total = total + values[i];
            i = i + 1;
        }
        assert(values@.subrange(0, values@.len() as int) =~= values@);
        let mut leaf_nodes: Vec<MimiSumCommitment> = Vec::new();
        let mut j: usize = 0;
        while j < values.len()
            invariant
                j <= values@.len(),
                leaf_nodes@.len() == j,
                forall|k: int| 0 <= k < j ==> #[trigger] leaf_nodes@[k]@ == leaf_view(values@[k]),
            decreases values@.len() - j,
        {
            leaf_nodes.push(MimiSumCommitment::leaf(values[j]));
            j = j + 1;
        }
        Ok(MimiMerkleTree { balances: values, leaf_nodes })
    }

    /// The root commitment.
    pub fn commit(&self) -> (r: MimiSumCommitment)
        requires
            self.wf(),
        ensures
            r@ == root_view(self@),
    {
        self.compute_root_commitment(0, self.balances.len())
    }

    /// The inclusion proof of the leaf at `position`.
    pub fn prove(&self, position: usize) -> (r: Result<MimiExclusiveAllotmentProof, MerkleError>)
        requires
            self.wf(),
        ensures
            position >= self@.len() ==> r == Err::<MimiExclusiveAllotmentProof, MerkleError>(
                MerkleError::PositionOutOfRange,
            ),
            position < self@.len() ==> (r matches Ok(p) && p.position == position && path_views(
                p.path@,
            ) == path_view(self@, 0, self@.len() as int, position as int)),
    {
        if position >= self.balances.len() {
            return Err(MerkleError::PositionOutOfRange);
        }
        let mut path: Vec<PathEntry> = Vec::new();
        self.generate_proof(position, 0, self.balances.len(), &mut path);
        assert(path_views(Seq::<PathEntry>::empty()) =~= Seq::<PathEntryView>::empty());
        assert(Seq::<PathEntryView>::empty() + path_view(
            self@,
            0,
            self@.len() as int,
            position as int,
        ) =~= path_view(self@, 0, self@.len() as int, position as int));
        Ok(MimiExclusiveAllotmentProof { position, path })
    }

    /// The commitment of the subtree over leaves `[start, end)`.
    fn compute_root_commitment(&self, start: usize, end: usize) -> (r: MimiSumCommitment)
        requires
            self.wf(),
            start < end <= self@.len(),
        ensures
            r@ == subtree_view(self@, start as int, end as int),
        decreases end - start,
    {
        if end - start == 1 {
            self.leaf_nodes[start]
        } else {
            let mid = start + (end - start) / 2;
            let left = self.compute_root_commitment(start, mid);
            let right = self.compute_root_commitment(mid, end);
            proof {
                lemma_subtree_amount(self@, start as int, end as int);
                lemma_sum_range_bounded(self@, start as int, end as int);
            }
            MimiSumCommitment::combine_within(&left, &right)
        }
    }

    /// Appends to `path` the inclusion path of leaf `position` within `[start, end)`.
    fn generate_proof(&self, position: usize, start: usize, end: usize, path: &mut Vec<PathEntry>)
        requires
            self.wf(),
            start <= position < end <= self@.len(),
        ensures
            path_views(final(path)@) == path_views(old(path)@) + path_view(
                self@,
                start as int,
                end as int,
                position as int,
            ),
        decreases end - start,
    {
        if end - start == 1 {
            assert(path_views(path@) =~= path_views(path@) + Seq::<PathEntryView>::empty());
            return;
        }
        let mid = start + (end - start) / 2;
        if position < mid {
            self.generate_proof(position, start, mid, path);
            let sibling = self.compute_root_commitment(mid, end);
            let ghost before = path@;
            path.push(PathEntry { sibling, side: Side::Right });
            assert(path_views(path@) =~= path_views(before).push(path@.last()@));
        } else {
            self.generate_proof(position, mid, end, path);
            let sibling = self.compute_root_commitment(start, mid);
            let ghost before = path@;
            path.push(PathEntry { sibling, side: Side::Left });
            assert(path_views(path@) =~= path_views(before).push(path@.last()@));
        }
        assert(path_views(path@) =~= path_views(old(path)@) + path_view(
            self@,
            start as int,
            end as int,
            position as int,
        ));
    }
}

impl MerkleTree for MimiMerkleTree {
    type P = MimiExclusiveAllotmentProof;

    open spec fn spec_balances(&self) -> Seq<u64> {
        self@
    }

    open spec fn spec_wf(&self) -> bool {
        self.wf()
    }

    fn new(values: Vec<u64>) -> (r: Result<Self, MerkleError>) {
        MimiMerkleTree::new(values)
    }

    fn commit(&self) -> (r: MimiSumCommitment) {
        MimiMerkleTree::commit(self)
    }

    fn prove(&self, position: usize) -> (r: Result<MimiExclusiveAllotmentProof, MerkleError>) {
        MimiMerkleTree::prove(self, position)
    }
}

} // verus!
