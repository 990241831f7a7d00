use mimi_merkle::{
    ExclusiveAllotmentProof, MerkleError, MerkleTree, MimiExclusiveAllotmentProof,
    MimiMerkleTree, MimiSumCommitment, MimiSumCommitmentWrapper, PathEntry, Side,
    SumCommitment,
};

fn hex(d: &[u8; 32]) -> String {
    d.iter().map(|b| format!("{:02x}", b)).collect()
}

fn build(values: &[u64]) -> MimiMerkleTree {
    MimiMerkleTree::new(values.to_vec()).unwrap()
}

fn verifies(p: &MimiExclusiveAllotmentProof, leaf: u64, root: &MimiSumCommitment) -> bool {
    p.verify(leaf, root)
}

#[test]
fn scenario_five_balances() {
    let tree = build(&[100, 200, 300, 400, 500]);
    let root = tree.commit();
    assert_eq!(root.amount, 1500);
    let proof = tree.prove(2).unwrap();
    assert_eq!(proof.position, 2);
    assert!(verifies(&proof, 300, &root));
    assert!(!verifies(&proof, 301, &root));
}

#[test]
fn empty_input_is_refused() {
    assert!(matches!(MimiMerkleTree::new(vec![]), Err(MerkleError::EmptyInput)));
}

#[test]
fn single_leaf_position_out_of_range() {
    let tree = build(&[100]);
    assert!(matches!(tree.prove(1), Err(MerkleError::PositionOutOfRange)));
    let proof = tree.prove(0).unwrap();
    assert!(proof.path.is_empty());
    assert!(verifies(&proof, 100, &tree.commit()));
}

#[test]
fn single_leaf_root_is_the_leaf() {
    for v in [0u64, 1, 42, u64::MAX] {
        let tree = build(&[v]);
        assert_eq!(tree.commit(), MimiSumCommitment::leaf(v));
    }
}

#[test]
fn sum_conservation() {
    let cases: Vec<Vec<u64>> = vec![
        vec![7],
        vec![1, 2],
        vec![1, 2, 3],
        vec![0, 0, 0, 0],
        vec![5, 10, 15, 20, 25, 30, 35],
        (1..=33).collect(),
        vec![u64::MAX - 10, 4, 6],
    ];
    for values in cases {
        let total: u64 = values.iter().sum();
        assert_eq!(build(&values).commit().amount, total);
    }
}

#[test]
fn round_trip_for_every_position() {
    for n in 1u64..=17 {
        let values: Vec<u64> = (0..n).map(|i| i * 37 + 3).collect();
        let tree = build(&values);
        let root = tree.commit();
        for (i, v) in values.iter().enumerate() {
            let proof = tree.prove(i).unwrap();
            assert_eq!(proof.position, i);
            assert!(verifies(&proof, *v, &root));
        }
    }
}

#[test]
fn path_has_one_entry_per_level() {
    let tree = build(&[100, 200, 300, 400, 500]);
    assert_eq!(tree.prove(0).unwrap().path.len(), 2);
    assert_eq!(tree.prove(2).unwrap().path.len(), 2);
    assert_eq!(tree.prove(4).unwrap().path.len(), 3);
    let p = tree.prove(2).unwrap();
    assert_eq!(p.path[0].side, Side::Right);
    assert_eq!(p.path[0].sibling.amount, 900);
    assert_eq!(p.path[1].side, Side::Left);
    assert_eq!(p.path[1].sibling.amount, 300);
}

#[test]
fn tampered_sibling_amount_fails() {
    let tree = build(&[100, 200, 300, 400, 500]);
    let root = tree.commit();
    let proof = tree.prove(2).unwrap();
    for j in 0..proof.path.len() {
        let mut bad = proof.clone();
        bad.path[j].sibling.amount += 1;
        assert!(!verifies(&bad, 300, &root));
    }
}

#[test]
fn tampered_sibling_digest_fails() {
    let tree = build(&[100, 200, 300, 400, 500]);
    let root = tree.commit();
    let proof = tree.prove(3).unwrap();
    for j in 0..proof.path.len() {
        let mut bad = proof.clone();
        bad.path[j].sibling.digest[0] ^= 1;
        assert!(!verifies(&bad, 400, &root));
    }
}

#[test]
fn tampered_side_or_length_fails() {
    let tree = build(&[100, 200, 300, 400, 500]);
    let root = tree.commit();
    let proof = tree.prove(4).unwrap();
    let mut flipped = proof.clone();
    flipped.path[0].side = match flipped.path[0].side {
        Side::Left => Side::Right,
        Side::Right => Side::Left,
    };
    assert!(!verifies(&flipped, 500, &root));
    let mut shorter = proof.clone();
    shorter.path.pop();
    assert!(!verifies(&shorter, 500, &root));
    let mut longer = proof.clone();
    longer.path.push(PathEntry { sibling: MimiSumCommitment::leaf(0), side: Side::Right });
    assert!(!verifies(&longer, 500, &root));
}

#[test]
fn wrong_root_fails() {
    let tree = build(&[100, 200, 300, 400, 500]);
    let other = build(&[100, 200, 300, 400, 501]).commit();
    assert!(!verifies(&tree.prove(1).unwrap(), 200, &other));
}

#[test]
fn position_bound() {
    let values = [3u64, 1, 4, 1, 5, 9];
    let tree = build(&values);
    for i in 0..values.len() {
        assert!(tree.prove(i).is_ok());
    }
    for i in values.len()..values.len() + 4 {
        assert!(matches!(tree.prove(i), Err(MerkleError::PositionOutOfRange)));
    }
    assert!(matches!(tree.prove(usize::MAX), Err(MerkleError::PositionOutOfRange)));
}

#[test]
fn determinism() {
    let values = [11u64, 22, 33, 44, 55, 66, 77];
    let a = build(&values);
    let b = build(&values);
    assert_eq!(a.commit(), b.commit());
    assert_eq!(a.commit().digest, b.commit().digest);
    for i in 0..values.len() {
        let pa = a.prove(i).unwrap();
        let pb = b.prove(i).unwrap();
        assert_eq!(pa.path.len(), pb.path.len());
        for (x, y) in pa.path.iter().zip(pb.path.iter()) {
            assert_eq!(x.sibling, y.sibling);
            assert_eq!(x.side, y.side);
        }
    }
}

#[test]
fn leaf_digest_is_sha256_of_tag_and_amount() {
    let c = MimiSumCommitment::leaf(100);
    assert_eq!(c.amount, 100);
    assert_eq!(
        hex(&c.digest),
        "fb84fde1f0d89698280178a23ab14d4633d0c6e4f807f46fb7d8eafc7b3c43f3"
    );
}

#[test]
fn combine_digest_binds_amounts_and_digests() {
    let c = MimiSumCommitment::combine(&MimiSumCommitment::leaf(100), &MimiSumCommitment::leaf(200))
        .unwrap();
    assert_eq!(c.amount, 300);
    assert_eq!(
        hex(&c.digest),
        "860b4bbdcdbcf9b64b5f5771809f1a617f0851cd3f4b6466fb5387aa050708ee"
    );
    assert_eq!(c, build(&[100, 200]).commit());
}

#[test]
fn root_digest_of_five_balances() {
    let root = build(&[100, 200, 300, 400, 500]).commit();
    assert_eq!(
        hex(&root.digest),
        "dee2f265dad45364fc4012ab8e9f4bf91f4db261d966f113d4ad1cd5b0284be9"
    );
}

#[test]
fn combine_overflow() {
    let big = MimiSumCommitment::new(u64::MAX, [0; 32]);
    let one = MimiSumCommitment::new(1, [0; 32]);
    assert!(matches!(MimiSumCommitment::combine(&big, &one), Err(MerkleError::AmountOverflow)));
    assert!(MimiSumCommitment::combine(&big, &MimiSumCommitment::new(0, [0; 32])).is_ok());
}

#[test]
fn build_overflow() {
    assert!(matches!(MimiMerkleTree::new(vec![u64::MAX, 1]), Err(MerkleError::AmountOverflow)));
    assert!(matches!(
        MimiMerkleTree::new(vec![1, 2, u64::MAX - 2]),
        Err(MerkleError::AmountOverflow)
    ));
    assert_eq!(build(&[u64::MAX - 3, 1, 2]).commit().amount, u64::MAX);
}

#[test]
fn reconstruct_overflow_gives_none_and_verify_false() {
    let tree = build(&[100, 200]);
    let root = tree.commit();
    let mut proof = tree.prove(0).unwrap();
    proof.path[0].sibling.amount = u64::MAX;
    assert!(proof.reconstruct_root(100).is_none());
    assert!(!verifies(&proof, 100, &root));
}

#[test]
fn reconstruct_root_matches_commit() {
    let tree = build(&[9, 8, 7]);
    let proof = tree.prove(1).unwrap();
    assert_eq!(proof.reconstruct_root(8).unwrap(), tree.commit());
}

#[test]
fn verify_against_wrapped_root() {
    let tree = build(&[100, 200, 300, 400]);
    let root = tree.commit();
    let wrapped = MimiSumCommitmentWrapper::new(root.amount, root.digest);
    assert_eq!(wrapped.amount(), root.amount);
    assert_eq!(wrapped.digest(), root.digest);
    assert_eq!(wrapped.inner(), root);
    let proof = tree.prove(2).unwrap();
    assert!(proof.verify(300, &wrapped));
    assert!(!proof.verify(299, &wrapped));
    let off = MimiSumCommitmentWrapper::new(root.amount + 1, root.digest);
    assert!(!proof.verify(300, &off));
}

#[test]
fn trait_surface() {
    let tree = <MimiMerkleTree as MerkleTree>::new(vec![4, 5, 6]).unwrap();
    let root = <MimiMerkleTree as MerkleTree>::commit(&tree);
    assert_eq!(root.amount, 15);
    let proof = <MimiMerkleTree as MerkleTree>::prove(&tree, 2).unwrap();
    assert_eq!(ExclusiveAllotmentProof::<MimiSumCommitment>::position(&proof), 2);
    let rebuilt = <MimiExclusiveAllotmentProof as ExclusiveAllotmentProof<MimiSumCommitment>>::generate_proof(
        2,
        proof.path.clone(),
    );
    assert!(verifies(&rebuilt, 6, &root));
    assert_eq!(SumCommitment::amount(&root), 15);
    assert_eq!(SumCommitment::digest(&root), root.digest);
}
