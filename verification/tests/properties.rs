use drgraph::drgraph::{graph_height, BucketGraph, Graph};
use drgraph::{
    get_tree_size, Blake2bHasher, Blake2sHasher, Domain, Error, ParameterSetIdentifier,
    Sha256Hasher,
};

const SEED: [u32; 7] = [1, 2, 3, 4, 5, 6, 7];

#[test]
fn parents_concrete_scenario() {
    let g = BucketGraph::<Sha256Hasher>::new(5, 3, 0, SEED);

    assert_eq!(g.parents(0), vec![0, 0, 0]);
    assert_eq!(g.parents(1), vec![0, 0, 0]);

    for i in 2..5 {
        let pa = g.parents(i);
        assert_eq!(pa.len(), 3);
        let mut sorted = pa.clone();
        sorted.sort();
        assert_eq!(sorted, pa, "not ascending");
        for p in pa {
            assert!(p < i, "parent does not precede the node");
        }
    }
}

#[test]
fn parents_deterministic_and_seeded() {
    let g = BucketGraph::<Sha256Hasher>::new(2000, 5, 0, SEED);
    for i in 0..2000 {
        assert_eq!(g.parents(i), g.parents(i));
    }

    let other = BucketGraph::<Sha256Hasher>::new(2000, 5, 0, [8, 9, 10, 11, 12, 13, 14]);
    let mut differs = false;
    for i in 2..2000 {
        if g.parents(i) != other.parents(i) {
            differs = true;
            break;
        }
    }
    assert!(differs, "different seeds never changed any parent list");
}

#[test]
fn identifier_seed_independent() {
    let a = BucketGraph::<Sha256Hasher>::new(5, 3, 0, SEED);
    let b = BucketGraph::<Sha256Hasher>::new(5, 3, 0, [9, 9, 9, 9, 9, 9, 9]);
    assert_eq!(
        a.parameter_set_identifier(),
        "drgraph::BucketGraph{size: 5; degree: 3}"
    );
    assert_eq!(a.parameter_set_identifier(), b.parameter_set_identifier());

    let c = BucketGraph::<Sha256Hasher>::new(10, 3, 0, SEED);
    let d = BucketGraph::<Sha256Hasher>::new(5, 4, 0, SEED);
    assert_ne!(a.parameter_set_identifier(), c.parameter_set_identifier());
    assert_ne!(a.parameter_set_identifier(), d.parameter_set_identifier());
    assert_eq!(
        c.parameter_set_identifier(),
        "drgraph::BucketGraph{size: 10; degree: 3}"
    );
}

#[test]
fn depth_formula() {
    assert_eq!(graph_height(0), 0);
    assert_eq!(graph_height(1), 0);
    assert_eq!(graph_height(2), 1);
    assert_eq!(graph_height(5), 3);
    assert_eq!(graph_height(200), 8);
    assert_eq!(graph_height(256), 8);
    assert_eq!(graph_height(257), 9);

    let g = BucketGraph::<Sha256Hasher>::new(200, 3, 0, SEED);
    assert_eq!(g.merkle_tree_depth(), 8);
}

#[test]
fn expected_size_is_nodes_times_node_size() {
    let g = BucketGraph::<Sha256Hasher>::new(5, 3, 0, SEED);
    assert_eq!(g.expected_size(32), 160);
    assert!(g.forward());
    assert_eq!(g.degree(), 3);
    assert_eq!(g.seed(), SEED);
}

#[test]
fn tree_size_law() {
    let g = BucketGraph::<Sha256Hasher>::new(5, 3, 0, SEED);

    let short = vec![2u8; 100];
    match g.merkle_tree(&short, 32) {
        Err(Error::InvalidMerkleTreeArgs(dl, ns, n)) => {
            assert_eq!((dl, ns, n), (100, 32, 5));
        }
        other => panic!("expected a size mismatch, got {:?}", other.is_ok()),
    }

    let wrong_node_size = vec![2u8; 16 * 5];
    match g.merkle_tree(&wrong_node_size, 16) {
        Err(Error::InvalidNodeSize(ns)) => assert_eq!(ns, 16),
        other => panic!("expected a node size error, got {:?}", other.is_ok()),
    }

    let good = vec![2u8; 32 * 5];
    let tree = g.merkle_tree(&good, 32).unwrap();
    assert_eq!(tree.height(), 3);

    let mut bad = vec![2u8; 32 * 5];
    bad[31] = 0xff;
    match g.merkle_tree(&bad, 32) {
        Err(Error::InvalidDomainEncoding) => {}
        other => panic!("expected a domain decode error, got {:?}", other.is_ok()),
    }
}

#[test]
fn sequential_and_parallel_trees_agree() {
    let g = BucketGraph::<Sha256Hasher>::new(5, 3, 0, SEED);
    let data = vec![2u8; 32 * 5];

    let seq_tree = g.merkle_tree_in_mode(&data, 32, false).unwrap();
    let par_tree = g.merkle_tree_in_mode(&data, 32, true).unwrap();

    assert_eq!(seq_tree.root().as_bytes(), par_tree.root().as_bytes());
    assert_eq!(seq_tree.height(), par_tree.height());
}

#[test]
fn hash_families_give_different_commitments() {
    let gs = BucketGraph::<Sha256Hasher>::new(5, 3, 0, SEED);
    let gb = BucketGraph::<Blake2sHasher>::new(5, 3, 0, SEED);
    let data = vec![2u8; 32 * 5];

    let ts = gs.merkle_tree(&data, 32).unwrap();
    let tb = gb.merkle_tree(&data, 32).unwrap();

    assert_eq!(ts.root().as_bytes().len(), 32);
    assert_eq!(tb.root().as_bytes().len(), 32);
    assert_ne!(ts.root().as_bytes(), tb.root().as_bytes());

    let g2b = BucketGraph::<Blake2bHasher>::new(5, 3, 0, SEED);
    let t2b = g2b.merkle_tree(&data, 32).unwrap();
    assert_eq!(t2b.root().as_bytes().len(), 32);
    assert_ne!(t2b.root().as_bytes(), tb.root().as_bytes());
    assert_ne!(t2b.root().as_bytes(), ts.root().as_bytes());
}

#[test]
fn parallel_mode_masks_invalid_slices() {
    let g = BucketGraph::<Sha256Hasher>::new(5, 3, 0, SEED);

    let mut bad = vec![2u8; 32 * 5];
    bad[31] = 0xff;
    let mut masked = bad.clone();
    masked[31] = 0xff & 0x3f;

    assert!(g.merkle_tree_in_mode(&bad, 32, false).is_err());
    let par_tree = g.merkle_tree_in_mode(&bad, 32, true).unwrap();
    let seq_tree = g.merkle_tree_in_mode(&masked, 32, false).unwrap();
    assert_eq!(par_tree.root().as_bytes(), seq_tree.root().as_bytes());
}

#[test]
fn domain_decoding() {
    let valid = vec![2u8; 32];
    let d = Domain::try_from_bytes(&valid).unwrap();
    assert_eq!(d.as_bytes(), &valid);

    let mut invalid = vec![2u8; 32];
    invalid[31] = 0x80;
    assert!(Domain::try_from_bytes(&invalid).is_err());

    assert!(Domain::try_from_bytes(&valid[..16]).is_err());
}

#[test]
fn tree_size_from_sector_size() {
    assert_eq!(get_tree_size(1024), 63);
    assert_eq!(get_tree_size(32), 1);
}

#[test]
fn fresh_seeds_are_available() {
    let a = drgraph::drgraph::new_seed().unwrap();
    let b = drgraph::drgraph::new_seed().unwrap();
    assert_eq!(a.len(), 7);
    assert_eq!(b.len(), 7);
}
