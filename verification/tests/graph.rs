use drgraph::drgraph::{new_seed, BucketGraph, Graph};
use drgraph::{Blake2bHasher, Blake2sHasher, Hasher, Sha256Hasher};

fn graph_bucket<H: Hasher>() {
    for size in vec![3usize, 10, 200, 2000] {
        for degree in 2usize..12 {
            let g = BucketGraph::<H>::new(size, degree, 0, new_seed().unwrap());

            assert_eq!(g.size(), size, "wrong nodes count");

            assert_eq!(g.parents(0), vec![0; degree]);
            assert_eq!(g.parents(1), vec![0; degree]);

            for i in 2..size {
                let pa1 = g.parents(i);
                let pa2 = g.parents(i);

                assert_eq!(pa1.len(), degree);
                assert_eq!(pa1, pa2, "different parents on the same node");

                let p1 = g.parents(i);
                let p2 = g.parents(i);

                for parent in p1 {
                    assert_ne!(i, parent, "self reference found");
                }

                let mut p1 = p2.clone();
                p1.sort();
                assert_eq!(p1, p2, "not sorted");
            }
        }
    }
}

#[test]
fn graph_bucket_sha256() {
    graph_bucket::<Sha256Hasher>();
}

#[test]
fn graph_bucket_blake2s() {
    graph_bucket::<Blake2sHasher>();
}

#[test]
fn graph_bucket_blake2b() {
    graph_bucket::<Blake2bHasher>();
}

fn gen_proof<H: Hasher>() {
    let g = BucketGraph::<H>::new(5, 3, 0, new_seed().unwrap());
    let node_size = 32;
    let data = vec![2u8; node_size * 5];

    let tree = g.merkle_tree(&data, node_size).unwrap();
    assert_eq!(tree.height(), 3);
    let proof = tree.gen_proof(2);

    assert!(proof.validate());
}

#[test]
fn gen_proof_sha256() {
    gen_proof::<Sha256Hasher>();
}

#[test]
fn gen_proof_blake2s() {
    gen_proof::<Blake2sHasher>();
}

#[test]
fn gen_proof_blake2b() {
    gen_proof::<Blake2bHasher>();
}
