//! The depth-robust graph generator: seeded pseudorandom bucket sampling
//! assigns every node a fixed-degree, ascending list of strictly earlier
//! parents.

use crate::domain::{leaf_of, valid_domain, Domain};
use crate::error::Error;
use crate::hasher::Hasher;
use crate::merkle::{build_levels_spec, labels, MerkleTree};
use crate::math::{
    floor_log2, lemma_log2_floor_bounds, lemma_merkle_height_unique, log2_floor, merkle_height,
    pow2_min,
};
use crate::rng::{chacha_gen_range_u64, chacha_gen_u64, NodeRng};
use crate::sorting::{sort_usize, usize_le};
use core::marker::PhantomData;
use vstd::arithmetic::div_mod::{lemma_div_pos_is_pos, lemma_multiply_divide_lt};
use vstd::arithmetic::power2::pow2;
use vstd::prelude::*;
use vstd::relations::sorted_by;

pub use crate::rng::new_seed;

verus! {

/// The per-node generator seed: the graph's seven seed words with the node
/// index appended as an eighth word.
pub open spec fn seed8(seed: Seq<u32>, node: usize) -> Seq<u32> {
    seed.push(node as u32)
}

/// Clamps `x` into `[lo, hi]`.
pub open spec fn clamp(x: int, lo: int, hi: int) -> int {
    if x < lo {
        lo
    } else if x > hi {
        hi
    } else {
        x
    }
}

/// The bounds `(lo, hi)` of the ranged draw for parent slot `k` of `node`,
/// given the draws `t` already made on the node's generator: a bucket of
/// exponentially growing size is chosen from the plain draw, and the
/// back-distance is then drawn from `[lo, hi)`.
pub open spec fn slot_bounds(
    s8: Seq<u32>,
    t: Seq<(u64, u64)>,
    node: usize,
    m: usize,
    k: int,
) -> (int, int) {
    let logi = log2_floor((node * m) as nat) as int;
    let j = (chacha_gen_u64(s8, t) as int) % logi;
    let cap = node * m + k;
    let p = pow2((j + 1) as nat) as int;
    let jj = if cap <= p {
        cap
    } else {
        p
    };
    let lo = if jj / 2 >= 2 {
        jj / 2
    } else {
        2
    };
    (lo, jj + 1)
}

/// The draws made for parent slots `0..k` of `node`, in order: each slot
/// makes one plain draw, recorded `(0, 0)`, then one ranged draw.
pub open spec fn trace_spec(seed: Seq<u32>, node: usize, m: usize, k: nat) -> Seq<(u64, u64)>
    decreases k,
{
    if k == 0 {
        Seq::empty()
    } else {
        let t = trace_spec(seed, node, m, (k - 1) as nat);
        let b = slot_bounds(seed8(seed, node), t, node, m, k - 1);
        t.push((0u64, 0u64)).push((b.0 as u64, b.1 as u64))
    }
}

/// The back-distance drawn for parent slot `k` of `node`.
pub open spec fn slot_back_dist(seed: Seq<u32>, node: usize, m: usize, k: nat) -> int {
    let s8 = seed8(seed, node);
    let t = trace_spec(seed, node, m, k);
    let b = slot_bounds(s8, t, node, m, k as int);
    clamp(chacha_gen_range_u64(s8, t.push((0u64, 0u64)), b.0 as u64, b.1 as u64) as int, b.0, b.1 - 1)
}

/// The parent filled into slot `k` of `node` before sorting: the node
/// `back_dist` meta-edges back, with a self-reference replaced by the
/// immediate predecessor.
pub open spec fn candidate(seed: Seq<u32>, node: usize, m: usize, k: nat) -> int {
    let bd = slot_back_dist(seed, node, m, k);
    let out = (node * m + k - bd) / (m as int);
    if out == node {
        node - 1
    } else {
        out
    }
}

/// All `m` parent candidates of `node`, in slot order.
pub open spec fn candidates_seq(seed: Seq<u32>, node: usize, m: usize) -> Seq<usize> {
    Seq::new(m as nat, |k: int| candidate(seed, node, m, k as nat) as usize)
}

/// The parents of `node` in a bucket graph with degree `m` and the given
/// seed: nodes 0 and 1 get `m` self-references to node 0; every later node
/// gets its `m` sampled candidates, ascending.
pub open spec fn bucket_parents(seed: Seq<u32>, node: usize, m: usize) -> Seq<usize> {
    if node < 2 {
        Seq::new(m as nat, |k: int| 0usize)
    } else {
        candidates_seq(seed, node, m).sort_by(usize_le())
    }
}

/// Every sampled candidate of a node at index two or later lies strictly
/// before the node.
pub proof fn lemma_candidate_range(seed: Seq<u32>, node: usize, m: usize, k: nat)
    requires
        2 <= node,
        1 <= m,
        node * m + m <= usize::MAX,
        k < m,
    ensures
        0 <= candidate(seed, node, m, k) < node,
{
    let s8 = seed8(seed, node);
    let t = trace_spec(seed, node, m, k);
    let b = slot_bounds(s8, t, node, m, k as int);
    let prod = (node * m) as int;
    assert(prod >= 2 && prod + k < prod + m) by (nonlinear_arith)
        requires
            2 <= node,
            1 <= m,
            k < m,
            prod == node * m,
    ;
    let logi = log2_floor(prod as nat) as int;
    assert(logi >= 1);
    let j = (chacha_gen_u64(s8, t) as int) % logi;
    assert(0 <= j < logi);
    let p = pow2((j + 1) as nat) as int;
    assert(p >= 2) by {
        vstd::arithmetic::power2::lemma2_to64();
        if j + 1 > 1 {
            vstd::arithmetic::power2::lemma_pow2_strictly_increases(1, (j + 1) as nat);
        }
    }
    let cap = prod + k;
    let jj = if cap <= p {
        cap
    } else {
        p
    };
    assert(jj >= 2);
    let lo = b.0;
    let hi = b.1;
    assert(lo == if jj / 2 >= 2 {
        jj / 2
    } else {
        2
    });
    assert(2 <= lo <= jj);
    assert(hi == jj + 1);
    let bd = slot_back_dist(seed, node, m, k);
    assert(lo <= bd <= jj);
    let num = prod + k - bd;
    assert(0 <= num <= prod + k - 2);
    let out = num / (m as int);
    lemma_div_pos_is_pos(num, m as int);
    assert(num < (m as int) * (node + 1)) by (nonlinear_arith)
        requires
            num <= prod + k - 2,
            prod == node * m,
            k < m,
            1 <= m,
    ;
    lemma_multiply_divide_lt(num, m as int, node + 1);
    assert(0 <= out <= node);
}

/// Determinism: a node's parent list is a function of the seed, the degree
/// and the node index alone, so any two lists the sampling admits for the
/// same graph and node are equal — however often, and from wherever,
/// `parents` is called.
pub proof fn lemma_parents_deterministic(
    seed: Seq<u32>,
    node: usize,
    m: usize,
    a: Seq<usize>,
    b: Seq<usize>,
)
    requires
        a == bucket_parents(seed, node, m),
        b == bucket_parents(seed, node, m),
    ensures
        a == b,
{
}

/// The two special-cased roots: nodes 0 and 1 both take `m` copies of node
/// 0 as their parents.
pub proof fn lemma_first_nodes_parents(seed: Seq<u32>, m: usize)
    ensures
        bucket_parents(seed, 0, m) == bucket_parents(seed, 1, m),
        bucket_parents(seed, 0, m) == Seq::new(m as nat, |k: int| 0usize),
{
}

/// The default tree-construction mode: sequential.
pub const PARALLELL_MERKLE: bool = false;

/// The 32-byte slice of `data` that belongs to node `i`.
pub open spec fn node_slice(data: Seq<u8>, i: int) -> Seq<u8> {
    data.subrange(32 * i, 32 * i + 32)
}

/// Whether the buffer is exactly one `node_size` slice per node, with
/// `node_size` the native label width.
pub open spec fn tree_args_ok(n: usize, data: Seq<u8>, node_size: usize) -> bool {
    &&& data.len() == (node_size as int) * (n as int)
    &&& node_size == 32
}

/// Whether every node's slice is a valid label encoding.
pub open spec fn all_slices_valid(data: Seq<u8>, n: usize) -> bool {
    forall|i: int| 0 <= i < n ==> valid_domain(node_slice(data, i))
}

/// The leaf labels of the sequential mode: the raw slices themselves.
pub open spec fn raw_leaves(data: Seq<u8>, n: usize) -> Seq<Seq<u8>> {
    Seq::new(n as nat, |i: int| node_slice(data, i))
}

/// The leaf labels of the parallel mode: each slice masked into valid form.
pub open spec fn masked_leaves(data: Seq<u8>, n: usize) -> Seq<Seq<u8>> {
    Seq::new(n as nat, |i: int| leaf_of(node_slice(data, i)))
}

/// Sequential and parallel tree construction agree: over data whose slices
/// are all valid encodings, both modes derive identical levels, so
/// identical leaf labels and an identical root.
pub proof fn lemma_sequential_parallel_agree<H: Hasher>(data: Seq<u8>, n: usize)
    requires
        n >= 1,
        data.len() == 32 * (n as int),
        all_slices_valid(data, n),
    ensures
        build_levels_spec::<H>(masked_leaves(data, n)) == build_levels_spec::<H>(
            raw_leaves(data, n),
        ),
{
    assert forall|i: int| 0 <= i < n implies masked_leaves(data, n)[i] == raw_leaves(data, n)[i] by {
        assert(node_slice(data, i).len() == 32);
        crate::domain::lemma_leaf_of_valid(node_slice(data, i));
    }
    assert(masked_leaves(data, n) =~= raw_leaves(data, n));
}

/// The number of tree levels above the leaves of a binary commitment tree
/// over `size` leaves: the ceiling of the base-two logarithm of `size`.
pub fn graph_height(size: usize) -> (r: usize)
    ensures
        r == merkle_height(size as nat),
{
    if size <= 1 {
        return 0;
    }
    let f = floor_log2((size - 1) as u64);
    proof {
        lemma_log2_floor_bounds((size - 1) as nat);
        lemma_merkle_height_unique(size as nat, (f + 1) as nat);
        vstd::arithmetic::power2::lemma2_to64();
        if f >= 64 {
            if f > 64 {
                vstd::arithmetic::power2::lemma_pow2_strictly_increases(64, f as nat);
            }
            assert(pow2(f as nat) >= 0x10000000000000000);
            assert(false);
        }
    }
    (f as usize) + 1
}

/// The abstract depth-robust graph capability: node count, degree, seeded
/// deterministic parent lookup, and the derived tree operations. The
/// parent list is pinned to a spec-level function of the graph alone, so
/// repeated lookups always agree.
pub trait Graph<H: Hasher>: Sized {
    /// Whether the graph's shape is meaningful: at least the two
    /// special-cased nodes, at least one parent per node, and a
    /// node-times-degree product the sampling arithmetic can carry.
    spec fn wf(self) -> bool;

    /// The number of nodes.
    spec fn spec_size(self) -> usize;

    /// The number of parents assigned to every node.
    spec fn spec_degree(self) -> usize;

    /// The seed words the sampling is derived from.
    spec fn spec_seed(self) -> Seq<u32>;

    /// The parents of `node`, as a pure function of the graph and the node.
    spec fn spec_parents(self, node: usize) -> Seq<usize>;

    /// Builds a graph from shape parameters and a seed; expander edges are
    /// not supported, so the expansion degree must be zero.
    fn new(nodes: usize, base_degree: usize, expansion_degree: usize, seed: [u32; 7]) -> (g: Self)
        requires
            expansion_degree == 0,
            nodes >= 2,
            base_degree >= 1,
            nodes * base_degree <= usize::MAX,
        ensures
            g.wf(),
            g.spec_size() == nodes,
            g.spec_degree() == base_degree,
            g.spec_seed() == seed@,
    ;

    /// The node count.
    fn size(&self) -> (r: usize)
        ensures
            r == self.spec_size(),
    ;

    /// The degree.
    fn degree(&self) -> (r: usize)
        ensures
            r == self.spec_degree(),
    ;

    /// The seed words.
    fn seed(&self) -> (r: [u32; 7])
        ensures
            r@ == self.spec_seed(),
    ;

    /// The sorted parent list of `node`: always exactly `degree` entries,
    /// ascending; nodes 0 and 1 hold `degree` references to node 0, and
    /// every later node's parents strictly precede it.
    fn parents(&self, node: usize) -> (r: Vec<usize>)
        requires
            self.wf(),
            node < self.spec_size(),
        ensures
            r@ == self.spec_parents(node),
            r@.len() == self.spec_degree(),
            sorted_by(r@, usize_le()),
            node >= 2 ==> forall|i: int| 0 <= i < r@.len() ==> r@[i] < node,
            node < 2 ==> forall|i: int| 0 <= i < r@.len() ==> r@[i] == 0,
    ;

    /// Every node's parents precede it in index order.
    fn forward(&self) -> (r: bool)
        ensures
            r,
    ;

    /// The total byte size of the graph's data.
    fn expected_size(&self, node_size: usize) -> (r: usize)
        requires
            (self.spec_size() as int) * (node_size as int) <= usize::MAX as int,
        ensures
            r == (self.spec_size() as int) * (node_size as int),
    ;

    /// The height of the commitment tree built over this graph.
    fn merkle_tree_depth(&self) -> (r: u64)
        ensures
            r == merkle_height(self.spec_size() as nat),
    ;

    /// Builds the commitment tree over `data` in the default mode; see
    /// `BucketGraph::merkle_tree_in_mode` for the full obligations.
    fn merkle_tree(&self, data: &[u8], node_size: usize) -> (r: Result<MerkleTree<H>, Error>)
        requires
            self.wf(),
        ensures
            data@.len() != (node_size as int) * (self.spec_size() as int) ==> (r matches Err(e)
                && e == Error::InvalidMerkleTreeArgs(
                (data@.len() as usize),
                node_size,
                self.spec_size(),
            )),
            data@.len() == (node_size as int) * (self.spec_size() as int) && node_size != 32 ==> (
            r matches Err(e) && e == Error::InvalidNodeSize(node_size)),
            tree_args_ok(self.spec_size(), data@, node_size) && all_slices_valid(
                data@,
                self.spec_size(),
            ) ==> (r matches Ok(t) && t.wf() && t.leafs() == raw_leaves(data@, self.spec_size())
                && t.spec_height() == merkle_height(self.spec_size() as nat)),
            tree_args_ok(self.spec_size(), data@, node_size) && !all_slices_valid(
                data@,
                self.spec_size(),
            ) ==> (r matches Err(e) && e == Error::InvalidDomainEncoding),
    ;
}

/// A depth-robust graph generated by seeded pseudorandom bucket sampling.
pub struct BucketGraph<H: Hasher> {
    nodes: usize,
    base_degree: usize,
    seed: [u32; 7],
    _h: PhantomData<H>,
}

impl<H: Hasher> BucketGraph<H> {
    /// The number of nodes in the graph.
    pub closed spec fn spec_size(self) -> usize {
        self.nodes
    }

    /// The number of parents assigned to every node.
    pub closed spec fn spec_degree(self) -> usize {
        self.base_degree
    }

    /// The seven seed words the sampling is derived from.
    pub closed spec fn spec_seed(self) -> Seq<u32> {
        self.seed@
    }

    /// A meaningful graph: at least the two special-cased nodes, at least
    /// one parent per node, and a node-times-degree product that the
    /// sampling arithmetic can carry.
    pub open spec fn wf(self) -> bool {
        &&& self.spec_size() >= 2
        &&& self.spec_degree() >= 1
        &&& (self.spec_size() as int) * (self.spec_degree() as int) <= usize::MAX as int
    }

    /// The parents of `node`, as the sampling model assigns them.
    pub open spec fn spec_parents(self, node: usize) -> Seq<usize> {
        bucket_parents(self.spec_seed(), node, self.spec_degree())
    }

    /// Builds a graph over `nodes` nodes of degree `base_degree` from the
    /// given seed. Expander edges are not supported: the expansion degree
    /// must be zero.
    pub fn new(nodes: usize, base_degree: usize, expansion_degree: usize, seed: [u32; 7]) -> (g:
        Self)
        requires
            expansion_degree == 0,
            nodes >= 2,
            base_degree >= 1,
            nodes * base_degree <= usize::MAX,
        ensures
            g.wf(),
            g.spec_size() == nodes,
            g.spec_degree() == base_degree,
            g.spec_seed() == seed@,
    {
        BucketGraph { nodes, base_degree, seed, _h: PhantomData }
    }

    /// The node count.
    pub fn size(&self) -> (r: usize)
        ensures
            r == self.spec_size(),
    {
        self.nodes
    }

    /// The degree.
    pub fn degree(&self) -> (r: usize)
        ensures
            r == self.spec_degree(),
    {
        self.base_degree
    }

    /// The seed words.
    pub fn seed(&self) -> (r: [u32; 7])
        ensures
            r@ == self.spec_seed(),
    {
        self.seed
    }

    /// Every node's parents precede it in index order.
    pub fn forward(&self) -> (r: bool)
        ensures
            r,
    {
        true
    }

    /// The total byte size of the graph's data: one `node_size` slice per
    /// node.
    pub fn expected_size(&self, node_size: usize) -> (r: usize)
        requires
            (self.spec_size() as int) * (node_size as int) <= usize::MAX as int,
        ensures
            r == (self.spec_size() as int) * (node_size as int),
    {
        proof {
            assert((self.spec_size() as int) * (node_size as int) >= 0) by (nonlinear_arith);
        }
        self.nodes * node_size
    }

    /// The height of the commitment tree built over this graph.
    pub fn merkle_tree_depth(&self) -> (r: u64)
        ensures
            r == merkle_height(self.spec_size() as nat),
    {
        graph_height(self.nodes) as u64
    }

    /// The sorted parent list of `node`: always exactly `degree` entries;
    /// nodes 0 and 1 hold `degree` references to node 0; every later
    /// node's parents strictly precede it.
    pub fn parents(&self, node: usize) -> (r: Vec<usize>)
        requires
            self.wf(),
            node < self.spec_size(),
        ensures
            r@ == self.spec_parents(node),
            r@.len() == self.spec_degree(),
            sorted_by(r@, usize_le()),
            node >= 2 ==> forall|i: int| 0 <= i < r@.len() ==> r@[i] < node,
            node < 2 ==> forall|i: int| 0 <= i < r@.len() ==> r@[i] == 0,
    {
        let m = self.base_degree;
        if node < 2 {
            let v: Vec<usize> = vec![0usize; m];
            proof {
                assert(v@ =~= self.spec_parents(node));
            }
            v
        } else {
            let s8: [u32; 8] = [
                self.seed[0],
                self.seed[1],
                self.seed[2],
                self.seed[3],
                self.seed[4],
                self.seed[5],
                self.seed[6],
                node as u32,
            ];
            proof {
                assert(s8@ =~= seed8(self.spec_seed(), node));
            }
            let mut rng = NodeRng::from_seed(&s8);
            proof {
                assert(rng.spec_trace() =~= trace_spec(self.spec_seed(), node, m, 0));
                assert((self.spec_size() as int) * (m as int) <= usize::MAX as int);
                assert(node * m + m <= self.spec_size() * m) by (nonlinear_arith)
                    requires
                        node < self.spec_size(),
                        m >= 1,
                ;
                assert(node * m >= 2) by (nonlinear_arith)
                    requires
                        node >= 2,
                        m >= 1,
                ;
            }
            let prod = node * m;
            let logi = floor_log2(prod as u64);
            proof {
                assert(log2_floor(prod as nat) >= 1);
            }
            let mut out: Vec<usize> = Vec::new();
            let mut k: usize = 0;
            while k < m
                invariant
                    self.wf(),
                    2 <= node < self.spec_size(),
                    m == self.spec_degree(),
                    prod == node * m,
                    prod >= 2,
                    prod + m <= usize::MAX,
                    logi == log2_floor(prod as nat),
                    logi >= 1,
                    rng.spec_seed() == seed8(self.spec_seed(), node),
                    rng.spec_trace() == trace_spec(self.spec_seed(), node, m, k as nat),
                    k <= m,
                    out@.len() == k,
                    forall|i: int|
                        0 <= i < k ==> out@[i] == candidate(
                            self.spec_seed(),
                            node,
                            m,
                            i as nat,
                        ) as usize,
                decreases m - k,
            {
                let ghost gseed = self.spec_seed();
                let ghost t = rng.spec_trace();
                let x = rng.gen_u64();
                let j = x % logi;
                let cap = prod + k;
                let jj_wide = pow2_min(j + 1, cap as u64);
                let jj = jj_wide as usize;
                proof {
                    let b = slot_bounds(seed8(gseed, node), t, node, m, k as int);
                    assert(jj == if cap as int <= pow2((j + 1) as nat) as int {
                        cap as int
                    } else {
                        pow2((j + 1) as nat) as int
                    });
                    assert(jj >= 2) by {
                        vstd::arithmetic::power2::lemma2_to64();
                        if j + 1 > 1 {
                            vstd::arithmetic::power2::lemma_pow2_strictly_increases(
                                1,
                                (j + 1) as nat,
                            );
                        }
                    }
                }
                let lo = if jj / 2 >= 2 {
                    jj / 2
                } else {
                    2
                };
                let hi = jj + 1;
                let bd = rng.gen_range_u64(lo as u64, hi as u64) as usize;
                proof {
                    let b = slot_bounds(seed8(gseed, node), t, node, m, k as int);
                    assert(b.0 == lo as int && b.1 == hi as int);
                    assert(bd as int == slot_back_dist(gseed, node, m, k as nat));
                    assert(rng.spec_trace() =~= trace_spec(gseed, node, m, (k + 1) as nat));
                }
                let num = prod + k - bd;
                let out_idx = num / m;
                proof {
                    lemma_div_pos_is_pos(num as int, m as int);
                    assert((num as int) < (m as int) * (node + 1)) by (nonlinear_arith)
                        requires
                            num <= prod + k - 2,
                            prod == node * m,
                            k < m,
                            1 <= m,
                    ;
                    lemma_multiply_divide_lt(num as int, m as int, node + 1);
                    assert(out_idx <= node);
                    assert(out_idx as int == (node * m + k - slot_back_dist(
                        gseed,
                        node,
                        m,
                        k as nat,
                    )) / (m as int));
                }
                if out_idx == node {
                    out.push(node - 1);
                } else {
                    out.push(out_idx);
                }
                proof {
                    assert(out@[k as int] == candidate(gseed, node, m, k as nat) as usize);
                }
                k = k + 1;
            }
            proof {
                assert(out@ =~= candidates_seq(self.spec_seed(), node, m));
            }
            let sorted = sort_usize(out);
            proof {
                self.lemma_parents_properties(node);
            }
            sorted
        }
    }

    /// Builds the commitment tree over `data` in the given mode. The
    /// buffer must hold exactly one `node_size` slice per node, and
    /// `node_size` must be the native 32-byte label width; the sequential
    /// mode also rejects any slice that is not a valid label encoding,
    /// where the parallel mode masks it.
    pub fn merkle_tree_in_mode(&self, data: &[u8], node_size: usize, parallel: bool) -> (r: Result<
        MerkleTree<H>,
        Error,
    >)
        requires
            self.wf(),
        ensures
            data@.len() != (node_size as int) * (self.spec_size() as int) ==> (r matches Err(e)
                && e == Error::InvalidMerkleTreeArgs(
                (data@.len() as usize),
                node_size,
                self.spec_size(),
            )),
            data@.len() == (node_size as int) * (self.spec_size() as int) && node_size != 32 ==> (
            r matches Err(e) && e == Error::InvalidNodeSize(node_size)),
            tree_args_ok(self.spec_size(), data@, node_size) && parallel ==> (r matches Ok(t)
                && t.wf() && t.leafs() == masked_leaves(data@, self.spec_size())
                && t.spec_height() == merkle_height(self.spec_size() as nat)),
            tree_args_ok(self.spec_size(), data@, node_size) && !parallel && all_slices_valid(
                data@,
                self.spec_size(),
            ) ==> (r matches Ok(t) && t.wf() && t.leafs() == raw_leaves(data@, self.spec_size())
                && t.spec_height() == merkle_height(self.spec_size() as nat)),
            tree_args_ok(self.spec_size(), data@, node_size) && !parallel && !all_slices_valid(
                data@,
                self.spec_size(),
            ) ==> (r matches Err(e) && e == Error::InvalidDomainEncoding),
    {
        let n = self.nodes;
        let dl = data.len();
        proof {
            assert((node_size as int) < 0x10000000000000000);
            assert((n as int) < 0x10000000000000000);
            assert((node_size as int) * (n as int) < 0x100000000000000000000000000000000int)
                by (nonlinear_arith)
                requires
                    (node_size as int) < 0x10000000000000000,
                    (n as int) < 0x10000000000000000,
            ;
        }
        let expected: u128 = (node_size as u128) * (n as u128);
        if (dl as u128) != expected {
            return Err(Error::InvalidMerkleTreeArgs(dl, node_size, n));
        }
        if node_size != 32 {
            return Err(Error::InvalidNodeSize(node_size));
        }
        proof {
            assert(dl == 32 * (n as int));
        }
        if parallel {
            let mut chunks: Vec<Vec<u8>> = Vec::new();
            let mut i: usize = 0;
            while i < n
                invariant
                    data@.len() == 32 * (n as int),
                    data@.len() <= usize::MAX,
                    node_size == 32,
                    n == self.spec_size(),
                    parallel,
                    i <= n,
                    chunks@.len() == i,
                    forall|j: int| 0 <= j < i ==> chunks@[j]@ == node_slice(data@, j),
                decreases n - i,
            {
                let s = &data[(32 * i)..(32 * i + 32)];
                chunks.push(vstd::slice::slice_to_vec(s));
                i = i + 1;
            }
            proof {
                assert forall|j: int| 0 <= j < chunks@.len() implies chunks@[j]@.len() == 32 by {
                    assert(chunks@[j]@ == node_slice(data@, j));
                }
            }
            let leaves = crate::merkle::par_map_leaves::<H>(&chunks);
            proof {
                assert(labels(leaves@) =~= masked_leaves(data@, n));
            }
            let t = MerkleTree::new(leaves);
            Ok(t)
        } else {
            let mut leaves: Vec<Domain> = Vec::new();
            let mut i: usize = 0;
            while i < n
                invariant
                    data@.len() == 32 * (n as int),
                    data@.len() <= usize::MAX,
                    node_size == 32,
                    n == self.spec_size(),
                    !parallel,
                    i <= n,
                    leaves@.len() == i,
                    forall|j: int|
                        0 <= j < i ==> valid_domain(node_slice(data@, j)) && leaves@[j]@
                            == node_slice(data@, j),
                decreases n - i,
            {
                let s = &data[(32 * i)..(32 * i + 32)];
                proof {
                    assert(s@ == node_slice(data@, i as int));
                }
                match Domain::try_from_bytes(s) {
                    Ok(d) => {
                        leaves.push(d);
                    },
                    Err(e) => {
                        proof {
                            assert(!valid_domain(node_slice(data@, i as int)));
                        }
                        return Err(e);
                    },
                }
                i = i + 1;
            }
            proof {
                assert(labels(leaves@) =~= raw_leaves(data@, n));
            }
            let t = MerkleTree::new(leaves);
            Ok(t)
        }
    }

    /// Builds the commitment tree over `data` in the default mode.
    pub fn merkle_tree(&self, data: &[u8], node_size: usize) -> (r: Result<MerkleTree<H>, Error>)
        requires
            self.wf(),
        ensures
            data@.len() != (node_size as int) * (self.spec_size() as int) ==> (r matches Err(e)
                && e == Error::InvalidMerkleTreeArgs(
                (data@.len() as usize),
                node_size,
                self.spec_size(),
            )),
            data@.len() == (node_size as int) * (self.spec_size() as int) && node_size != 32 ==> (
            r matches Err(e) && e == Error::InvalidNodeSize(node_size)),
            tree_args_ok(self.spec_size(), data@, node_size) && all_slices_valid(
                data@,
                self.spec_size(),
            ) ==> (r matches Ok(t) && t.wf() && t.leafs() == raw_leaves(data@, self.spec_size())
                && t.spec_height() == merkle_height(self.spec_size() as nat)),
            tree_args_ok(self.spec_size(), data@, node_size) && !all_slices_valid(
                data@,
                self.spec_size(),
            ) ==> (r matches Err(e) && e == Error::InvalidDomainEncoding),
    {
        self.merkle_tree_in_mode(data, node_size, PARALLELL_MERKLE)
    }

    /// The structural invariants of a sampled parent list: full degree,
    /// ascending order, and strict precedence for nodes two and later.
    pub proof fn lemma_parents_properties(self, node: usize)
        requires
            self.wf(),
            node < self.spec_size(),
        ensures
            self.spec_parents(node).len() == self.spec_degree(),
            sorted_by(self.spec_parents(node), usize_le()),
            node >= 2 ==> forall|i: int|
                0 <= i < self.spec_parents(node).len() ==> self.spec_parents(node)[i] < node,
            node < 2 ==> forall|i: int|
                0 <= i < self.spec_parents(node).len() ==> self.spec_parents(node)[i] == 0,
    {
        let m = self.spec_degree();
        let seed = self.spec_seed();
        let ps = self.spec_parents(node);
        if node < 2 {
            assert(sorted_by(ps, usize_le()));
        } else {
            let cs = candidates_seq(seed, node, m);
            crate::sorting::lemma_usize_le_total();
            cs.lemma_sort_by_ensures(usize_le());
            broadcast use vstd::seq_lib::group_to_multiset_ensures;

            assert(ps.len() == ps.to_multiset().len());
            assert(cs.to_multiset().len() == cs.len());
            assert((self.spec_size() as int) * (m as int) <= usize::MAX as int);
            assert(node * m + m <= self.spec_size() * m) by (nonlinear_arith)
                requires
                    node < self.spec_size(),
                    m >= 1,
            ;
            assert forall|i: int| 0 <= i < ps.len() implies ps[i] < node by {
                assert(ps.to_multiset().contains(ps[i]));
                assert(cs.contains(ps[i]));
                let w = choose|w: int| 0 <= w < cs.len() && cs[w] == ps[i];
                lemma_candidate_range(seed, node, m, w as nat);
            }
        }
    }
}


impl<H: Hasher> Graph<H> for BucketGraph<H> {
    open spec fn wf(self) -> bool {
        BucketGraph::wf(self)
    }

    open spec fn spec_size(self) -> usize {
        BucketGraph::spec_size(self)
    }

    open spec fn spec_degree(self) -> usize {
        BucketGraph::spec_degree(self)
    }

    open spec fn spec_seed(self) -> Seq<u32> {
        BucketGraph::spec_seed(self)
    }

    open spec fn spec_parents(self, node: usize) -> Seq<usize> {
        BucketGraph::spec_parents(self, node)
    }

    fn new(nodes: usize, base_degree: usize, expansion_degree: usize, seed: [u32; 7]) -> (g: Self) {
        BucketGraph::new(nodes, base_degree, expansion_degree, seed)
    }

    fn size(&self) -> (r: usize) {
        BucketGraph::size(self)
    }

    fn degree(&self) -> (r: usize) {
        BucketGraph::degree(self)
    }

    fn seed(&self) -> (r: [u32; 7]) {
        BucketGraph::seed(self)
    }

    fn parents(&self, node: usize) -> (r: Vec<usize>) {
        BucketGraph::parents(self, node)
    }

    fn forward(&self) -> (r: bool) {
        BucketGraph::forward(self)
    }

    fn expected_size(&self, node_size: usize) -> (r: usize) {
        BucketGraph::expected_size(self, node_size)
    }

    fn merkle_tree_depth(&self) -> (r: u64) {
        BucketGraph::merkle_tree_depth(self)
    }

    fn merkle_tree(&self, data: &[u8], node_size: usize) -> (r: Result<MerkleTree<H>, Error>) {
        BucketGraph::merkle_tree(self, data, node_size)
    }
}

} // verus!
