//! The binary commitment tree: leaves are the raw 32-byte node slices, and
//! every internal label is the hash-combine of its two children, the last
//! label of an odd level being paired with itself.

use crate::domain::{leaf_of, Domain};
use crate::hasher::Hasher;
use crate::math::merkle_height;
use core::marker::PhantomData;
use rayon::iter::{IndexedParallelIterator, IntoParallelRefIterator, ParallelIterator};
use vstd::prelude::*;

verus! {

/// The labels a sequence of domain values holds.
pub open spec fn labels(s: Seq<Domain>) -> Seq<Seq<u8>> {
    s.map_values(|d: Domain| d@)
}

/// The level above `cur`: pairs combined in order, a trailing element of an
/// odd level combined with itself.
pub open spec fn combine_level_spec<H: Hasher>(cur: Seq<Seq<u8>>) -> Seq<Seq<u8>> {
    Seq::new(
        ((cur.len() + 1) / 2) as nat,
        |i: int|
            H::spec_combine(
                cur[2 * i],
                cur[
                    if 2 * i + 1 < cur.len() {
                        2 * i + 1
                    } else {
                        2 * i
                    }
                ],
            ),
    )
}

/// Every level of the tree over the given leaf labels, bottom-up, ending
/// with the single root label.
pub open spec fn build_levels_spec<H: Hasher>(cur: Seq<Seq<u8>>) -> Seq<Seq<Seq<u8>>>
    decreases cur.len(),
{
    if cur.len() <= 1 {
        seq![cur]
    } else {
        seq![cur] + build_levels_spec::<H>(combine_level_spec::<H>(cur))
    }
}

pub proof fn lemma_build_levels<H: Hasher>(cur: Seq<Seq<u8>>)
    requires
        cur.len() >= 1,
    ensures
        build_levels_spec::<H>(cur).len() == merkle_height(cur.len()) + 1,
        build_levels_spec::<H>(cur)[0] == cur,
        build_levels_spec::<H>(cur).last().len() == 1,
    decreases cur.len(),
{
    if cur.len() <= 1 {
    } else {
        let next = combine_level_spec::<H>(cur);
        lemma_build_levels::<H>(next);
    }
}

/// In a built tree, every level above the leaves is the combination of the
/// level below it.
pub proof fn lemma_build_levels_structure<H: Hasher>(cur: Seq<Seq<u8>>, l: int)
    requires
        cur.len() >= 1,
        0 <= l < build_levels_spec::<H>(cur).len() - 1,
    ensures
        build_levels_spec::<H>(cur)[l].len() >= 2,
        build_levels_spec::<H>(cur)[l + 1] == combine_level_spec::<H>(
            build_levels_spec::<H>(cur)[l],
        ),
    decreases cur.len(),
{
    let full = build_levels_spec::<H>(cur);
    if cur.len() <= 1 {
    } else {
        let next = combine_level_spec::<H>(cur);
        let rest = build_levels_spec::<H>(next);
        if l == 0 {
            lemma_build_levels::<H>(next);
            assert(full[1] == rest[0]);
        } else {
            lemma_build_levels_structure::<H>(next, l - 1);
            assert(full[l] == rest[l - 1]);
            assert(full[l + 1] == rest[l]);
        }
    }
}

/// A binary commitment tree: one label per graph node at the bottom, the
/// root commitment at the top.
pub struct MerkleTree<H: Hasher> {
    levels: Vec<Vec<Domain>>,
    _h: PhantomData<H>,
}

impl<H: Hasher> View for MerkleTree<H> {
    type V = Seq<Seq<Seq<u8>>>;

    closed spec fn view(&self) -> Seq<Seq<Seq<u8>>> {
        self.levels@.map_values(|lvl: Vec<Domain>| labels(lvl@))
    }
}

impl<H: Hasher> MerkleTree<H> {
    /// A fully built tree: its levels are exactly those that
    /// `build_levels_spec` derives from its leaf labels.
    pub open spec fn wf(self) -> bool {
        &&& self@.len() >= 1
        &&& self@[0].len() >= 1
        &&& self@ == build_levels_spec::<H>(self@[0])
    }

    /// The leaf labels, one per graph node.
    pub open spec fn leafs(self) -> Seq<Seq<u8>> {
        self@[0]
    }

    /// The root label: the commitment to the whole data.
    pub open spec fn spec_root(self) -> Seq<u8> {
        self@.last()[0]
    }

    /// The number of levels above the leaves.
    pub open spec fn spec_height(self) -> nat {
        (self@.len() - 1) as nat
    }

    /// Builds the tree over the given leaf labels.
    pub fn new(leaves: Vec<Domain>) -> (t: MerkleTree<H>)
        requires
            leaves@.len() >= 1,
        ensures
            t.wf(),
            t.leafs() == labels(leaves@),
            t.spec_height() == merkle_height(leaves@.len()),
    {
        let ghost first = labels(leaves@);
        let mut levels: Vec<Vec<Domain>> = Vec::new();
        let mut cur: Vec<Domain> = leaves;
        proof {
            lemma_build_levels::<H>(first);
        }
        while cur.len() > 1
            invariant
                cur@.len() >= 1,
                first.len() >= 1,
                levels@.len() >= 1 ==> labels(levels@[0]@) == first,
                levels@.len() == 0 ==> labels(cur@) == first,
                build_levels_spec::<H>(first) == levels@.map_values(
                    |lvl: Vec<Domain>| labels(lvl@),
                ) + build_levels_spec::<H>(labels(cur@)),
            decreases cur@.len(),
        {
            let next = combine_level::<H>(&cur);
            proof {
                let lv = levels@.map_values(|lvl: Vec<Domain>| labels(lvl@));
                assert(build_levels_spec::<H>(labels(cur@)) == seq![labels(cur@)]
                    + build_levels_spec::<H>(labels(next@)));
                assert(levels@.push(cur).map_values(|lvl: Vec<Domain>| labels(lvl@)) =~= lv.push(
                    labels(cur@),
                ));
                assert(lv + (seq![labels(cur@)] + build_levels_spec::<H>(labels(next@))) =~= lv.push(
                    labels(cur@),
                ) + build_levels_spec::<H>(labels(next@)));
            }
            levels.push(cur);
            cur = next;
        }
        proof {
            assert(build_levels_spec::<H>(labels(cur@)) =~= seq![labels(cur@)]);
        }
        levels.push(cur);
        let t = MerkleTree { levels, _h: PhantomData };
        proof {
            assert(t@ =~= build_levels_spec::<H>(first));
            assert(t.leafs() == first);
            lemma_build_levels::<H>(first);
        }
        t
    }

    /// The number of levels above the leaves.
    pub fn height(&self) -> (r: usize)
        requires
            self.wf(),
        ensures
            r == self.spec_height(),
    {
        self.levels.len() - 1
    }

    /// The root commitment.
    pub fn root(&self) -> (r: &Domain)
        requires
            self.wf(),
        ensures
            r@ == self.spec_root(),
    {
        let top = &self.levels[self.levels.len() - 1];
        proof {
            assert(self@.last() == labels(top@));
            lemma_build_levels::<H>(self@[0]);
        }
        &top[0]
    }

    /// An inclusion proof for the leaf at index `i`: the sibling labels on
    /// the path from that leaf to the root. Folding the proof's path always
    /// reproduces the root, so `validate` holds on what this returns.
    pub fn gen_proof(&self, i: usize) -> (p: InclusionProof<H>)
        requires
            self.wf(),
            i < self.leafs().len(),
        ensures
            p.spec_leaf() == self.leafs()[i as int],
            p.spec_root() == self.spec_root(),
            p.spec_path().len() == self.spec_height(),
            fold_proof::<H>(p.spec_leaf(), p.spec_path()) == p.spec_root(),
    {
        let mut idx: usize = i;
        let mut path: Vec<(Domain, bool)> = Vec::new();
        let mut l: usize = 0;
        let ghost leaf0 = self.leafs()[i as int];
        while l < self.levels.len() - 1
            invariant
                self.wf(),
                l < self.levels@.len(),
                path@.len() == l,
                idx < self@[l as int].len(),
                leaf0 == self.leafs()[i as int],
                i < self.leafs().len(),
                fold_proof::<H>(leaf0, path_labels(path@)) == self@[l as int][idx as int],
            decreases self.levels@.len() - l,
        {
            proof {
                lemma_build_levels_structure::<H>(self@[0], l as int);
            }
            let level = &self.levels[l];
            let n = level.len();
            let sib: usize = if idx % 2 == 0 {
                if idx + 1 < n {
                    idx + 1
                } else {
                    idx
                }
            } else {
                idx - 1
            };
            let left = idx % 2 == 1;
            let ghost oldpath = path_labels(path@);
            let ghost cur_label = self@[l as int][idx as int];
            let ghost sib_label = self@[l as int][sib as int];
            path.push(((&level[sib]).duplicate(), left));
            proof {
                assert(path_labels(path@) =~= oldpath.push((sib_label, left)));
                lemma_fold_push::<H>(leaf0, oldpath, (sib_label, left));
                let lvl = self@[l as int];
                let half = idx / 2;
                assert(self@[l as int + 1] == combine_level_spec::<H>(lvl));
                assert(self@[l as int + 1].len() == (lvl.len() + 1) / 2);
                assert(idx / 2 < (lvl.len() + 1) / 2);
                if idx % 2 == 0 {
                    assert(2 * half == idx);
                    if idx + 1 < lvl.len() {
                        assert(self@[l as int + 1][half as int] == H::spec_combine(
                            cur_label,
                            sib_label,
                        ));
                    } else {
                        assert(self@[l as int + 1][half as int] == H::spec_combine(
                            cur_label,
                            cur_label,
                        ));
                    }
                } else {
                    assert(2 * half == idx - 1);
                    assert(self@[l as int + 1][half as int] == H::spec_combine(
                        sib_label,
                        cur_label,
                    ));
                }
            }
            idx = idx / 2;
            l = l + 1;
        }
        let root = self.root().duplicate();
        proof {
            assert(self@[l as int] == self@.last());
            lemma_build_levels::<H>(self@[0]);
            assert(idx == 0);
        }
        let leaf = (&self.levels[0])[i].duplicate();
        InclusionProof { leaf, path, root, _h: PhantomData }
    }
}

/// The sibling labels of a proof path, with their sides.
pub open spec fn path_labels(p: Seq<(Domain, bool)>) -> Seq<(Seq<u8>, bool)> {
    p.map_values(|e: (Domain, bool)| (e.0@, e.1))
}

/// Recomputes the root label from a leaf and the sibling path: each step
/// combines the running label with the next sibling, on the recorded side.
pub open spec fn fold_proof<H: Hasher>(cur: Seq<u8>, path: Seq<(Seq<u8>, bool)>) -> Seq<u8>
    decreases path.len(),
{
    if path.len() == 0 {
        cur
    } else {
        let e = path[0];
        fold_proof::<H>(
            if e.1 {
                H::spec_combine(e.0, cur)
            } else {
                H::spec_combine(cur, e.0)
            },
            path.drop_first(),
        )
    }
}

pub proof fn lemma_fold_push<H: Hasher>(cur: Seq<u8>, path: Seq<(Seq<u8>, bool)>, e: (Seq<u8>, bool))
    ensures
        fold_proof::<H>(cur, path.push(e)) == (if e.1 {
            H::spec_combine(e.0, fold_proof::<H>(cur, path))
        } else {
            H::spec_combine(fold_proof::<H>(cur, path), e.0)
        }),
    decreases path.len(),
{
    if path.len() == 0 {
        let p1 = path.push(e);
        assert(p1[0] == e);
        assert(p1.drop_first() =~= Seq::<(Seq<u8>, bool)>::empty());
        assert(fold_proof::<H>(cur, p1) == fold_proof::<H>(
            if e.1 {
                H::spec_combine(e.0, cur)
            } else {
                H::spec_combine(cur, e.0)
            },
            p1.drop_first(),
        ));
    } else {
        assert(path.push(e)[0] == path[0]);
        assert(path.push(e).drop_first() =~= path.drop_first().push(e));
        let step = if path[0].1 {
            H::spec_combine(path[0].0, cur)
        } else {
            H::spec_combine(cur, path[0].0)
        };
        lemma_fold_push::<H>(step, path.drop_first(), e);
    }
}

/// An inclusion proof: a leaf label, the sibling labels up to the root,
/// and the root commitment it leads to.
pub struct InclusionProof<H: Hasher> {
    leaf: Domain,
    path: Vec<(Domain, bool)>,
    root: Domain,
    _h: PhantomData<H>,
}

impl<H: Hasher> InclusionProof<H> {
    /// The leaf label the proof speaks for.
    pub closed spec fn spec_leaf(self) -> Seq<u8> {
        self.leaf@
    }

    /// The sibling labels along the path, with their sides.
    pub closed spec fn spec_path(self) -> Seq<(Seq<u8>, bool)> {
        path_labels(self.path@)
    }

    /// The root commitment the proof claims.
    pub closed spec fn spec_root(self) -> Seq<u8> {
        self.root@
    }

    /// Whether recombining the leaf with the sibling path reproduces the
    /// claimed root.
    pub fn validate(&self) -> (r: bool)
        ensures
            r <==> fold_proof::<H>(self.spec_leaf(), self.spec_path()) == self.spec_root(),
    {
        let mut cur: Domain = self.leaf.duplicate();
        let mut s: usize = 0;
        proof {
            assert(self.spec_path().skip(0) =~= self.spec_path());
        }
        while s < self.path.len()
            invariant
                s <= self.path@.len(),
                fold_proof::<H>(self.spec_leaf(), self.spec_path()) == fold_proof::<H>(
                    cur@,
                    self.spec_path().skip(s as int),
                ),
            decreases self.path@.len() - s,
        {
            let e = &self.path[s];
            let next = if e.1 {
                H::hash_combine(&e.0, &cur)
            } else {
                H::hash_combine(&cur, &e.0)
            };
            proof {
                let rest = self.spec_path().skip(s as int);
                assert(rest[0] == (e.0@, e.1));
                assert(rest.drop_first() =~= self.spec_path().skip(s as int + 1));
            }
            cur = next;
            s = s + 1;
        }
        proof {
            assert(self.spec_path().skip(s as int) =~= Seq::<(Seq<u8>, bool)>::empty());
        }
        cur.same_as(&self.root)
    }
}

/// The level above `cur`, computed pairwise.
fn combine_level<H: Hasher>(cur: &Vec<Domain>) -> (r: Vec<Domain>)
    requires
        cur@.len() >= 2,
    ensures
        labels(r@) == combine_level_spec::<H>(labels(cur@)),
        r@.len() == (cur@.len() + 1) / 2,
{
    let n = cur.len();
    let half = 1 + (n - 1) / 2;
    proof {
        assert(half == (n + 1) / 2);
    }
    let mut out: Vec<Domain> = Vec::new();
    let mut i: usize = 0;
    while i < half
        invariant
            n == cur@.len(),
            2 <= n,
            half == (n + 1) / 2,
            i <= half,
            out@.len() == i,
            forall|j: int|
                0 <= j < i ==> out@[j]@ == combine_level_spec::<H>(labels(cur@))[j],
        decreases half - i,
    {
        let a = &cur[2 * i];
        let b = if 2 * i + 1 < n {
            &cur[2 * i + 1]
        } else {
            &cur[2 * i]
        };
        let c = H::hash_combine(a, b);
        out.push(c);
        proof {
            assert(labels(cur@)[2 * i as int] == a@);
            assert(out@[i as int]@ == combine_level_spec::<H>(labels(cur@))[i as int]);
        }
        i = i + 1;
    }
    proof {
        assert forall|j: int| 0 <= j < half implies labels(out@)[j] == combine_level_spec::<H>(
            labels(cur@),
        )[j] by {
            assert(labels(out@)[j] == out@[j]@);
        }
        assert(labels(out@) =~= combine_level_spec::<H>(labels(cur@)));
    }
    out
}

/// Relies on rayon's indexed parallel iterator: `collect` returns the
/// mapped results in input order, so the label for chunk `i` lands at
/// index `i`.
#[verifier::external_body]
pub(crate) fn par_map_leaves<H: Hasher>(chunks: &Vec<Vec<u8>>) -> (r: Vec<Domain>)
    requires
        forall|i: int| 0 <= i < chunks@.len() ==> chunks@[i]@.len() == 32,
    ensures
        r@.len() == chunks@.len(),
        forall|i: int| 0 <= i < r@.len() ==> r@[i]@ == leaf_of(chunks@[i]@),
{
    chunks.par_iter().map(|c| H::hash_single_node(c.as_slice())).collect()
}

} // verus!
