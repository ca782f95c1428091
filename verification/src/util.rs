use vstd::prelude::*;

verus! {

/// The number of labels a full binary commitment tree holds for a sector of
/// the given byte size: one leaf per 32-byte node, and one internal label
/// fewer than there are leaves.
pub fn get_tree_size(sector_size: u64) -> (r: usize)
    requires
        sector_size / 32 >= 1,
        2 * (sector_size / 32) <= usize::MAX,
    ensures
        r == 2 * (sector_size as int / 32) - 1,
{
    let elems = (sector_size / 32) as usize;
    2 * elems - 1
}

} // verus!
