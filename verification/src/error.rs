use vstd::prelude::*;

verus! {

/// The failures that graph and tree construction can report.
#[derive(Clone, Copy, Debug, PartialEq, Eq, Structural)]
pub enum Error {
    /// The data buffer handed to the tree builder does not hold exactly
    /// one slice of `node_size` bytes per graph node; carries the buffer
    /// length, the node size and the node count that disagreed.
    InvalidMerkleTreeArgs(usize, usize, usize),
    /// The node size is not the native width of the tree labels.
    InvalidNodeSize(usize),
    /// A node's raw data slice is not a valid label encoding.
    InvalidDomainEncoding,
    /// The operating system's entropy source was unavailable.
    EntropySource,
}

} // verus!
