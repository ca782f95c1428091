//! Deterministic depth-robust graphs and binary commitment trees.
//!
//! A [`drgraph::BucketGraph`] assigns every node a pseudorandom, seeded,
//! sorted list of parents subject to strict structural invariants (exact
//! degree, ascending order, no reference at or past the node itself), and
//! a binary commitment tree can be built over a flat data buffer with any
//! of several interchangeable hash families.

pub mod drgraph;

mod domain;
mod error;
mod hasher;
mod math;
mod merkle;
mod parameter_cache;
mod rng;
mod sorting;
mod util;

pub use domain::Domain;
pub use error::Error;
pub use hasher::{Blake2bHasher, Blake2sHasher, Hasher, Sha256Hasher};
pub use merkle::{InclusionProof, MerkleTree};
pub use parameter_cache::ParameterSetIdentifier;
pub use util::get_tree_size;
