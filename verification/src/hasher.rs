use crate::domain::{leaf_of, valid_domain, Domain};
use blake2::Digest as Blake2DigestUse;
use sha2::Digest as Sha2DigestUse;
use vstd::prelude::*;

verus! {

/// The SHA-256 digest of a byte sequence; a function of the bytes alone.
pub uninterp spec fn sha256_of(data: Seq<u8>) -> Seq<u8>;

/// The BLAKE2s-256 digest of a byte sequence; a function of the bytes alone.
pub uninterp spec fn blake2s_of(data: Seq<u8>) -> Seq<u8>;

/// The 32-byte BLAKE2b digest of a byte sequence; a function of the bytes
/// alone.
pub uninterp spec fn blake2b_of(data: Seq<u8>) -> Seq<u8>;

/// Relies on `sha2::Sha256::digest`: the 32-byte SHA-256 digest of the
/// input, depending on nothing but the input bytes.
#[verifier::external_body]
fn sha256_digest(data: &Vec<u8>) -> (r: Vec<u8>)
    ensures
        r@ == sha256_of(data@),
        r@.len() == 32,
{
    sha2::Sha256::digest(data.as_slice()).to_vec()
}

/// Relies on `blake2::Blake2s256::digest`: the 32-byte BLAKE2s digest of
/// the input, depending on nothing but the input bytes.
#[verifier::external_body]
fn blake2s_digest(data: &Vec<u8>) -> (r: Vec<u8>)
    ensures
        r@ == blake2s_of(data@),
        r@.len() == 32,
{
    blake2::Blake2s256::digest(data.as_slice()).to_vec()
}

/// Relies on `blake2::Blake2b::digest` with a 32-byte output size: the
/// digest depends on nothing but the input bytes.
#[verifier::external_body]
fn blake2b_digest(data: &Vec<u8>) -> (r: Vec<u8>)
    ensures
        r@ == blake2b_of(data@),
        r@.len() == 32,
{
    blake2::Blake2b::<blake2::digest::consts::U32>::digest(data.as_slice()).to_vec()
}

/// A hash family that can interpret raw node slices as tree labels and
/// combine two child labels into their parent's label. The graph and tree
/// logic is generic over this capability, so hash families are
/// interchangeable.
pub trait Hasher: Sized {
    /// The parent label obtained from two child labels.
    spec fn spec_combine(a: Seq<u8>, b: Seq<u8>) -> Seq<u8>;

    /// Combines two child labels into their parent's label.
    fn hash_combine(a: &Domain, b: &Domain) -> (r: Domain)
        ensures
            r@ == Self::spec_combine(a@, b@),
            a@.len() == 32 && b@.len() == 32 ==> valid_domain(r@);

    /// The label standing for one raw node slice.
    fn hash_single_node(data: &[u8]) -> (r: Domain)
        requires
            data@.len() == 32,
        ensures
            r@ == leaf_of(data@);
}

/// Joins two labels into the buffer that the combine digest runs over.
fn concat_labels(a: &Domain, b: &Domain) -> (r: Vec<u8>)
    ensures
        r@ == a@ + b@,
{
    let mut out = crate::domain::clone_bytes(a.as_bytes());
    let mut rest = crate::domain::clone_bytes(b.as_bytes());
    out.append(&mut rest);
    proof {
        assert(out@ =~= a@ + b@);
    }
    out
}

/// The hash family built on SHA-256.
pub struct Sha256Hasher;

impl Hasher for Sha256Hasher {
    open spec fn spec_combine(a: Seq<u8>, b: Seq<u8>) -> Seq<u8> {
        leaf_of(sha256_of(a + b))
    }

    fn hash_combine(a: &Domain, b: &Domain) -> (r: Domain) {
        let cat = concat_labels(a, b);
        let digest = sha256_digest(&cat);
        proof {
            crate::domain::lemma_leaf_of_valid(digest@);
        }
        Domain::from_masked_vec(digest)
    }

    fn hash_single_node(data: &[u8]) -> (r: Domain) {
        Domain::from_raw(data)
    }
}

/// The hash family built on BLAKE2s-256.
pub struct Blake2sHasher;

impl Hasher for Blake2sHasher {
    open spec fn spec_combine(a: Seq<u8>, b: Seq<u8>) -> Seq<u8> {
        leaf_of(blake2s_of(a + b))
    }

    fn hash_combine(a: &Domain, b: &Domain) -> (r: Domain) {
        let cat = concat_labels(a, b);
        let digest = blake2s_digest(&cat);
        proof {
            crate::domain::lemma_leaf_of_valid(digest@);
        }
        Domain::from_masked_vec(digest)
    }

    fn hash_single_node(data: &[u8]) -> (r: Domain) {
        Domain::from_raw(data)
    }
}

/// The hash family built on BLAKE2b with a 32-byte output.
pub struct Blake2bHasher;

impl Hasher for Blake2bHasher {
    open spec fn spec_combine(a: Seq<u8>, b: Seq<u8>) -> Seq<u8> {
        leaf_of(blake2b_of(a + b))
    }

    fn hash_combine(a: &Domain, b: &Domain) -> (r: Domain) {
        let cat = concat_labels(a, b);
        let digest = blake2b_digest(&cat);
        proof {
            crate::domain::lemma_leaf_of_valid(digest@);
        }
        Domain::from_masked_vec(digest)
    }

    fn hash_single_node(data: &[u8]) -> (r: Domain) {
        Domain::from_raw(data)
    }
}

} // verus!
