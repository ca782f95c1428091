use crate::error::Error;
use vstd::prelude::*;

verus! {

/// A byte sequence that is a valid tree label: exactly 32 bytes, with the
/// top two bits of the trailing byte clear, so that every label fits the
/// field representation shared by all hash families.
pub open spec fn valid_domain(s: Seq<u8>) -> bool {
    &&& s.len() == 32
    &&& s[31] < 64
}

/// The label that stands for a raw 32-byte node slice: the slice itself,
/// with the top two bits of the trailing byte cleared.
pub open spec fn leaf_of(s: Seq<u8>) -> Seq<u8> {
    s.update(31, (s[31] & 0x3f) as u8)
}

pub proof fn lemma_leaf_of_valid(s: Seq<u8>)
    requires
        s.len() == 32,
    ensures
        valid_domain(leaf_of(s)),
        valid_domain(s) ==> leaf_of(s) == s,
{
    let b = s[31];
    assert((b & 0x3f) < 64) by (bit_vector);
    if valid_domain(s) {
        assert(b & 0x3f == b) by (bit_vector)
            requires
                b < 64,
        ;
        assert(leaf_of(s) =~= s);
    }
}

/// A fixed-width value used as a tree node label or commitment.
pub struct Domain {
    bytes: Vec<u8>,
}

impl View for Domain {
    type V = Seq<u8>;

    closed spec fn view(&self) -> Seq<u8> {
        self.bytes@
    }
}

impl Domain {
    /// Interprets a raw slice as a label; rejects any slice that is not a
    /// valid domain encoding.
    pub fn try_from_bytes(data: &[u8]) -> (r: Result<Domain, Error>)
        ensures
            valid_domain(data@) ==> (r matches Ok(d) && d@ == data@),
            !valid_domain(data@) ==> (r matches Err(e) && e == Error::InvalidDomainEncoding),
    {
        if data.len() != 32 {
            return Err(Error::InvalidDomainEncoding);
        }
        if data[31] >= 64 {
            return Err(Error::InvalidDomainEncoding);
        }
        let mut bytes: Vec<u8> = Vec::new();
        let mut i: usize = 0;
        while i < 32
            invariant
                data@.len() == 32,
                i <= 32,
                bytes@ =~= data@.subrange(0, i as int),
            decreases 32 - i,
        {
            bytes.push(data[i]);
            proof {
                assert(bytes@ =~= data@.subrange(0, i as int + 1));
            }
            i = i + 1;
        }
        proof {
            assert(bytes@ =~= data@);
        }
        Ok(Domain { bytes })
    }

    /// The label standing for a raw 32-byte node slice, masking the slice
    /// into valid form instead of rejecting it.
    pub fn from_raw(data: &[u8]) -> (r: Domain)
        requires
            data@.len() == 32,
        ensures
            r@ == leaf_of(data@),
    {
        let mut bytes: Vec<u8> = Vec::new();
        let mut i: usize = 0;
        while i < 31
            invariant
                data@.len() == 32,
                i <= 31,
                bytes@ =~= data@.subrange(0, i as int),
            decreases 31 - i,
        {
            bytes.push(data[i]);
            proof {
                assert(bytes@ =~= data@.subrange(0, i as int + 1));
            }
            i = i + 1;
        }
        bytes.push(data[31] & 0x3f);
        proof {
            assert(bytes@ =~= leaf_of(data@));
        }
        Domain { bytes }
    }

    /// Wraps an owned 32-byte buffer as a label, masking the trailing byte.
    pub fn from_masked_vec(mut v: Vec<u8>) -> (r: Domain)
        requires
            v@.len() == 32,
        ensures
            r@ == leaf_of(v@),
    {
        let last = v[31] & 0x3f;
        let ghost oldv = v@;
        v.set(31, last);
        proof {
            assert(v@ =~= leaf_of(oldv));
        }
        Domain { bytes: v }
    }

    /// The label's raw bytes.
    pub fn as_bytes(&self) -> (r: &Vec<u8>)
        ensures
            r@ == self@,
    {
        &self.bytes
    }

    /// An owned copy of this label.
    pub fn duplicate(&self) -> (r: Domain)
        ensures
            r@ == self@,
    {
        let bytes = clone_bytes(&self.bytes);
        Domain { bytes }
    }

    /// Whether two labels hold the same bytes.
    pub fn same_as(&self, other: &Domain) -> (r: bool)
        ensures
            r <==> self@ == other@,
    {
        bytes_eq(&self.bytes, &other.bytes)
    }
}

/// An owned copy of a byte vector.
pub(crate) fn clone_bytes(v: &Vec<u8>) -> (r: Vec<u8>)
    ensures
        r@ == v@,
{
    let mut out: Vec<u8> = Vec::new();
    let mut i: usize = 0;
    while i < v.len()
        invariant
            i <= v@.len(),
            out@ =~= v@.subrange(0, i as int),
        decreases v@.len() - i,
    {
        out.push(v[i]);
        proof {
            assert(out@ =~= v@.subrange(0, i as int + 1));
        }
        i = i + 1;
    }
    proof {
        assert(out@ =~= v@);
    }
    out
}

/// Whether two byte vectors hold the same bytes.
pub(crate) fn bytes_eq(a: &Vec<u8>, b: &Vec<u8>) -> (r: bool)
    ensures
        r <==> a@ == b@,
{
    if a.len() != b.len() {
        proof {
            assert(a@.len() != b@.len());
        }
        return false;
    }
    let mut i: usize = 0;
    while i < a.len()
        invariant
            a@.len() == b@.len(),
            i <= a@.len(),
            forall|j: int| 0 <= j < i ==> a@[j] == b@[j],
        decreases a@.len() - i,
    {
        if a[i] != b[i] {
            return false;
        }
        i = i + 1;
    }
    proof {
        assert(a@ =~= b@);
    }
    true
}

} // verus!
