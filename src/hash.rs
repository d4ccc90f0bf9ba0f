//! Fixed-size identifiers of events and blocks.
use vstd::prelude::*;

verus! {

/// Byte length of an event id or a block hash.
pub const HASH_LEN: usize = 32;

/// Compares two byte strings.
pub fn bytes_eq(a: &Vec<u8>, b: &Vec<u8>) -> (r: bool)
    ensures
        r == (a@ == b@),
{
    if a.len() != b.len() {
        return false;
    }
    let mut i: usize = 0;
    while i < a.len()
        invariant
            a.len() == b.len(),
            i <= a.len(),
            forall|j: int| 0 <= j < i ==> a@[j] == b@[j],
        decreases a.len() - i,
    {
        if a[i] != b[i] {
            return false;
        }
        i += 1;
    }
    assert(a@ =~= b@);
    true
}

/// A 256-bit identifier (an event id or a block hash), held as its bytes.
#[derive(Clone, Debug, PartialEq, Eq, Hash)]
pub struct Hash256 {
    pub bytes: Vec<u8>,
}

impl View for Hash256 {
    type V = Seq<u8>;

    open spec fn view(&self) -> Seq<u8> {
        self.bytes@
    }
}

impl Hash256 {
    /// A well-formed hash holds exactly `HASH_LEN` bytes.
    pub open spec fn wf(&self) -> bool {
        self@.len() == HASH_LEN
    }

    /// Decodes a hash from its byte encoding; `None` unless it is exactly `HASH_LEN` bytes.
    pub fn from_slice(data: &Vec<u8>) -> (r: Option<Hash256>)
        ensures
            r.is_some() <==> data@.len() == HASH_LEN,
            r.is_some() ==> r.unwrap()@ == data@,
    {
        if data.len() == HASH_LEN {
            Some(Hash256 { bytes: data.clone() })
        } else {
            None
        }
    }

    /// The byte representation of the hash (what signatures are made over).
    pub fn as_bytes(&self) -> (r: &Vec<u8>)
        ensures
            r@ == self@,
    {
        &self.bytes
    }

    /// Whether two hashes are the same identifier.
    pub fn same(&self, other: &Hash256) -> (r: bool)
        ensures
            r == (self@ == other@),
    {
        bytes_eq(&self.bytes, &other.bytes)
    }

    /// A copy of the hash.
    pub fn duplicate(&self) -> (r: Hash256)
        ensures
            r@ == self@,
    {
        Hash256 { bytes: self.bytes.clone() }
    }

    /// The key under which the proofs of the block with this hash are looked up
    /// and published on the lookup network.
    pub fn lookup_key(&self) -> (r: Vec<u8>)
        ensures
            r@ == lookup_key_of(self@),
    {
        self.bytes.clone()
    }
}

/// The lookup-network key of a block hash: its bytes.
pub open spec fn lookup_key_of(h: Seq<u8>) -> Seq<u8> {
    h
}

/// The block hash a lookup-network key stands for, if it is well formed.
pub open spec fn block_of_key(key: Seq<u8>) -> Option<Seq<u8>> {
    if key.len() == HASH_LEN {
        Some(key)
    } else {
        None
    }
}

/// A lookup key decodes back to the block hash it was derived from, and two
/// distinct block hashes never share a key.
pub proof fn lemma_lookup_key_injective(a: Hash256, b: Hash256)
    requires
        a.wf(),
        b.wf(),
    ensures
        block_of_key(lookup_key_of(a@)) == Some(a@),
        lookup_key_of(a@) == lookup_key_of(b@) ==> a@ == b@,
{
}

} // verus!
