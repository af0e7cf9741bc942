//! The content-addressed single-slot chunk store.
//!
//! A result larger than one reply can be stashed under the hash of its
//! contents and replayed on the next round trip.  At most one entry is alive
//! at a time; a new `put` replaces it.

use vstd::prelude::*;
use crate::crypto::{sha256, sha256_of};

verus! {

/// The single stash slot: nothing, or one entry of handle and contents.
pub struct ChunkStore {
    slot: Option<(Vec<u8>, Vec<u8>)>,
}

impl View for ChunkStore {
    type V = Option<(Seq<u8>, Seq<u8>)>;

    closed spec fn view(&self) -> Option<(Seq<u8>, Seq<u8>)> {
        match self.slot {
            Option::Some((h, b)) => Option::Some((h@, b@)),
            Option::None => Option::None,
        }
    }
}

/// What `get` answers on a store in a given state.
pub open spec fn store_lookup(st: Option<(Seq<u8>, Seq<u8>)>, h: Seq<u8>) -> Option<Seq<u8>> {
    match st {
        Option::Some((hh, bb)) => if hh == h {
            Option::Some(bb)
        } else {
            Option::None
        },
        Option::None => Option::None,
    }
}

/// Byte-wise equality of two vectors.
pub fn bytes_eq(a: &Vec<u8>, b: &Vec<u8>) -> (r: bool)
    ensures
        r == (a@ == b@),
{
    if a.len() != b.len() {
        return false;
    }
    let mut i: usize = 0;
    while i < a.len()
        invariant
            i <= a@.len(),
            a@.len() == b@.len(),
            forall|j: int| 0 <= j < i ==> a@[j] == b@[j],
        decreases a@.len() - i,
    {
        if a[i] != b[i] {
            return false;
        }
        i = i + 1;
    }
    proof {
        assert(a@ =~= b@);
    }
    true
}

/// Copy a byte vector.
pub fn copy_bytes(v: &Vec<u8>) -> (r: Vec<u8>)
    ensures
        r@ == v@,
{
    vstd::slice::slice_to_vec(v.as_slice())
}

impl ChunkStore {
    /// An empty store.
    pub fn new() -> (s: Self)
        ensures
            s@ is None,
    {
        ChunkStore { slot: None }
    }

    /// Stash bytes under the hash of their contents, replacing any previous
    /// entry, and return the handle.
    pub fn put(&mut self, bytes: Vec<u8>) -> (h: Vec<u8>)
        ensures
            h@ == sha256_of(bytes@),
            final(self)@ == Option::Some((sha256_of(bytes@), bytes@)),
    {
        let h = sha256(&bytes);
        let h2 = copy_bytes(&h);
        self.slot = Some((h2, bytes));
        h
    }

    /// Fetch the stashed bytes for a handle, or report a miss.
    pub fn get(&self, h: &Vec<u8>) -> (r: Option<Vec<u8>>)
        ensures
            match r {
                Option::Some(b) => store_lookup(self@, h@) == Option::Some(b@),
                Option::None => store_lookup(self@, h@) is None,
            },
    {
        match &self.slot {
            Some((hh, bb)) => if bytes_eq(hh, h) {
                Some(copy_bytes(bb))
            } else {
                None
            },
            None => None,
        }
    }

    /// Drop any stashed entry.
    pub fn clear(&mut self)
        ensures
            final(self)@ is None,
    {
        self.slot = None;
    }
}

/// Chunk-store round trip: after stashing any byte string, looking up the
/// returned handle yields exactly that byte string.
pub proof fn lemma_store_round_trip(bytes: Seq<u8>)
    ensures
        store_lookup(Option::Some((sha256_of(bytes), bytes)), sha256_of(bytes)) == Option::Some(
            bytes,
        ),
{
}

} // verus!
