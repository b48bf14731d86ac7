//! The finished lookup artifact: two salted hash functions and the resolved
//! potential table. A query combines the potentials of the key's two
//! projections modulo the table size; for every key of a successful build
//! this returns the key's assigned value, and for any other key some
//! unspecified value still inside `[0, ng)`.

use vstd::prelude::*;

verus! {

use crate::hashing::SaltedHash;
use crate::hashing::salted_hash;

/// The perfect-hash artifact. Immutable once built; reconstructible
/// byte-for-byte from the four fields [`PerfectHash::export`] hands out.
pub struct PerfectHash {
    /// Table size: every answer lies in `[0, ng)`.
    pub ng: usize,
    /// First salted hash function.
    pub f1: SaltedHash,
    /// Second salted hash function.
    pub f2: SaltedHash,
    /// The potential table, one entry per vertex of the winning graph.
    pub indices: Vec<usize>,
}

impl PerfectHash {
    /// The table size is positive and small enough for the modular
    /// arithmetic of a query, both hash functions reduce into it, and there
    /// is one table entry per vertex.
    pub open spec fn wf(self) -> bool {
        &&& 1 <= self.ng <= usize::MAX / 2
        &&& self.f1.ng == self.ng
        &&& self.f2.ng == self.ng
        &&& self.indices@.len() == self.ng
    }

    /// What a query answers: the potentials of the key's two projections,
    /// added with wraparound and reduced modulo `ng`. A pure function of the
    /// artifact's four fields and the key bytes alone.
    pub open spec fn query_spec(self, key: Seq<u8>) -> int {
        let h1 = salted_hash(self.f1.salt@, key, self.ng as int);
        let h2 = salted_hash(self.f2.salt@, key, self.ng as int);
        self.indices@[h1].wrapping_add(self.indices@[h2]) as int % (self.ng as int)
    }

    /// Answers a query in one pass over the key bytes, with no branching on
    /// table state. Total: every byte string gets an answer in `[0, ng)`.
    pub fn hash(&self, key: &[u8]) -> (r: usize)
        requires
            self.wf(),
        ensures
            r == self.query_spec(key@),
            r < self.ng,
    {
        let h1 = self.f1.hash(key);
        let h2 = self.f2.hash(key);
        let combined_index = self.indices[h1].wrapping_add(self.indices[h2]);
        combined_index % self.ng
    }

    /// The four fields that are the artifact's entire persistent state:
    /// `(ng, salt1, salt2, indices)`.
    pub fn export(&self) -> (r: (usize, Vec<u8>, Vec<u8>, Vec<usize>))
        ensures
            r.0 == self.ng,
            r.1@ == self.f1.salt@,
            r.2@ == self.f2.salt@,
            r.3@ == self.indices@,
    {
        (self.ng, copy_vec(&self.f1.salt), copy_vec(&self.f2.salt), copy_vec(&self.indices))
    }

    /// Rebuilds an artifact from the four exported fields, with no
    /// re-randomization. The shape conditions mirror the transport shape:
    /// the index table has exactly `ng` entries, and `ng` is a usable table
    /// size.
    pub fn load(ng: usize, salt1: Vec<u8>, salt2: Vec<u8>, indices: Vec<usize>) -> (r: PerfectHash)
        requires
            1 <= ng <= usize::MAX / 2,
            indices@.len() == ng,
        ensures
            r.wf(),
            r.ng == ng,
            r.f1.salt@ == salt1@,
            r.f2.salt@ == salt2@,
            r.indices@ == indices@,
    {
        PerfectHash {
            ng,
            f1: SaltedHash { ng, salt: salt1 },
            f2: SaltedHash { ng, salt: salt2 },
            indices,
        }
    }
}

/// An element-wise copy of a vector of plain values.
fn copy_vec<T: Copy>(v: &Vec<T>) -> (r: Vec<T>)
    ensures
        r@ == v@,
{
    let mut r: Vec<T> = Vec::new();
    for i in 0..v.len()
        invariant
            r@.len() == i,
            forall|j: int| 0 <= j < i ==> r@[j] == v@[j],
    {
        r.push(v[i]);
    }
    proof {
        assert(r@ =~= v@);
    }
    r
}

/// Round-trip law: an artifact that carries the same four fields as another
/// — in particular one rebuilt by [`PerfectHash::load`] from what
/// [`PerfectHash::export`] handed out — answers every query identically.
pub proof fn lemma_export_load_round_trip(h: PerfectHash, g: PerfectHash)
    requires
        g.ng == h.ng,
        g.f1.salt@ == h.f1.salt@,
        g.f2.salt@ == h.f2.salt@,
        g.indices@ == h.indices@,
    ensures
        forall|key: Seq<u8>| g.query_spec(key) == h.query_spec(key),
{
}

/// Determinism law: two answers for the same key on the same artifact are
/// the same value, since the contract of [`PerfectHash::hash`] pins each
/// answer to `query_spec`, a function of the artifact and the key alone.
pub proof fn lemma_hash_deterministic(h: PerfectHash, key: Seq<u8>, r1: usize, r2: usize)
    requires
        r1 == h.query_spec(key),
        r2 == h.query_spec(key),
    ensures
        r1 == r2,
{
}

/// Range law: every query answer lies in `[0, ng)`, whatever the key and
/// whatever table the artifact was loaded with.
pub proof fn lemma_query_in_range(h: PerfectHash, key: Seq<u8>)
    requires
        h.ng >= 1,
    ensures
        0 <= h.query_spec(key) < h.ng,
{
}

} // verus!
