//! The salted base hash family: a keyed hash over byte-string keys,
//! parameterized by a per-position salt vector and a modulus `ng`. Two
//! independent instances (f1, f2) project each key onto the vertices of the
//! construction graph, and the same two instances answer queries later.

use vstd::prelude::*;

verus! {

use crate::CHUNK_SIZE;

/// Relies on `rand::random` (rand 0.8): draws one value from the thread-local
/// generator. Nothing can be promised of a random value, so no clause is
/// stated; every salt byte that comes back is acceptable.
pub assume_specification<T>[ rand::random::<T> ]() -> (r: T)
    where
        rand::distributions::Standard: rand::distributions::Distribution<T>,
;

/// The salted sum over the first `i` byte positions, reduced modulo `ng`
/// after every step: `hash_prefix(s, k, ng, i) = (s[0]*k[0] + ... + s[i-1]*k[i-1]) % ng`.
/// Reducing at each step keeps every intermediate value below `ng`, so the
/// sum never wraps; the result equals the whole sum taken modulo `ng`.
pub open spec fn hash_prefix(salt: Seq<u8>, key: Seq<u8>, ng: int, i: int) -> int
    decreases i,
{
    if i <= 0 {
        0
    } else {
        (hash_prefix(salt, key, ng, i - 1) + salt[i - 1] * key[i - 1]) % ng
    }
}

/// The value a salted hash with salt vector `salt` and modulus `ng` gives to
/// `key`: the salted sum over the byte positions both the key and the salt
/// cover. A key longer than the salt contributes only its covered prefix; a
/// salt longer than the key pads the key with zero contributions.
pub open spec fn salted_hash(salt: Seq<u8>, key: Seq<u8>, ng: int) -> int {
    let m = if salt.len() <= key.len() {
        salt.len() as int
    } else {
        key.len() as int
    };
    hash_prefix(salt, key, ng, m)
}

/// The salted hash stays in `[0, ng)` whenever the modulus is positive.
pub proof fn lemma_hash_prefix_in_range(salt: Seq<u8>, key: Seq<u8>, ng: int, i: int)
    requires
        ng >= 1,
    ensures
        0 <= hash_prefix(salt, key, ng, i) < ng,
    decreases i,
{
    if i <= 0 {
    } else {
        lemma_hash_prefix_in_range(salt, key, ng, i - 1);
    }
}

/// The length of a salt vector for keys of at most `n` bytes: `n` rounded up
/// to the next multiple of [`CHUNK_SIZE`].
pub open spec fn padded_len(n: int) -> int {
    if n % (CHUNK_SIZE as int) == 0 {
        n
    } else {
        n + (CHUNK_SIZE as int) - n % (CHUNK_SIZE as int)
    }
}

/// One base hash function instance: a salt vector (one random byte per key
/// position, padded with zeros to a multiple of [`CHUNK_SIZE`]) and the
/// modulus `ng` the result is reduced into.
pub struct SaltedHash {
    pub ng: usize,
    pub salt: Vec<u8>,
}

impl SaltedHash {
    /// The modulus is positive, and small enough that one reduction step
    /// never overflows the machine word.
    pub open spec fn wf(self) -> bool {
        1 <= self.ng <= usize::MAX / 2
    }

    /// Draws `max_size` fresh random salt bytes and pads the vector with
    /// zeros — the neutral element of the salted sum — to a multiple of
    /// [`CHUNK_SIZE`]. The drawn bytes are random and unpromised; the
    /// modulus, the vector's exact length and the zero padding are fixed.
    pub fn new(ng: usize, max_size: usize) -> (r: SaltedHash)
        requires
            1 <= ng <= usize::MAX / 2,
            max_size <= usize::MAX - CHUNK_SIZE,
        ensures
            r.wf(),
            r.ng == ng,
            r.salt@.len() == padded_len(max_size as int),
            r.salt@.len() as int % (CHUNK_SIZE as int) == 0,
            max_size <= r.salt@.len() < max_size + CHUNK_SIZE,
            forall|i: int| max_size <= i < r.salt@.len() ==> r.salt@[i] == 0,
    {
        let rem = max_size % CHUNK_SIZE;
        let target = if rem == 0 {
            max_size
        } else {
            max_size + (CHUNK_SIZE - rem)
        };
        proof {
            vstd::arithmetic::div_mod::lemma_fundamental_div_mod(max_size as int, CHUNK_SIZE as int);
            if rem != 0 {
                vstd::arithmetic::div_mod::lemma_mod_multiples_basic(
                    max_size as int / CHUNK_SIZE as int + 1,
                    CHUNK_SIZE as int,
                );
            }
        }
        let mut salt: Vec<u8> = Vec::new();
        for i in 0..max_size
            invariant
                salt@.len() == i,
        {
            let b: u8 = rand::random::<u8>();
            salt.push(b);
        }
        for i in max_size..target
            invariant
                salt@.len() == i,
                max_size <= target,
                forall|k: int| max_size <= k < i ==> salt@[k] == 0,
        {
            salt.push(0u8);
        }
        SaltedHash { ng, salt }
    }

    /// The hash of `key`: a pure, deterministic function of the salt, the
    /// modulus and the key bytes, always in `[0, ng)`.
    pub fn hash(&self, key: &[u8]) -> (r: usize)
        requires
            self.wf(),
        ensures
            r == salted_hash(self.salt@, key@, self.ng as int),
            r < self.ng,
    {
        let m = if self.salt.len() <= key.len() {
            self.salt.len()
        } else {
            key.len()
        };
        let mut acc: usize = 0;
        for i in 0..m
            invariant
                m <= self.salt@.len(),
                m <= key@.len(),
                acc == hash_prefix(self.salt@, key@, self.ng as int, i as int),
                acc < self.ng,
                1 <= self.ng <= usize::MAX / 2,
        {
            proof {
                assert((self.salt@[i as int] as int) * (key@[i as int] as int) <= 255 * 255)
                    by (nonlinear_arith)
                    requires
                        0 <= self.salt@[i as int] as int <= 255,
                        0 <= key@[i as int] as int <= 255,
                ;
            }
            let p = (self.salt[i] as usize) * (key[i] as usize);
            acc = (acc + p) % self.ng;
        }
        acc
    }
}

} // verus!
