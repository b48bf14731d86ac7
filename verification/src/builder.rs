//! The retry-and-grow builder. One attempt draws fresh salts, projects every
//! key into the graph and runs the assignment pass; on failure the attempt is
//! discarded and retried, with the table grown on every eighth trial. A hard
//! ceiling on the table size turns the otherwise unbounded search into a
//! bounded loop with an observable failure.

use vstd::prelude::*;

verus! {

use crate::CHUNK_SIZE;
use crate::artifact::PerfectHash;
use crate::graph::Graph;
use crate::hashing::SaltedHash;
use crate::hashing::padded_len;
use crate::hashing::salted_hash;

/// The table is grown once per this many failed trials.
pub const TRIALS_PER_GROWTH: usize = 8;

/// The table may grow to this multiple of `keys.len() + 1` before the build
/// gives up: a pathological key set, not a transient condition.
pub const GROWTH_CEILING_FACTOR: usize = 100;

/// How a build can fail. Retryable failures (a cyclic graph, too little
/// vertex spread) are handled inside the loop and never surface.
#[derive(Clone, Copy, Debug, PartialEq, Eq, Structural)]
pub enum BuildError {
    /// The key set was rejected before any attempt: empty, a duplicate key,
    /// or a values list whose length does not match.
    InvalidInput,
    /// The table grew past the hard ceiling; the final table size and trial
    /// count are kept for diagnosis.
    ExceededGrowthCeiling { ng: usize, trials: usize },
    /// The host raised its cancellation signal between trials.
    CancellationRequested,
}

/// Pairwise distinctness of the keys, compared by their byte content.
pub open spec fn distinct_keys(keys: Seq<Vec<u8>>) -> bool {
    forall|i: int, j: int| 0 <= i < j < keys.len() ==> keys[i]@ != keys[j]@
}

/// What `build` demands of its input: at least one key, one value per key,
/// and pairwise distinct keys.
pub open spec fn valid_input(keys: Seq<Vec<u8>>, values: Seq<usize>) -> bool {
    &&& keys.len() >= 1
    &&& values.len() == keys.len()
    &&& distinct_keys(keys)
}

/// The hard bound the table size must not outgrow.
pub open spec fn growth_ceiling(n: int) -> int {
    GROWTH_CEILING_FACTOR * (n + 1)
}

/// The longest key length in the set, zero for an empty set: the length the
/// salt vectors are sized to.
pub open spec fn max_len(keys: Seq<Vec<u8>>) -> int
    decreases keys.len(),
{
    if keys.len() == 0 {
        0
    } else {
        let rest = max_len(keys.drop_last());
        if keys.last()@.len() >= rest {
            keys.last()@.len() as int
        } else {
            rest
        }
    }
}

/// Byte-for-byte comparison of two keys.
fn bytes_eq(a: &[u8], b: &[u8]) -> (r: bool)
    ensures
        r <==> a@ == b@,
{
    if a.len() != b.len() {
        return false;
    }
    for i in 0..a.len()
        invariant
            a@.len() == b@.len(),
            i <= a@.len(),
            forall|j: int| 0 <= j < i ==> a@[j] == b@[j],
    {
        if a[i] != b[i] {
            return false;
        }
    }
    proof {
        assert(a@ =~= b@);
    }
    true
}

/// Decides `valid_input` for a concrete key and value list.
pub fn check_input(keys: &Vec<Vec<u8>>, values: &Vec<usize>) -> (r: bool)
    ensures
        r == valid_input(keys@, values@),
{
    let n = keys.len();
    if n == 0 {
        return false;
    }
    if values.len() != n {
        return false;
    }
    for i in 0..n
        invariant
            n == keys@.len(),
            forall|i1: int, j1: int| 0 <= i1 < j1 < n && i1 < i ==> keys@[i1]@ != keys@[j1]@,
    {
        for j in (i + 1)..n
            invariant
                n == keys@.len(),
                i < n,
                forall|i1: int, j1: int| 0 <= i1 < j1 < n && i1 < i ==> keys@[i1]@ != keys@[j1]@,
            forall|j1: int| i < j1 < j ==> keys@[i as int]@ != keys@[j1]@,
        {
            if bytes_eq(keys[i].as_slice(), keys[j].as_slice()) {
                return false;
            }
        }
    }
    true
}

/// The longest key length in the set (zero when every key is empty).
pub fn max_key_len(keys: &Vec<Vec<u8>>) -> (r: usize)
    ensures
        r == max_len(keys@),
        forall|i: int| 0 <= i < keys@.len() ==> (#[trigger] keys@[i])@.len() <= r,
        r == 0 || exists|i: int| 0 <= i < keys@.len() && (#[trigger] keys@[i])@.len() == r,
{
    let mut m: usize = 0;
    for i in 0..keys.len()
        invariant
            m == max_len(keys@.take(i as int)),
            forall|k: int| 0 <= k < i ==> (#[trigger] keys@[k])@.len() <= m,
            m == 0 || exists|k: int| 0 <= k < i && (#[trigger] keys@[k])@.len() == m,
    {
        proof {
            assert(keys@.take(i + 1).drop_last() =~= keys@.take(i as int));
            assert(keys@.take(i + 1).last() == keys@[i as int]);
        }
        if keys[i].len() > m {
            m = keys[i].len();
        }
    }
    proof {
        assert(keys@.take(keys@.len() as int) =~= keys@);
    }
    m
}

/// One construction attempt at a fixed table size: draw two fresh salted
/// hash functions, connect one edge per key, and run the assignment pass.
/// On success, every trained key's query answer is its supplied value,
/// reduced modulo the table size. Whether an attempt succeeds depends on the
/// random salts; `None` only sends the caller back for another trial.
pub fn attempt(keys: &Vec<Vec<u8>>, values: &Vec<usize>, ng: usize, max_size: usize) -> (r: Option<
    PerfectHash,
>)
    requires
        keys@.len() == values@.len(),
        1 <= ng <= usize::MAX / 2,
        max_size <= usize::MAX - CHUNK_SIZE,
    ensures
        r matches Some(h) ==> {
            &&& h.wf()
            &&& h.ng == ng
            &&& h.f1.salt@.len() == padded_len(max_size as int)
            &&& h.f2.salt@.len() == padded_len(max_size as int)
            &&& forall|q: int| max_size <= q < h.f1.salt@.len() ==> h.f1.salt@[q] == 0
            &&& forall|q: int| max_size <= q < h.f2.salt@.len() ==> h.f2.salt@[q] == 0
            &&& forall|i: int|
                0 <= i < keys@.len() ==> h.query_spec(keys@[i]@) == values@[i] as int % (
                ng as int)
        },
{
    let f1 = SaltedHash::new(ng, max_size);
    let f2 = SaltedHash::new(ng, max_size);
    let mut graph = Graph::new(ng, keys.len());
    for i in 0..keys.len()
        invariant
            graph.wf(),
            graph.ng == ng,
            1 <= ng <= usize::MAX / 2,
            f1.wf(),
            f2.wf(),
            f1.ng == ng,
            f2.ng == ng,
            f1.salt@.len() == padded_len(max_size as int),
            f2.salt@.len() == padded_len(max_size as int),
            forall|q: int| max_size <= q < f1.salt@.len() ==> f1.salt@[q] == 0,
            forall|q: int| max_size <= q < f2.salt@.len() ==> f2.salt@[q] == 0,
            keys@.len() == values@.len(),
            graph.edges@.len() == i,
            forall|k: int|
                0 <= k < i ==> {
                    &&& (#[trigger] graph.edges@[k]).0 == salted_hash(f1.salt@, keys@[k]@, ng as int)
                    &&& graph.edges@[k].1 == salted_hash(f2.salt@, keys@[k]@, ng as int)
                    &&& graph.edges@[k].2 == values@[k]
                },
    {
        let h1 = f1.hash(keys[i].as_slice());
        let h2 = f2.hash(keys[i].as_slice());
        graph.connect(h1, h2, values[i]);
    }
    match graph.assign_vertex_values() {
        Some(indices) => {
            let h = PerfectHash { ng, f1, f2, indices };
            proof {
                assert forall|i: int|
                    0 <= i < keys@.len() implies h.query_spec(keys@[i]@) == values@[i] as int % (
                ng as int) by {
                    let e = graph.edges@[i];
                    assert((h.indices@[e.0 as int] + h.indices@[e.1 as int]) % (ng as int)
                        == e.2 as int % (ng as int));
                    assert(h.indices@[e.0 as int].wrapping_add(h.indices@[e.1 as int])
                        == h.indices@[e.0 as int] + h.indices@[e.1 as int]);
                }
            }
            Some(h)
        },
        None => None,
    }
}

/// Whether the table size has outgrown the hard ceiling for `n` keys.
pub fn exceeded_ceiling(ng: usize, n: usize) -> (r: bool)
    ensures
        r == (ng as int > growth_ceiling(n as int)),
{
    proof {
        vstd::arithmetic::div_mod::lemma_fundamental_div_mod(
            usize::MAX as int,
            GROWTH_CEILING_FACTOR as int,
        );
    }
    if n >= usize::MAX / GROWTH_CEILING_FACTOR {
        false
    } else {
        ng > GROWTH_CEILING_FACTOR * (n + 1)
    }
}

/// One failed trial's bookkeeping: count the trial, and grow the table by a
/// fractional step on every [`TRIALS_PER_GROWTH`]th one. `None` reports that
/// a counter or the table size would overflow the machine word; the build
/// loop keeps both far below that.
pub fn grow_step(ng: usize, trials: usize) -> (r: Option<(usize, usize)>)
    ensures
        r matches Some(p) ==> {
            &&& p.1 == trials + 1
            &&& p.0 as int == if (trials + 1) % (TRIALS_PER_GROWTH as int) == 0 {
                ng + ng as int / (TRIALS_PER_GROWTH as int) + 1
            } else {
                ng as int
            }
        },
        r is None <==> (trials == usize::MAX || ((trials as int + 1) % (TRIALS_PER_GROWTH as int)
            == 0 && ng + ng as int / (TRIALS_PER_GROWTH as int) + 1 > usize::MAX)),
{
    if trials == usize::MAX {
        return None;
    }
    let t = trials + 1;
    if t % TRIALS_PER_GROWTH == 0 {
        let step = ng / TRIALS_PER_GROWTH + 1;
        if ng > usize::MAX - step {
            None
        } else {
            Some((ng + step, t))
        }
    } else {
        Some((ng, t))
    }
}

/// Builds a perfect hash for `keys`, mapping each key to the value supplied
/// at the same position. Rejects invalid input before any attempt; otherwise
/// it tries fresh random salts, growing the table on every eighth failure,
/// until an attempt succeeds or the table outgrows the ceiling. The loop
/// provably terminates. On success every trained key answers with its
/// supplied value reduced modulo the final table size; values below the
/// table size are returned exactly. The preconditions are machine limits
/// only: the key count and the key lengths must leave room for the ceiling
/// and salt-padding arithmetic in one machine word.
pub fn build(keys: &Vec<Vec<u8>>, values: &Vec<usize>) -> (r: Result<PerfectHash, BuildError>)
    requires
        keys@.len() <= usize::MAX / 1024,
        forall|i: int| 0 <= i < keys@.len() ==> (#[trigger] keys@[i])@.len() <= usize::MAX
            - CHUNK_SIZE,
    ensures
        r == Err::<PerfectHash, BuildError>(BuildError::InvalidInput) <==> !valid_input(
            keys@,
            values@,
        ),
        r matches Ok(h) ==> {
            &&& h.wf()
            &&& h.ng > keys@.len()
            &&& h.ng as int <= growth_ceiling(keys@.len() as int)
            &&& h.f1.salt@.len() == padded_len(max_len(keys@))
            &&& h.f2.salt@.len() == padded_len(max_len(keys@))
            &&& forall|q: int| max_len(keys@) <= q < h.f1.salt@.len() ==> h.f1.salt@[q] == 0
            &&& forall|q: int| max_len(keys@) <= q < h.f2.salt@.len() ==> h.f2.salt@[q] == 0
            &&& forall|i: int|
                0 <= i < keys@.len() ==> h.query_spec(keys@[i]@) == values@[i] as int % (
                h.ng as int)
        },
        r matches Err(e) ==> (e is InvalidInput || e is ExceededGrowthCeiling),
        r matches Err(BuildError::ExceededGrowthCeiling { ng: final_ng, .. }) ==> final_ng as int
            > growth_ceiling(keys@.len() as int),
{
    if !check_input(keys, values) {
        return Err(BuildError::InvalidInput);
    }
    let n = keys.len();
    let max_size = max_key_len(keys);
    let mut ng = n + 1;
    let mut trials: usize = 0;

    loop
        invariant
            valid_input(keys@, values@),
            n == keys@.len(),
            1 <= n <= usize::MAX / 1024,
            max_size <= usize::MAX - CHUNK_SIZE,
            max_size == max_len(keys@),
            keys@.len() == values@.len(),
            n + 1 <= ng,
            ng as int <= growth_ceiling(n as int),
            ng as int >= n + 1 + trials as int / (TRIALS_PER_GROWTH as int),
        decreases growth_ceiling(n as int) - ng, TRIALS_PER_GROWTH as int - (trials as int % (
        TRIALS_PER_GROWTH as int)),
    {
        proof {
            // the ceiling, and everything below it, stays far below the
            // machine word: 100 * (n + 1) with n at most MAX / 1024
            assert(growth_ceiling(n as int) <= usize::MAX / 2);
            // the trial counter is bounded through the growth schedule
            assert(trials as int <= TRIALS_PER_GROWTH as int * (ng - n - 1) + (
            TRIALS_PER_GROWTH as int - 1));
        }
        let (ng2, trials2) = match grow_step(ng, trials) {
            Some(p) => p,
            // unreachable: the counter and the table size stay far below
            // the machine word while the ceiling holds
            None => unreached(),
        };
        ng = ng2;
        trials = trials2;

        if exceeded_ceiling(ng, n) {
            return Err(BuildError::ExceededGrowthCeiling { ng, trials });
        }

        if let Some(h) = attempt(keys, values, ng, max_size) {
            return Ok(h);
        }
    }
}

/// Builds a perfect hash that maps each key to its ordinal position
/// `0..keys.len()`, the default when no explicit values are supplied. Since
/// every ordinal is below the table size, each trained key answers with its
/// position exactly.
pub fn build_default(keys: &Vec<Vec<u8>>) -> (r: Result<PerfectHash, BuildError>)
    requires
        keys@.len() <= usize::MAX / 1024,
        forall|i: int| 0 <= i < keys@.len() ==> (#[trigger] keys@[i])@.len() <= usize::MAX
            - CHUNK_SIZE,
    ensures
        r == Err::<PerfectHash, BuildError>(BuildError::InvalidInput) <==> !(keys@.len() >= 1
            && distinct_keys(keys@)),
        r matches Ok(h) ==> {
            &&& h.wf()
            &&& h.ng > keys@.len()
            &&& h.f1.salt@.len() == padded_len(max_len(keys@))
            &&& h.f2.salt@.len() == padded_len(max_len(keys@))
            &&& forall|q: int| max_len(keys@) <= q < h.f1.salt@.len() ==> h.f1.salt@[q] == 0
            &&& forall|q: int| max_len(keys@) <= q < h.f2.salt@.len() ==> h.f2.salt@[q] == 0
            &&& forall|i: int| 0 <= i < keys@.len() ==> h.query_spec(keys@[i]@) == i
        },
        r matches Err(e) ==> (e is InvalidInput || e is ExceededGrowthCeiling),
{
    let mut values: Vec<usize> = Vec::new();
    for i in 0..keys.len()
        invariant
            values@.len() == i,
            forall|j: int| 0 <= j < i ==> values@[j] == j,
    {
        values.push(i);
    }
    let r = build(keys, &values);
    proof {
        match r {
            Ok(ref h) => {
                assert forall|i: int| 0 <= i < keys@.len() implies h.query_spec(keys@[i]@)
                    == i by {
                    assert(h.query_spec(keys@[i]@) == values@[i] as int % (h.ng as int));
                    vstd::arithmetic::div_mod::lemma_small_mod(i as nat, h.ng as nat);
                }
            },
            Err(_) => {},
        }
    }
    r
}

/// Bijectivity law: on an artifact whose trained keys answer with their
/// supplied values — what a successful [`build`] guarantees — two trained
/// keys with distinct values below the table size get distinct answers.
pub proof fn lemma_bijective_on_trained_keys(
    h: PerfectHash,
    keys: Seq<Vec<u8>>,
    values: Seq<usize>,
    i: int,
    j: int,
)
    requires
        0 <= i < keys.len(),
        0 <= j < keys.len(),
        values.len() == keys.len(),
        forall|k: int|
            0 <= k < keys.len() ==> h.query_spec(keys[k]@) == values[k] as int % (h.ng as int),
        h.ng >= 1,
        values[i] < h.ng,
        values[j] < h.ng,
        values[i] != values[j],
    ensures
        h.query_spec(keys[i]@) != h.query_spec(keys[j]@),
{
    vstd::arithmetic::div_mod::lemma_small_mod(values[i] as nat, h.ng as nat);
    vstd::arithmetic::div_mod::lemma_small_mod(values[j] as nat, h.ng as nat);
}

} // verus!
