//! Splitting many vectors into batches of bounded size.

use vstd::prelude::*;

verus! {

/// The largest batch of byte vectors that is widened at once.
pub const BATCH_SIZE: usize = 1000;

/// How many batches `n` vectors make.
pub open spec fn batch_count(n: nat) -> nat {
    (n + BATCH_SIZE as nat - 1) as nat / BATCH_SIZE as nat
}

/// Where batch `b` starts.
pub open spec fn batch_start(b: nat) -> nat {
    b * BATCH_SIZE as nat
}

/// How many of `n` vectors batch `b` has.
pub open spec fn batch_len(n: nat, b: nat) -> nat {
    if n - batch_start(b) < BATCH_SIZE {
        (n - batch_start(b)) as nat
    } else {
        BATCH_SIZE as nat
    }
}

/// Each batch starts where the one before it ends, none is empty or too large,
/// and the last one ends with the last vector.
pub proof fn lemma_batches_cover(n: nat, b: nat)
    requires
        b < batch_count(n),
    ensures
        0 < batch_len(n, b) <= BATCH_SIZE,
        batch_start(b) + batch_len(n, b) <= n,
        b + 1 < batch_count(n) ==> batch_start(b + 1) == batch_start(b) + batch_len(n, b),
        b + 1 == batch_count(n) ==> batch_start(b) + batch_len(n, b) == n,
        batch_start(0) == 0,
{
}

/// The number of batches that `n` vectors make.
pub fn count_batches(n: usize) -> (count: usize)
    ensures
        count == batch_count(n as nat),
        count <= n,
{
    if n == 0 {
        0
    } else {
        (n - 1) / BATCH_SIZE + 1
    }
}

/// Batch `b` of `n` vectors: where it starts and how many vectors it has.
pub fn batch(n: usize, b: usize) -> (r: (usize, usize))
    requires
        b < batch_count(n as nat),
    ensures
        r.0 == batch_start(b as nat),
        r.1 == batch_len(n as nat, b as nat),
{
    let start = b * BATCH_SIZE;
    let left = n - start;
    (start, if left < BATCH_SIZE { left } else { BATCH_SIZE })
}

/// The batches share the vectors out: vector `v` is in one batch, that batch is one of the
/// batches that there are, and it is the only one.
pub proof fn lemma_vector_in_one_batch(n: nat, v: nat)
    requires
        v < n,
    ensures
        exists|b: nat|
            #![trigger batch_start(b)]
            b < batch_count(n) && batch_start(b) <= v < batch_start(b) + batch_len(n, b),
        forall|b: nat, c: nat|
            #![trigger batch_start(b), batch_start(c)]
            batch_start(b) <= v < batch_start(b) + batch_len(n, b) && batch_start(c) <= v
                < batch_start(c) + batch_len(n, c) ==> b == c,
{
    let b = v / BATCH_SIZE as nat;
    assert(b < batch_count(n) && batch_start(b) <= v < batch_start(b) + batch_len(n, b));
}

/// Batches follow each other without a gap, from the first vector to the last, and none is empty or
/// has more vectors than a batch may have.
pub proof fn lemma_batches_follow(n: usize, count: usize, b: usize, r: (usize, usize))
    requires
        call_ensures(count_batches, (n,), count),
        b < count,
        call_ensures(batch, (n, b), r),
    ensures
        b == 0 ==> r.0 == 0,
        1 <= r.1 <= 1000,
        r.0 == 1000 * b,
        b + 1 < count ==> r.1 == 1000,
        b + 1 == count ==> r.0 + r.1 == n,
        n > 0 <==> count > 0,
{
}

} // verus!
