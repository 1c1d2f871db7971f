//! How the bodies are dealt out to workers: in chunks of equal size, the
//! last one short, in the bodies' order.
use vstd::prelude::*;
use vstd::arithmetic::div_mod::lemma_fundamental_div_mod;

verus! {

/// The number of bodies that each worker takes: the body count over the
/// number of workers, rounded up.
pub open spec fn particles_per_thread_spec(count: int, num_threads: int) -> int {
    (count + (num_threads - 1)) / num_threads
}

/// Where the chunk of worker `index` begins among `count` bodies.
pub open spec fn chunk_start_spec(index: int, per: int, count: int) -> int {
    if index * per < count {
        index * per
    } else {
        count
    }
}

/// The chunks of all workers together cover every body.
pub proof fn lemma_chunks_cover(count: int, num_threads: int)
    requires
        count >= 0,
        num_threads >= 1,
    ensures
        particles_per_thread_spec(count, num_threads) >= 0,
        count <= num_threads * particles_per_thread_spec(count, num_threads) <= count
            + num_threads - 1,
{
    lemma_fundamental_div_mod(count + num_threads - 1, num_threads);
}

/// The first `k` chunks of `all`, put together in order.
pub open spec fn gathered_spec<T>(all: Seq<T>, per: int, k: int) -> Seq<T>
    decreases k,
{
    if k <= 0 {
        Seq::empty()
    } else {
        gathered_spec(all, per, k - 1) + all.subrange(
            chunk_start_spec(k - 1, per, all.len() as int),
            chunk_start_spec(k, per, all.len() as int),
        )
    }
}

/// The first `k` chunks together are the items in front of chunk `k`.
pub proof fn lemma_gathered_is_prefix<T>(all: Seq<T>, per: int, k: int)
    requires
        per >= 0,
        k >= 0,
    ensures
        gathered_spec(all, per, k) == all.subrange(0, chunk_start_spec(k, per, all.len() as int)),
    decreases k,
{
    if k > 0 {
        lemma_gathered_is_prefix(all, per, k - 1);
        assert((k - 1) * per <= k * per) by (nonlinear_arith)
            requires
                per >= 0,
        ;
        assert((k - 1) * per >= 0) by (nonlinear_arith)
            requires
                per >= 0,
                k >= 1,
        ;
    } else {
        assert(0 * per == 0);
    }
    assert(gathered_spec(all, per, k) =~= all.subrange(
        0,
        chunk_start_spec(k, per, all.len() as int),
    ));
}

/// The number of bodies that each of `num_threads` workers takes of `count`.
pub fn particles_per_thread(count: usize, num_threads: usize) -> (per: usize)
    requires
        num_threads >= 1,
        count + num_threads - 1 <= usize::MAX,
    ensures
        per == particles_per_thread_spec(count as int, num_threads as int),
{
    (count + (num_threads - 1)) / num_threads
}

} // verus!
