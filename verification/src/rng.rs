//! Random source for the simulation engine.
//!
//! All random choices (activity gating, neighbour order, reaction order,
//! reaction success) come from one per-engine generator. Nothing is promised
//! of the values drawn beyond their range, and of a shuffle beyond its being
//! a permutation: the engine's contracts state what holds of every outcome.

use vstd::prelude::*;

use rand::Rng;
use rand::seq::SliceRandom;

verus! {

#[verifier::external_type_specification]
#[verifier::external_body]
pub struct ExThreadRng(rand::rngs::ThreadRng);

pub assume_specification[ rand::thread_rng ]() -> rand::rngs::ThreadRng;

/// Relies on rand::Rng::gen_range over `0..n`: it panics on an empty range
/// and otherwise returns a value drawn uniformly from the range, so the
/// result is below `n`.
#[verifier::external_body]
pub fn rand_below(rng: &mut rand::rngs::ThreadRng, n: u32) -> (r: u32)
    requires
        n >= 1,
    ensures
        r < n,
{
    rng.gen_range(0..n)
}

/// Relies on rand::seq::SliceRandom::shuffle: a Fisher–Yates shuffle that
/// permutes the slice in place, so the length and the multiset of elements
/// are unchanged.
#[verifier::external_body]
pub fn shuffle_vec<T>(rng: &mut rand::rngs::ThreadRng, v: &mut Vec<T>)
    ensures
        final(v)@.len() == old(v)@.len(),
        final(v)@.to_multiset() == old(v)@.to_multiset(),
{
    v.as_mut_slice().shuffle(rng)
}

/// Two sequences with equal multisets hold the same elements.
pub proof fn lemma_multiset_eq_contains<T>(a: Seq<T>, b: Seq<T>)
    requires
        a.to_multiset() == b.to_multiset(),
    ensures
        forall|x: T| a.contains(x) <==> b.contains(x),
{
    assert forall|x: T| a.contains(x) <==> b.contains(x) by {
        vstd::seq_lib::to_multiset_contains(a, x);
        vstd::seq_lib::to_multiset_contains(b, x);
    }
}

} // verus!
