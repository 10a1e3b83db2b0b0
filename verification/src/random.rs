//! The one source of chance: the order in which rows and columns are tried
//! when something is put down at random.

use vstd::prelude::*;
use rand::seq::SliceRandom;

verus! {

/// `rand::rngs::ThreadRng`, the random number generator of a thread. It is
/// only handed on; nothing is known of what it holds.
#[verifier::external_type_specification]
#[verifier::external_body]
pub struct ExThreadRng(rand::rngs::ThreadRng);

/// `rand::thread_rng` hands out the random number generator of the calling
/// thread. Nothing is claimed of it. It does not return if the operating
/// system cannot seed the generator.
pub assume_specification[ rand::thread_rng ]() -> (rng: rand::rngs::ThreadRng);

/// Shuffles `order` in place with `rand::seq::SliceRandom::shuffle`.
///
/// The method only swaps elements of the slice with each other, so the
/// claim is that the elements are the same as before, each as often as
/// before. Which order comes out is left open.
#[verifier::external_body]
pub(crate) fn shuffle(order: &mut Vec<usize>, rng: &mut rand::rngs::ThreadRng)
    ensures
        final(order)@.to_multiset() == old(order)@.to_multiset(),
{
    order.shuffle(rng);
}

/// The numbers below `n` in rising order.
pub open spec fn rising(n: nat) -> Seq<usize> {
    Seq::new(n, |i: int| i as usize)
}

/// Whether `order` holds every number below `n` once and nothing else.
pub open spec fn is_order_of(order: Seq<usize>, n: nat) -> bool {
    order.to_multiset() == rising(n).to_multiset()
}

/// An order of the numbers below `n` has `n` entries, all of them below
/// `n`, and every number below `n` is among them.
pub proof fn lemma_order_covers(order: Seq<usize>, n: nat)
    requires
        is_order_of(order, n),
        n <= usize::MAX,
    ensures
        order.len() == n,
        forall|i: int| 0 <= i < order.len() ==> order[i] < n,
        forall|v: usize| v < n ==> order.contains(v),
{
    let plain = rising(n);
    order.to_multiset_ensures();
    plain.to_multiset_ensures();
    assert forall|i: int| 0 <= i < order.len() implies order[i] < n by {
        assert(order.contains(order[i]));
        assert(order.to_multiset().count(order[i]) > 0);
        assert(plain.to_multiset().count(order[i]) > 0);
        assert(plain.contains(order[i]));
    }
    assert forall|v: usize| v < n implies order.contains(v) by {
        assert(plain[v as int] == v);
        assert(plain.contains(v));
        assert(plain.to_multiset().count(v) > 0);
        assert(order.to_multiset().count(v) > 0);
    }
}

/// The numbers below `n` in an order that chance picks.
pub fn shuffled(n: usize, rng: &mut rand::rngs::ThreadRng) -> (order: Vec<usize>)
    ensures
        is_order_of(order@, n as nat),
{
    let mut order: Vec<usize> = Vec::with_capacity(n);
    for i in 0..n
        invariant
            order@ == rising(i as nat),
    {
        order.push(i);
        assert(order@ =~= rising((i + 1) as nat));
    }
    shuffle(&mut order, rng);
    order
}

} // verus!
