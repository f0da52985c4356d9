//! Drawing positions at random: the positions of a list are put in a random
//! order, and the first two of that order are the ones drawn.

use rand::rngs::ThreadRng;
use rand::seq::SliceRandom;
use vstd::prelude::*;

verus! {

/// `rand::rngs::ThreadRng`, the handle to the thread's generator. Nothing is
/// known of its state.
#[verifier::external_type_specification]
#[verifier::external_body]
pub struct ExThreadRng(ThreadRng);

/// `rand::thread_rng`: hands out the thread's generator, seeded by the
/// system. Nothing is claimed of the handle. The first call on a thread
/// panics if the system gives no seed; no argument decides that, so no
/// `requires` can leave it out.
pub assume_specification[ rand::thread_rng ]() -> (rng: ThreadRng);

/// `SliceRandom::shuffle` on the slice of a vector: the entries are swapped
/// among themselves, so afterwards the vector holds what it held before, each
/// entry as often as before, in an order that nothing is said about. How
/// likely each order is, is not stated either.
#[verifier::external_body]
pub(crate) fn shuffle(indices: &mut Vec<usize>, rng: &mut ThreadRng)
    ensures
        final(indices)@.to_multiset() == old(indices)@.to_multiset(),
{
    indices.shuffle(rng);
}

/// The positions `0, 1, .., n - 1`, rising.
pub open spec fn index_seq(n: nat) -> Seq<usize> {
    Seq::new(n, |i: int| i as usize)
}

/// `order` lists the positions below `n`, each exactly once.
pub open spec fn is_arrangement(order: Seq<usize>, n: nat) -> bool {
    &&& order.len() == n
    &&& order.no_duplicates()
    &&& forall|k: int| 0 <= k < order.len() ==> order[k] < n
}

/// The positions that an order draws: its first two entries, or all of them
/// where it has fewer.
pub open spec fn first_two(order: Seq<usize>) -> Set<int> {
    if order.len() == 0 {
        Set::empty()
    } else if order.len() == 1 {
        set![order[0] as int]
    } else {
        set![order[0] as int, order[1] as int]
    }
}

/// How often an order draws position `i`: how many of its first two entries
/// name it.
pub open spec fn times_drawn(order: Seq<usize>, i: int) -> nat {
    let first: nat = if order.len() >= 1 && order[0] == i {
        1
    } else {
        0
    };
    let second: nat = if order.len() >= 2 && order[1] == i {
        1
    } else {
        0
    };
    first + second
}

/// `picks` is a possible draw from `n` positions: two different positions
/// below `n`, or every position where there are fewer than two.
pub open spec fn is_selection(picks: Set<int>, n: nat) -> bool {
    &&& picks.finite()
    &&& picks.len() == if n < 2 { n } else { 2 }
    &&& forall|i: int| picks.contains(i) ==> 0 <= i < n
}

/// The list of positions below `n`.
pub fn index_list(n: usize) -> (indices: Vec<usize>)
    ensures
        indices@ == index_seq(n as nat),
{
    let mut indices: Vec<usize> = Vec::new();
    let mut i: usize = 0;
    while i < n
        invariant
            i <= n,
            indices@ == index_seq(i as nat),
        decreases n - i,
    {
        indices.push(i);
        i += 1;
    }
    indices
}

/// Whatever order comes out of shuffling the positions below `n`, it is an
/// arrangement of them.
pub proof fn lemma_permuted_indices_are_arrangement(order: Seq<usize>, n: nat)
    requires
        n <= usize::MAX,
        order.to_multiset() == index_seq(n).to_multiset(),
    ensures
        is_arrangement(order, n),
{
    let rising = index_seq(n);
    order.to_multiset_ensures();
    rising.to_multiset_ensures();
    assert(rising.no_duplicates());
    rising.lemma_multiset_has_no_duplicates();
    order.lemma_multiset_has_no_duplicates_conv();
    assert forall|k: int| 0 <= k < order.len() implies order[k] < n by {
        assert(order.contains(order[k]));
        assert(order.to_multiset().count(order[k]) > 0);
        assert(rising.contains(order[k]));
        let j = choose|j: int| 0 <= j < rising.len() && rising[j] == order[k];
        assert(rising[j] == j);
    }
}

/// The positions below `n` in a random order.
pub fn shuffled_indices(n: usize) -> (order: Vec<usize>)
    ensures
        is_arrangement(order@, n as nat),
{
    let mut rng = rand::thread_rng();
    let mut order = index_list(n);
    shuffle(&mut order, &mut rng);
    proof {
        lemma_permuted_indices_are_arrangement(order@, n as nat);
    }
    order
}

/// A draw never takes a position twice: the first two entries of an
/// arrangement differ, and what it draws is a selection.
pub proof fn lemma_arrangement_draws_selection(order: Seq<usize>, n: nat)
    requires
        is_arrangement(order, n),
    ensures
        is_selection(first_two(order), n),
        n >= 2 ==> order[0] != order[1],
        forall|i: int| times_drawn(order, i) == if first_two(order).contains(i) { 1nat } else { 0 },
{
    if n >= 2 {
        assert(order[0] != order[1]);
    }
}

/// A selection from two or more positions is made of exactly two different
/// positions.
pub proof fn lemma_selection_is_a_pair(picks: Set<int>, n: nat)
    requires
        is_selection(picks, n),
        n >= 2,
    ensures
        exists|i: int, j: int|
            0 <= i < n && 0 <= j < n && i != j && picks == #[trigger] set![i, j],
{
    let i = picks.choose();
    let rest = picks.remove(i);
    let j = rest.choose();
    assert(rest.remove(j).len() == 0);
    assert(picks =~= set![i, j]);
}

} // verus!
