//! The piece queue: seven slots, the first of which is the piece in play and
//! the next two the pieces shown as upcoming.
//!
//! Randomness comes from outside: the shuffle that orders a new queue takes
//! the indices that were drawn for it. From then on the queue turns: the
//! type that leaves the front joins the end, so that any seven pieces in a
//! row are seven different types.

use vstd::prelude::*;

verus! {

/// Number of slots in the queue.
pub const QUEUE_LEN: usize = 7;

/// The sequence with the items at `i` and `j` exchanged.
pub open spec fn swapped(s: Seq<usize>, i: int, j: int) -> Seq<usize> {
    s.update(i, s[j]).update(j, s[i])
}

/// The sequence after the first `n` exchanges of a shuffle: exchange `k`
/// swaps the item at `k` with the item at `picks[k]`.
pub open spec fn shuffled_upto(s: Seq<usize>, picks: Seq<usize>, n: int) -> Seq<usize>
    decreases n,
{
    if n <= 0 {
        s
    } else {
        swapped(shuffled_upto(s, picks, n - 1), n - 1, picks[n - 1] as int)
    }
}

/// The sequence after a whole shuffle: one exchange for every position, in
/// order.
pub open spec fn shuffled(s: Seq<usize>, picks: Seq<usize>) -> Seq<usize> {
    shuffled_upto(s, picks, s.len() as int)
}

/// The draws fit a shuffle of `n` items: one per position, each a position.
pub open spec fn picks_fit(picks: Seq<usize>, n: int) -> bool {
    picks.len() == n && forall|k: int| 0 <= k < n ==> picks[k] < n
}

proof fn lemma_swapped_multiset(s: Seq<usize>, i: int, j: int)
    requires
        0 <= i < s.len(),
        0 <= j < s.len(),
    ensures
        swapped(s, i, j).len() == s.len(),
        swapped(s, i, j).to_multiset() == s.to_multiset(),
{
    broadcast use vstd::seq_lib::to_multiset_update;
    broadcast use vstd::seq_lib::to_multiset_contains;
    broadcast use vstd::multiset::group_multiset_axioms;

    let t = s.update(i, s[j]);
    assert(s.contains(s[i]) && s.contains(s[j]));
    assert(s.to_multiset().count(s[i]) > 0 && s.to_multiset().count(s[j]) > 0);
    assert(t[j] == s[j]);
    assert(t.to_multiset() == s.to_multiset().insert(s[j]).remove(s[i]));
    assert(t.update(j, s[i]).to_multiset() == t.to_multiset().insert(s[i]).remove(t[j]));
    assert(swapped(s, i, j).to_multiset() =~= s.to_multiset());
}

/// A shuffle rearranges: it keeps the length and every item with its
/// number of occurrences.
pub proof fn lemma_shuffled_upto_permutes(s: Seq<usize>, picks: Seq<usize>, n: int)
    requires
        picks_fit(picks, s.len() as int),
        0 <= n <= s.len(),
    ensures
        shuffled_upto(s, picks, n).len() == s.len(),
        shuffled_upto(s, picks, n).to_multiset() == s.to_multiset(),
    decreases n,
{
    if n > 0 {
        lemma_shuffled_upto_permutes(s, picks, n - 1);
        lemma_swapped_multiset(shuffled_upto(s, picks, n - 1), n - 1, picks[n - 1] as int);
    }
}

/// Shuffles the items in place with the given draws: for each position in
/// turn, the item there changes places with the item at the position drawn
/// for it.
pub fn shuffle(items: &mut [usize], picks: &[usize])
    requires
        picks_fit(picks@, old(items)@.len() as int),
    ensures
        final(items)@ == shuffled(old(items)@, picks@),
        final(items)@.len() == old(items)@.len(),
        final(items)@.to_multiset() == old(items)@.to_multiset(),
{
    let len = items.len();
    let mut i: usize = 0;
    while i < len
        invariant
            i <= len,
            len == old(items)@.len(),
            items@.len() == len,
            picks_fit(picks@, len as int),
            items@ == shuffled_upto(old(items)@, picks@, i as int),
        decreases len - i,
    {
        let j = picks[i];
        let a = items[i];
        let b = items[j];
        items[i] = b;
        items[j] = a;
        assert(items@ =~= swapped(shuffled_upto(old(items)@, picks@, i as int), i as int, j as int));
        i += 1;
    }
    proof {
        lemma_shuffled_upto_permutes(old(items)@, picks@, len as int);
    }
}

/// Type `v` stands in one of the six slots behind the front.
pub open spec fn tail_has(q: Seq<usize>, v: usize) -> bool {
    q[1] == v || q[2] == v || q[3] == v || q[4] == v || q[5] == v || q[6] == v
}

/// The least type from `v` on that is in none of the six slots behind the
/// front; 7 if there is none.
pub open spec fn first_missing(q: Seq<usize>, v: usize) -> usize
    decreases 7 - v,
{
    if v >= 7 {
        7
    } else if !tail_has(q, v) {
        v
    } else {
        first_missing(q, (v + 1) as usize)
    }
}

/// The queue with a repeated front replaced: where the front type also
/// stands behind it, the front becomes the least type that does not.
pub open spec fn restored(q: Seq<usize>) -> Seq<usize> {
    if tail_has(q, q[0]) && first_missing(q, 0) < 7 {
        q.update(0, first_missing(q, 0))
    } else {
        q
    }
}

/// The queue moved up by one: the six waiting types come forward in their
/// order, and the type that was at the front joins the end.
pub open spec fn advanced(q: Seq<usize>) -> Seq<usize> {
    seq![q[1], q[2], q[3], q[4], q[5], q[6], q[0]]
}

/// The queue after a refill: a repeated front is replaced, then the queue
/// moves up by one.
pub open spec fn refilled(q: Seq<usize>) -> Seq<usize> {
    advanced(restored(q))
}

/// The queue after `n` refills.
pub open spec fn refilled_times(q: Seq<usize>, n: nat) -> Seq<usize>
    decreases n,
{
    if n == 0 {
        q
    } else {
        refilled(refilled_times(q, (n - 1) as nat))
    }
}

/// Whether `v` stands behind the front of the queue.
fn in_tail(order: &[usize; QUEUE_LEN], v: usize) -> (found: bool)
    ensures
        found == tail_has(order@, v),
{
    order[1] == v || order[2] == v || order[3] == v || order[4] == v || order[5] == v || order[6]
        == v
}

/// Replaces a front type that is repeated behind it by the least type that
/// the six slots behind the front do not hold.
pub fn restore_front(order: &mut [usize; QUEUE_LEN])
    ensures
        final(order)@ == restored(old(order)@),
{
    if in_tail(order, order[0]) {
        let mut v: usize = 0;
        while v < 7
            invariant
                v <= 7,
                order@ == old(order)@,
                tail_has(order@, order@[0]),
                first_missing(order@, 0) == first_missing(order@, v),
            decreases 7 - v,
        {
            if !in_tail(order, v) {
                order[0] = v;
                assert(order@ =~= restored(old(order)@));
                return ;
            }
            v += 1;
        }
    }
}

/// Moves the queue up by one: the front joins the end.
pub fn advance(order: &mut [usize; QUEUE_LEN])
    ensures
        final(order)@ == advanced(old(order)@),
{
    let front = order[0];
    let mut i: usize = 0;
    while i < QUEUE_LEN - 1
        invariant
            i <= QUEUE_LEN - 1,
            front == old(order)@[0],
            forall|k: int| 0 <= k < i ==> order@[k] == old(order)@[k + 1],
            forall|k: int| i <= k < QUEUE_LEN ==> order@[k] == old(order)@[k],
        decreases QUEUE_LEN - 1 - i,
    {
        order[i] = order[i + 1];
        i += 1;
    }
    order[QUEUE_LEN - 1] = front;
    assert(order@ =~= advanced(old(order)@));
}

/// The queue has seven slots and each holds a piece type.
pub open spec fn holds_types(q: Seq<usize>) -> bool {
    q.len() == QUEUE_LEN && forall|i: int| 0 <= i < QUEUE_LEN ==> q[i] < 7
}

/// No type stands twice in the six slots behind the front.
pub open spec fn tail_distinct(q: Seq<usize>) -> bool {
    forall|i: int, j: int| 1 <= i < j < QUEUE_LEN ==> q[i] != q[j]
}

/// The queue is a full bag: seven slots that hold seven different types.
pub open spec fn is_bag(q: Seq<usize>) -> bool {
    holds_types(q) && q.no_duplicates()
}

/// Type `v` stands somewhere in the queue.
pub open spec fn queue_has(q: Seq<usize>, v: usize) -> bool {
    q[0] == v || tail_has(q, v)
}

/// A shuffle of different items gives different items, each of them one of
/// the items that went in.
pub proof fn lemma_shuffled_keeps_distinct(s: Seq<usize>, picks: Seq<usize>)
    requires
        picks_fit(picks, s.len() as int),
        s.no_duplicates(),
    ensures
        shuffled(s, picks).len() == s.len(),
        shuffled(s, picks).no_duplicates(),
        forall|k: int| 0 <= k < s.len() ==> s.contains(#[trigger] shuffled(s, picks)[k]),
{
    let t = shuffled(s, picks);
    lemma_shuffled_upto_permutes(s, picks, s.len() as int);
    s.lemma_multiset_has_no_duplicates();
    t.lemma_multiset_has_no_duplicates_conv();
    assert forall|k: int| 0 <= k < s.len() implies s.contains(#[trigger] t[k]) by {
        assert(t.contains(t[k]));
        vstd::seq_lib::to_multiset_contains(t, t[k]);
        vstd::seq_lib::to_multiset_contains(s, t[k]);
    }
}

/// Six slots cannot hold all seven types: some type is missing behind the
/// front.
proof fn lemma_some_type_missing(q: Seq<usize>)
    requires
        q.len() == QUEUE_LEN,
    ensures
        first_missing(q, 0) < 7,
        !tail_has(q, first_missing(q, 0)),
{
    reveal_with_fuel(first_missing, 8);
    if tail_has(q, 0) && tail_has(q, 1) && tail_has(q, 2) && tail_has(q, 3) && tail_has(q, 4)
        && tail_has(q, 5) {
        assert(!tail_has(q, 6));
    }
}

/// Replacing a repeated front makes a full bag of any queue that holds six
/// different types behind the front, and leaves a full bag as it is.
pub proof fn lemma_restored_is_bag(q: Seq<usize>)
    requires
        holds_types(q),
        tail_distinct(q),
    ensures
        is_bag(restored(q)),
        is_bag(q) ==> restored(q) == q,
        forall|i: int| 1 <= i < QUEUE_LEN ==> restored(q)[i] == q[i],
{
    lemma_some_type_missing(q);
    let r = restored(q);
    assert forall|i: int, j: int| 0 <= i < r.len() && 0 <= j < r.len() && i != j implies r[i]
        != r[j] by {
        if i < j {
            assert(1 <= j < QUEUE_LEN);
        } else {
            assert(1 <= i < QUEUE_LEN);
        }
    }
    if is_bag(q) {
        assert(!tail_has(q, q[0]));
    }
}

/// Moving a full bag up by one gives a full bag.
pub proof fn lemma_advanced_is_bag(q: Seq<usize>)
    requires
        is_bag(q),
    ensures
        is_bag(advanced(q)),
{
    let a = advanced(q);
    assert forall|i: int, j: int| 0 <= i < a.len() && 0 <= j < a.len() && i != j implies a[i]
        != a[j] by {
        let from_i = if i == 6 {
            0
        } else {
            i + 1
        };
        let from_j = if j == 6 {
            0
        } else {
            j + 1
        };
        assert(a[i] == q[from_i] && a[j] == q[from_j]);
    }
}

/// After a piece locks the queue is a full bag again, whatever type stood
/// at the front: the refill replaces a repeated front and moves the queue
/// up, and the six types that waited keep their order.
pub proof fn lemma_refill_is_bag(q: Seq<usize>)
    requires
        holds_types(q),
        tail_distinct(q),
    ensures
        is_bag(refilled(q)),
        forall|i: int| 0 <= i < QUEUE_LEN - 1 ==> refilled(q)[i] == q[i + 1],
        is_bag(q) ==> refilled(q) == advanced(q),
{
    lemma_restored_is_bag(q);
    lemma_advanced_is_bag(restored(q));
}

/// From a full bag, the queue after `n` refills is the bag turned by `n`
/// places.
pub proof fn lemma_refills_turn_bag(q: Seq<usize>, n: nat)
    requires
        is_bag(q),
    ensures
        is_bag(refilled_times(q, n)),
        forall|i: int|
            0 <= i < QUEUE_LEN ==> #[trigger] refilled_times(q, n)[i] == q[(i + n) % 7],
    decreases n,
{
    if n > 0 {
        let prev = refilled_times(q, (n - 1) as nat);
        lemma_refills_turn_bag(q, (n - 1) as nat);
        lemma_refill_is_bag(prev);
        assert forall|i: int| 0 <= i < QUEUE_LEN implies #[trigger] refilled_times(q, n)[i]
            == q[(i + n) % 7] by {
            if i < 6 {
                assert(refilled_times(q, n)[i] == prev[i + 1]);
            } else {
                assert(refilled_times(q, n)[i] == prev[0]);
            }
        }
    }
}

/// No type comes up twice before all seven have: the fronts of a full bag
/// and of its first six refills are seven different types, those of the
/// bag in its order.
pub proof fn lemma_seven_fronts_differ(q: Seq<usize>, i: nat, j: nat)
    requires
        is_bag(q),
        i < j < 7,
    ensures
        refilled_times(q, i)[0] == q[i as int],
        refilled_times(q, j)[0] == q[j as int],
        refilled_times(q, i)[0] != refilled_times(q, j)[0],
{
    lemma_refills_turn_bag(q, i);
    lemma_refills_turn_bag(q, j);
    assert(refilled_times(q, i)[0] == q[(0int + i) % 7]);
    assert(refilled_times(q, j)[0] == q[(0int + j) % 7]);
}

/// Any seven pieces in a row are seven different types: the fronts of any
/// seven refills in a row of a full bag differ.
pub proof fn lemma_any_seven_fronts_differ(q: Seq<usize>, start: nat, i: nat, j: nat)
    requires
        is_bag(q),
        i < j < 7,
    ensures
        refilled_times(q, start + i)[0] != refilled_times(q, start + j)[0],
{
    lemma_refills_turn_bag(q, start + i);
    lemma_refills_turn_bag(q, start + j);
    assert(refilled_times(q, start + i)[0] == q[(0int + (start + i)) % 7]);
    assert(refilled_times(q, start + j)[0] == q[(0int + (start + j)) % 7]);
    assert((start + i) % 7 != (start + j) % 7);
}

/// Seven refills bring a full bag back to where it was.
pub proof fn lemma_seven_refills_return(q: Seq<usize>)
    requires
        is_bag(q),
    ensures
        refilled_times(q, 7) == q,
{
    lemma_refills_turn_bag(q, 7);
    assert forall|i: int| 0 <= i < 7 implies refilled_times(q, 7)[i] == q[i] by {
        assert(refilled_times(q, 7)[i] == q[(i + 7) % 7]);
    }
    assert(refilled_times(q, 7) =~= q);
}

/// A full bag holds every one of the seven types.
pub proof fn lemma_bag_has_every_type(q: Seq<usize>, v: usize)
    requires
        is_bag(q),
        v < 7,
    ensures
        queue_has(q, v),
{
    if !queue_has(q, v) {
        assert(q[0] != q[1] && q[0] != q[2] && q[0] != q[3] && q[0] != q[4] && q[0] != q[5]
            && q[0] != q[6]);
        assert(q[1] != q[2] && q[1] != q[3] && q[1] != q[4] && q[1] != q[5] && q[1] != q[6]);
        assert(q[2] != q[3] && q[2] != q[4] && q[2] != q[5] && q[2] != q[6]);
        assert(q[3] != q[4] && q[3] != q[5] && q[3] != q[6]);
        assert(q[4] != q[5] && q[4] != q[6]);
        assert(q[5] != q[6]);
        assert(q[0] < 7 && q[1] < 7 && q[2] < 7 && q[3] < 7 && q[4] < 7 && q[5] < 7 && q[6] < 7);
        assert(false);
    }
}

} // verus!
