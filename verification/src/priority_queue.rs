//! The priority store: a binary max-heap over a vector, ordered by the
//! priority key of its items alone.

use vstd::prelude::*;
use vstd::seq_lib::{to_multiset_build, to_multiset_contains, to_multiset_remove, to_multiset_update};

use crate::item::PrioritizedItem;
use crate::order::{
    at_most, le, lemma_le_reflexive, lemma_le_total, lemma_le_transitive, total_order,
};
use crate::queue::BaseQueue;
use crate::store::{drained, get_step, lemma_drained_splits_the_store, BasicArray};

verus! {

/// The position above `i` in the heap's tree.
pub open spec fn parent(i: int) -> int {
    (i - 1) / 2
}

/// The item at `i` ranks no higher than the one above it.
pub open spec fn below_parent<T, P: Ord>(s: Seq<PrioritizedItem<T, P>>, i: int) -> bool {
    le(s[i].1, s[parent(i)].1)
}

/// Every item but the first ranks no higher than the one above it.
pub open spec fn heap_ordered<T, P: Ord>(s: Seq<PrioritizedItem<T, P>>) -> bool {
    forall|i: int| 0 < i < s.len() ==> #[trigger] below_parent(s, i)
}

/// No item of `s` ranks higher than `top`.
pub open spec fn ranks_highest<T, P: Ord>(s: Seq<PrioritizedItem<T, P>>, top: P) -> bool {
    forall|j: int| 0 <= j < s.len() ==> le(#[trigger] s[j].1, top)
}

/// In a heap-ordered sequence the item at `j` ranks no higher than the first.
proof fn lemma_first_ranks_highest<T, P: Ord>(s: Seq<PrioritizedItem<T, P>>, j: int)
    requires
        total_order::<P>(),
        heap_ordered(s),
        0 <= j < s.len(),
    ensures
        le(s[j].1, s[0].1),
    decreases j,
{
    if j == 0 {
        lemma_le_reflexive(s[0].1);
    } else {
        assert(below_parent(s, j));
        lemma_first_ranks_highest(s, parent(j));
        lemma_le_transitive(s[j].1, s[parent(j)].1, s[0].1);
    }
}

/// Exchanging two items of a sequence changes neither its length nor what
/// it holds.
proof fn lemma_exchange_keeps_items<A>(s: Seq<A>, i: int, j: int)
    requires
        0 <= i < s.len(),
        0 <= j < s.len(),
    ensures
        s.update(i, s[j]).update(j, s[i]).to_multiset() == s.to_multiset(),
{
    broadcast use vstd::multiset::group_multiset_axioms;

    let mid = s.update(i, s[j]);
    to_multiset_update(s, i, s[j]);
    to_multiset_update(mid, j, s[i]);
    to_multiset_contains(s, s[i]);
    to_multiset_contains(s, s[j]);
    assert(s.contains(s[i]));
    assert(s.contains(s[j]));
    assert(mid.update(j, s[i]).to_multiset() =~= s.to_multiset());
}

/// `<[T]>::swap`: exchanges the items at `i` and `j`, both of which must be
/// positions of the vector.
#[verifier::external_body]
fn swap_items<A>(items: &mut Vec<A>, i: usize, j: usize)
    requires
        i < old(items)@.len(),
        j < old(items)@.len(),
    ensures
        final(items)@ == old(items)@.update(i as int, old(items)@[j as int]).update(
            j as int,
            old(items)@[i as int],
        ),
{
    items.swap(i, j)
}

/// Heap order holds everywhere except, possibly, between `pos` and the item
/// above it; the items below `pos` already rank no higher than that item.
spec fn ordered_except_above<T, P: Ord>(s: Seq<PrioritizedItem<T, P>>, pos: int) -> bool {
    &&& forall|i: int| 0 < i < s.len() && i != pos ==> #[trigger] below_parent(s, i)
    &&& forall|i: int|
        0 < i < s.len() && parent(i) == pos && pos > 0 ==> le(
            #[trigger] s[i].1,
            s[parent(pos)].1,
        )
}

/// Heap order holds everywhere except, possibly, between `pos` and the items
/// below it; those already rank no higher than the item above `pos`.
spec fn ordered_except_below<T, P: Ord>(s: Seq<PrioritizedItem<T, P>>, pos: int) -> bool {
    &&& forall|i: int| 0 < i < s.len() && parent(i) != pos ==> #[trigger] below_parent(s, i)
    &&& forall|i: int|
        0 < i < s.len() && parent(i) == pos && pos > 0 ==> le(
            #[trigger] s[i].1,
            s[parent(pos)].1,
        )
}

/// Moves the item at `start` up until the one above it ranks at least as
/// high.
fn sift_up<T, P: Ord>(items: &mut Vec<PrioritizedItem<T, P>>, start: usize)
    requires
        start < old(items)@.len(),
        total_order::<P>() ==> ordered_except_above(old(items)@, start as int),
    ensures
        final(items)@.len() == old(items)@.len(),
        final(items)@.to_multiset() == old(items)@.to_multiset(),
        total_order::<P>() ==> heap_ordered(final(items)@),
{
    let mut pos: usize = start;
    while pos > 0
        invariant
            pos < items@.len(),
            items@.len() == old(items)@.len(),
            items@.to_multiset() == old(items)@.to_multiset(),
            total_order::<P>() ==> ordered_except_above(items@, pos as int),
        ensures
            items@.len() == old(items)@.len(),
            items@.to_multiset() == old(items)@.to_multiset(),
            total_order::<P>() ==> heap_ordered(items@),
        decreases pos,
    {
        let up: usize = (pos - 1) / 2;
        if at_most(&items[pos].1, &items[up].1) {
            proof {
                if total_order::<P>() {
                    assert(below_parent(items@, pos as int));
                }
            }
            break;
        }
        let ghost before = items@;
        swap_items(items, pos, up);
        proof {
            lemma_exchange_keeps_items(before, pos as int, up as int);
            if total_order::<P>() {
                lemma_le_total(before[pos as int].1, before[up as int].1);
                assert forall|i: int| 0 < i < items@.len() && i != up implies #[trigger] below_parent(
                    items@,
                    i,
                ) by {
                    if i == pos {
                    } else if parent(i) == pos {
                        assert(le(before[i].1, before[parent(pos as int)].1));
                    } else if parent(i) == up {
                        assert(below_parent(before, i));
                        lemma_le_transitive(before[i].1, before[up as int].1, before[pos as int].1);
                    } else {
                        assert(below_parent(before, i));
                    }
                }
                assert forall|i: int|
                    0 < i < items@.len() && parent(i) == up && up > 0 implies le(
                    #[trigger] items@[i].1,
                    items@[parent(up as int)].1,
                ) by {
                    assert(below_parent(before, up as int));
                    if i == pos {
                    } else {
                        assert(below_parent(before, i));
                        lemma_le_transitive(
                            before[i].1,
                            before[up as int].1,
                            before[parent(up as int)].1,
                        );
                    }
                }
            }
        }
        pos = up;
    }
}

/// Moves the item at `start` down until neither item below it ranks higher.
fn sift_down<T, P: Ord>(items: &mut Vec<PrioritizedItem<T, P>>, start: usize)
    requires
        start < old(items)@.len(),
        total_order::<P>() ==> ordered_except_below(old(items)@, start as int),
    ensures
        final(items)@.len() == old(items)@.len(),
        final(items)@.to_multiset() == old(items)@.to_multiset(),
        total_order::<P>() ==> heap_ordered(final(items)@),
{
    let len: usize = items.len();
    let mut pos: usize = start;
    while pos < len / 2
        invariant
            len == items@.len(),
            pos < len,
            items@.len() == old(items)@.len(),
            items@.to_multiset() == old(items)@.to_multiset(),
            total_order::<P>() ==> ordered_except_below(items@, pos as int),
        ensures
            items@.len() == old(items)@.len(),
            items@.to_multiset() == old(items)@.to_multiset(),
            total_order::<P>() ==> heap_ordered(items@),
        decreases len - pos,
    {
        let left: usize = 2 * pos + 1;
        let right: usize = left + 1;
        let child: usize = if right < len && !at_most(&items[right].1, &items[left].1) {
            right
        } else {
            left
        };
        let ghost other: int = if child == left { right as int } else { left as int };
        proof {
            if total_order::<P>() && other < len {
                lemma_le_total(items@[right as int].1, items@[left as int].1);
                assert(le(items@[other].1, items@[child as int].1));
            }
        }
        if at_most(&items[child].1, &items[pos].1) {
            proof {
                if total_order::<P>() {
                    assert forall|i: int| 0 < i < items@.len() implies #[trigger] below_parent(
                        items@,
                        i,
                    ) by {
                        if parent(i) == pos {
                            assert(i == left || i == right);
                            if i != child {
                                lemma_le_transitive(
                                    items@[i].1,
                                    items@[child as int].1,
                                    items@[pos as int].1,
                                );
                            }
                        }
                    }
                }
            }
            break;
        }
        let ghost before = items@;
        swap_items(items, pos, child);
        proof {
            lemma_exchange_keeps_items(before, pos as int, child as int);
            if total_order::<P>() {
                lemma_le_total(before[child as int].1, before[pos as int].1);
                assert forall|i: int|
                    0 < i < items@.len() && parent(i) != child implies #[trigger] below_parent(
                    items@,
                    i,
                ) by {
                    if i == child {
                    } else if parent(i) == pos {
                        assert(i == other);
                    } else if i == pos {
                        assert(le(before[child as int].1, before[parent(pos as int)].1));
                    } else {
                        assert(below_parent(before, i));
                    }
                }
                assert forall|i: int|
                    0 < i < items@.len() && parent(i) == child && child > 0 implies le(
                    #[trigger] items@[i].1,
                    items@[parent(child as int)].1,
                ) by {
                    assert(below_parent(before, i));
                }
            }
        }
        pos = child;
    }
}

/// A binary max-heap of prioritized items. The item that `get` hands out is
/// one that no other item outranks; among items of equal priority the heap
/// promises no order.
pub struct MaxHeap<T, P: Ord> {
    items: Vec<PrioritizedItem<T, P>>,
}

impl<T, P: Ord> View for MaxHeap<T, P> {
    type V = Seq<PrioritizedItem<T, P>>;

    /// The items in the heap's own arrangement.
    closed spec fn view(&self) -> Seq<PrioritizedItem<T, P>> {
        self.items@
    }
}

impl<T, P: Ord> MaxHeap<T, P> {
    #[verifier::type_invariant]
    spec fn inv(self) -> bool {
        total_order::<P>() ==> heap_ordered(self.items@)
    }
}

impl<T, P: Ord> BasicArray<PrioritizedItem<T, P>> for MaxHeap<T, P> {
    /// The heap gains the new item and rearranges itself as it sees fit.
    open spec fn inserts(
        before: Seq<PrioritizedItem<T, P>>,
        value: PrioritizedItem<T, P>,
        after: Seq<PrioritizedItem<T, P>>,
    ) -> bool {
        after.to_multiset() == before.to_multiset().insert(value)
    }

    /// An item leaves that no other item outranked, provided the priority
    /// keys are totally ordered.
    open spec fn removes(
        before: Seq<PrioritizedItem<T, P>>,
        item: PrioritizedItem<T, P>,
        after: Seq<PrioritizedItem<T, P>>,
    ) -> bool {
        &&& before.contains(item)
        &&& after.to_multiset() == before.to_multiset().remove(item)
        &&& total_order::<P>() ==> ranks_highest(before, item.1)
    }

    fn new(maxsize: Option<usize>) -> (store: Self) {
        let mut items = Vec::new();
        match maxsize {
            None => {},
            Some(s) => {
                let _ = items.try_reserve(s);
            },
        }
        MaxHeap { items }
    }

    fn len(&self) -> (n: usize) {
        self.items.len()
    }

    fn get(&mut self) -> (item: Option<PrioritizedItem<T, P>>) {
        proof {
            use_type_invariant(&*self);
        }
        let mut items = Vec::new();
        core::mem::swap(&mut items, &mut self.items);
        let ghost before = items@;
        let len: usize = items.len();
        if len == 0 {
            return None;
        }
        swap_items(&mut items, 0, len - 1);
        let top = items.pop();
        proof {
            let exchanged = before.update(0, before[len - 1]).update(len - 1, before[0]);
            lemma_exchange_keeps_items(before, 0, len - 1);
            to_multiset_remove(exchanged, len - 1);
            assert(exchanged.remove(len - 1) =~= items@);
            assert(before.contains(before[0]));
            if total_order::<P>() {
                assert forall|j: int| 0 <= j < before.len() implies le(
                    #[trigger] before[j].1,
                    before[0].1,
                ) by {
                    lemma_first_ranks_highest(before, j);
                }
                assert forall|i: int|
                    0 < i < items@.len() && parent(i) != 0 implies #[trigger] below_parent(
                    items@,
                    i,
                ) by {
                    assert(below_parent(before, i));
                }
            }
        }
        if items.len() > 0 {
            sift_down(&mut items, 0);
        }
        self.items = items;
        top
    }

    fn put(&mut self, value: PrioritizedItem<T, P>) {
        proof {
            use_type_invariant(&*self);
        }
        let mut items = Vec::new();
        core::mem::swap(&mut items, &mut self.items);
        let ghost before = items@;
        items.push(value);
        proof {
            to_multiset_build(before, value);
            if total_order::<P>() {
                assert forall|i: int|
                    0 < i < items@.len() && i != before.len() implies #[trigger] below_parent(
                    items@,
                    i,
                ) by {
                    assert(below_parent(before, i));
                }
            }
        }
        let last: usize = items.len() - 1;
        sift_up(&mut items, last);
        self.items = items;
    }
}

/// An item that a sequence holds ranks no higher than what ranks highest
/// in it.
proof fn lemma_held_item_ranks_below<T, P: Ord>(
    held: Seq<PrioritizedItem<T, P>>,
    top: P,
    item: PrioritizedItem<T, P>,
)
    requires
        ranks_highest(held, top),
        held.to_multiset().count(item) > 0,
    ensures
        le(item.1, top),
{
    to_multiset_contains(held, item);
    let j = choose|j: int| 0 <= j < held.len() && held[j] == item;
    assert(le(held[j].1, top));
}

/// Highest first: a heap hands its items out in descending priority, and
/// nothing that it keeps outranks anything that it handed out.
pub proof fn lemma_highest_first<T, P: Ord>(
    held: Seq<PrioritizedItem<T, P>>,
    out: Seq<PrioritizedItem<T, P>>,
    left: Seq<PrioritizedItem<T, P>>,
)
    requires
        total_order::<P>(),
        drained::<MaxHeap<T, P>, PrioritizedItem<T, P>>(held, out, left),
    ensures
        forall|i: int, j: int|
            0 <= i <= j < out.len() ==> le(#[trigger] out[j].1, #[trigger] out[i].1),
        forall|i: int, k: int|
            0 <= i < out.len() && 0 <= k < left.len() ==> le(
                #[trigger] left[k].1,
                #[trigger] out[i].1,
            ),
    decreases out.len(),
{
    broadcast use vstd::multiset::group_multiset_axioms;

    if out.len() > 0 {
        let mid = choose|mid: Seq<PrioritizedItem<T, P>>| #[trigger]
            get_step::<MaxHeap<T, P>, PrioritizedItem<T, P>>(held, out.first(), mid) && drained::<
                MaxHeap<T, P>,
                PrioritizedItem<T, P>,
            >(mid, out.drop_first(), left);
        let rest = out.drop_first();
        lemma_highest_first(mid, rest, left);
        lemma_drained_splits_the_store::<MaxHeap<T, P>, PrioritizedItem<T, P>>(mid, rest, left);
        lemma_le_reflexive(out[0].1);
        assert forall|j: int| 1 <= j < out.len() implies le(out[j].1, out[0].1) by {
            assert(out[j] == rest[j - 1]);
            to_multiset_contains(rest, rest[j - 1]);
            assert(rest.contains(rest[j - 1]));
            assert(rest.to_multiset().count(out[j]) > 0);
            assert(mid.to_multiset().count(out[j]) > 0);
            assert(held.to_multiset().count(out[j]) > 0);
            lemma_held_item_ranks_below(held, out[0].1, out[j]);
        }
        assert forall|k: int| 0 <= k < left.len() implies le(left[k].1, out[0].1) by {
            to_multiset_contains(left, left[k]);
            assert(left.contains(left[k]));
            assert(left.to_multiset().count(left[k]) > 0);
            assert(mid.to_multiset().count(left[k]) > 0);
            assert(held.to_multiset().count(left[k]) > 0);
            lemma_held_item_ranks_below(held, out[0].1, left[k]);
        }
        assert forall|i: int, j: int| 0 <= i <= j < out.len() implies le(
            #[trigger] out[j].1,
            #[trigger] out[i].1,
        ) by {
            if i > 0 {
                assert(out[i] == rest[i - 1]);
                assert(out[j] == rest[j - 1]);
            }
        }
        assert forall|i: int, k: int| 0 <= i < out.len() && 0 <= k < left.len() implies le(
            #[trigger] left[k].1,
            #[trigger] out[i].1,
        ) by {
            if i > 0 {
                assert(out[i] == rest[i - 1]);
            }
        }
    }
}

/// A queue that hands out first an element that no other outranks.
pub type PriorityQueue<T, P> = BaseQueue<MaxHeap<T, P>, PrioritizedItem<T, P>>;

} // verus!
