//! The last-in-first-out store: a vector that takes elements in and hands
//! them out at its end.

use vstd::prelude::*;
use vstd::seq_lib::{to_multiset_build, to_multiset_remove};

use crate::queue::BaseQueue;
use crate::store::{drained, filled, get_step, put_step, BasicArray};

verus! {

impl<T> BasicArray<T> for Vec<T> {
    /// The new element becomes the last one.
    open spec fn inserts(before: Seq<T>, value: T, after: Seq<T>) -> bool {
        after == before.push(value)
    }

    /// The last element leaves; the others keep their order.
    open spec fn removes(before: Seq<T>, item: T, after: Seq<T>) -> bool {
        &&& before.len() > 0
        &&& item == before.last()
        &&& after == before.drop_last()
    }

    fn new(maxsize: Option<usize>) -> (store: Self) {
        let mut store = Vec::new();
        match maxsize {
            None => {},
            Some(s) => {
                let _ = store.try_reserve(s);
            },
        }
        store
    }

    fn len(&self) -> (n: usize) {
        Vec::len(self)
    }

    fn get(&mut self) -> (item: Option<T>) {
        let item = self.pop();
        proof {
            if old(self)@.len() > 0 {
                let last = old(self)@.len() - 1;
                to_multiset_remove(old(self)@, last);
                assert(old(self)@.remove(last) =~= old(self)@.drop_last());
                assert(self@ =~= old(self)@.drop_last());
            }
        }
        item
    }

    fn put(&mut self, value: T) {
        self.push(value);
        proof {
            to_multiset_build(old(self)@, value);
        }
    }
}

/// A last-in-first-out store that was filled from empty holds the values in
/// their order of arrival.
pub proof fn lemma_lifo_holds_in_arrival_order<T>(values: Seq<T>, held: Seq<T>)
    requires
        filled::<Vec<T>, T>(values, held),
    ensures
        held == values,
    decreases values.len(),
{
    if values.len() == 0 {
        assert(held =~= values);
    } else {
        let mid = choose|mid: Seq<T>|
            filled::<Vec<T>, T>(values.drop_last(), mid) && #[trigger] put_step::<Vec<T>, T>(
                mid,
                values.last(),
                held,
            );
        lemma_lifo_holds_in_arrival_order(values.drop_last(), mid);
        assert(values.drop_last().push(values.last()) =~= values);
    }
}

/// A last-in-first-out store hands out what it holds from the back, the
/// last element first, and keeps the rest.
pub proof fn lemma_lifo_hands_out_from_the_back<T>(held: Seq<T>, out: Seq<T>, left: Seq<T>)
    requires
        drained::<Vec<T>, T>(held, out, left),
    ensures
        out.len() <= held.len(),
        forall|i: int| 0 <= i < out.len() ==> out[i] == held[held.len() - 1 - i],
        left == held.take(held.len() - out.len()),
    decreases out.len(),
{
    if out.len() == 0 {
        assert(left =~= held.take(held.len() as int));
    } else {
        let mid = choose|mid: Seq<T>| #[trigger]
            get_step::<Vec<T>, T>(held, out.first(), mid) && drained::<Vec<T>, T>(
                mid,
                out.drop_first(),
                left,
            );
        lemma_lifo_hands_out_from_the_back(mid, out.drop_first(), left);
        assert forall|i: int| 0 <= i < out.len() implies out[i] == held[held.len() - 1 - i] by {
            if i > 0 {
                assert(out[i] == out.drop_first()[i - 1]);
            }
        }
        assert(left =~= held.take(held.len() - out.len()));
    }
}

/// Last in, first out: when values are put into an empty queue and as many
/// are then taken, they come out in the reverse of the order in which they
/// went in, and the queue is empty again.
pub proof fn lemma_last_in_first_out<T>(values: Seq<T>, held: Seq<T>, out: Seq<T>, left: Seq<T>)
    requires
        filled::<Vec<T>, T>(values, held),
        drained::<Vec<T>, T>(held, out, left),
        out.len() == values.len(),
    ensures
        out == values.reverse(),
        left.len() == 0,
{
    lemma_lifo_holds_in_arrival_order(values, held);
    lemma_lifo_hands_out_from_the_back(held, out, left);
    assert(out =~= values.reverse());
}

/// A queue that hands out first the element that came in last.
pub type LifoQueue<T> = BaseQueue<Vec<T>, T>;

} // verus!
