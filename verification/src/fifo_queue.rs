//! The first-in-first-out store: a double-ended queue that takes elements in
//! at its tail and hands them out at its head.

use std::collections::VecDeque;
use vstd::prelude::*;
use vstd::seq_lib::{to_multiset_build, to_multiset_remove};

use crate::queue::BaseQueue;
use crate::store::{drained, filled, get_step, put_step, BasicArray};

verus! {

/// `VecDeque::try_reserve`: asks for room for `additional` more elements and
/// reports nothing. The contents stay as they were whether or not the
/// allocator granted the room.
#[verifier::external_body]
fn reserve_room<T>(queue: &mut VecDeque<T>, additional: usize)
    ensures
        final(queue)@ == old(queue)@,
{
    let _ = queue.try_reserve(additional);
}

impl<T> BasicArray<T> for VecDeque<T> {
    /// The new element becomes the last one.
    open spec fn inserts(before: Seq<T>, value: T, after: Seq<T>) -> bool {
        after == before.push(value)
    }

    /// The first element leaves; the others keep their order.
    open spec fn removes(before: Seq<T>, item: T, after: Seq<T>) -> bool {
        &&& before.len() > 0
        &&& item == before.first()
        &&& after == before.drop_first()
    }

    fn new(maxsize: Option<usize>) -> (store: Self) {
        let mut store = VecDeque::new();
        match maxsize {
            None => {},
            Some(s) => {
                reserve_room(&mut store, s);
            },
        }
        store
    }

    fn len(&self) -> (n: usize) {
        VecDeque::len(self)
    }

    fn get(&mut self) -> (item: Option<T>) {
        let item = self.pop_front();
        proof {
            if old(self)@.len() > 0 {
                to_multiset_remove(old(self)@, 0);
                assert(old(self)@.remove(0) =~= old(self)@.drop_first());
                assert(self@ =~= old(self)@.drop_first());
            }
        }
        item
    }

    fn put(&mut self, value: T) {
        self.push_back(value);
        proof {
            to_multiset_build(old(self)@, value);
        }
    }
}

/// A first-in-first-out store that was filled from empty holds the values in
/// their order of arrival.
pub proof fn lemma_fifo_holds_in_arrival_order<T>(values: Seq<T>, held: Seq<T>)
    requires
        filled::<VecDeque<T>, T>(values, held),
    ensures
        held == values,
    decreases values.len(),
{
    if values.len() == 0 {
        assert(held =~= values);
    } else {
        let mid = choose|mid: Seq<T>|
            filled::<VecDeque<T>, T>(values.drop_last(), mid) && #[trigger] put_step::<
                VecDeque<T>,
                T,
            >(mid, values.last(), held);
        lemma_fifo_holds_in_arrival_order(values.drop_last(), mid);
        assert(values.drop_last().push(values.last()) =~= values);
    }
}

/// A first-in-first-out store hands out what it holds from the front, in
/// order, and keeps the rest.
pub proof fn lemma_fifo_hands_out_from_the_front<T>(held: Seq<T>, out: Seq<T>, left: Seq<T>)
    requires
        drained::<VecDeque<T>, T>(held, out, left),
    ensures
        out.len() <= held.len(),
        out == held.take(out.len() as int),
        left == held.skip(out.len() as int),
    decreases out.len(),
{
    if out.len() == 0 {
        assert(out =~= held.take(0));
        assert(left =~= held.skip(0));
    } else {
        let mid = choose|mid: Seq<T>| #[trigger]
            get_step::<VecDeque<T>, T>(held, out.first(), mid) && drained::<VecDeque<T>, T>(
                mid,
                out.drop_first(),
                left,
            );
        lemma_fifo_hands_out_from_the_front(mid, out.drop_first(), left);
        assert forall|i: int| 0 <= i < out.len() implies out[i] == held[i] by {
            if i > 0 {
                assert(out[i] == out.drop_first()[i - 1]);
                assert(out.drop_first()[i - 1] == mid[i - 1]);
            }
        }
        assert(out =~= held.take(out.len() as int));
        assert(left =~= held.skip(out.len() as int));
    }
}

/// First in, first out: when values are put into an empty queue and as many
/// are then taken, they come out in the order in which they went in, and the
/// queue is empty again.
pub proof fn lemma_first_in_first_out<T>(
    values: Seq<T>,
    held: Seq<T>,
    out: Seq<T>,
    left: Seq<T>,
)
    requires
        filled::<VecDeque<T>, T>(values, held),
        drained::<VecDeque<T>, T>(held, out, left),
        out.len() == values.len(),
    ensures
        out == values,
        left.len() == 0,
{
    lemma_fifo_holds_in_arrival_order(values, held);
    lemma_fifo_hands_out_from_the_front(held, out, left);
    assert(held.take(held.len() as int) =~= held);
}

/// A queue that hands its elements out in the order in which they came in.
pub type FifoQueue<T> = BaseQueue<VecDeque<T>, T>;

} // verus!
