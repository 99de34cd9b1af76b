//! The capability that a backing store offers to the queue engine, and what
//! a run of insertions and removals may do to a store.

use vstd::prelude::*;

verus! {

/// A container that the queue engine can drive: it is created empty, reports
/// its length, takes one element in and hands one element out.
///
/// The view of a store is the sequence of the elements it holds, in the
/// store's own arrangement. What distinguishes one store from another is
/// stated by two relations over such sequences: `inserts` says where a new
/// element goes, `removes` says which element leaves. Whatever the
/// discipline, an insertion adds exactly the given element and a removal
/// takes exactly the returned one.
pub trait BasicArray<T>: Sized + View<V = Seq<T>> {
    /// Whether a store that held `before` may hold `after` once `value` was
    /// inserted.
    spec fn inserts(before: Seq<T>, value: T, after: Seq<T>) -> bool;

    /// Whether a store that held `before` may hand out `item` and be left
    /// holding `after`.
    spec fn removes(before: Seq<T>, item: T, after: Seq<T>) -> bool;

    /// An empty store. `maxsize` is a hint for how much room to reserve; the
    /// store itself enforces no limit.
    fn new(maxsize: Option<usize>) -> (store: Self)
        ensures
            store@.len() == 0,
    ;

    fn len(&self) -> (n: usize)
        ensures
            n == self@.len(),
    ;

    /// Removes and returns the element that the store's discipline selects,
    /// or `None` when the store is empty.
    fn get(&mut self) -> (item: Option<T>)
        ensures
            match item {
                Some(x) => {
                    &&& old(self)@.len() > 0
                    &&& Self::removes(old(self)@, x, final(self)@)
                    &&& final(self)@.len() == old(self)@.len() - 1
                    &&& final(self)@.to_multiset() == old(self)@.to_multiset().remove(x)
                },
                None => old(self)@.len() == 0 && final(self)@ == old(self)@,
            },
    ;

    /// Inserts `value`.
    fn put(&mut self, value: T)
        ensures
            Self::inserts(old(self)@, value, final(self)@),
            final(self)@.len() == old(self)@.len() + 1,
            final(self)@.to_multiset() == old(self)@.to_multiset().insert(value),
    ;
}

/// One insertion: the store's own rule for where `value` goes, and what
/// holds of every store: the length grows by one and exactly `value` is
/// gained.
pub open spec fn put_step<Q: BasicArray<T>, T>(before: Seq<T>, value: T, after: Seq<T>) -> bool {
    &&& Q::inserts(before, value, after)
    &&& after.len() == before.len() + 1
    &&& after.to_multiset() == before.to_multiset().insert(value)
}

/// One removal: the store's own rule for which element leaves, and what
/// holds of every store: it was not empty, the length shrinks by one and
/// exactly `item` is lost.
pub open spec fn get_step<Q: BasicArray<T>, T>(before: Seq<T>, item: T, after: Seq<T>) -> bool {
    &&& before.len() > 0
    &&& Q::removes(before, item, after)
    &&& after.len() == before.len() - 1
    &&& after.to_multiset() == before.to_multiset().remove(item)
}

/// `held` is what a store may hold once the elements of `values` have been
/// inserted, one after the other, into an empty store.
pub open spec fn filled<Q: BasicArray<T>, T>(values: Seq<T>, held: Seq<T>) -> bool
    decreases values.len(),
{
    if values.len() == 0 {
        held.len() == 0
    } else {
        exists|mid: Seq<T>|
            filled::<Q, T>(values.drop_last(), mid) && #[trigger] put_step::<Q, T>(
                mid,
                values.last(),
                held,
            )
    }
}

/// A store that holds `held` may hand out the elements of `out`, one after
/// the other, and be left holding `left`.
pub open spec fn drained<Q: BasicArray<T>, T>(held: Seq<T>, out: Seq<T>, left: Seq<T>) -> bool
    decreases out.len(),
{
    if out.len() == 0 {
        left == held
    } else {
        exists|mid: Seq<T>|
            #[trigger] get_step::<Q, T>(held, out.first(), mid) && drained::<Q, T>(
                mid,
                out.drop_first(),
                left,
            )
    }
}

/// A store holds as many elements as were inserted into it, and exactly
/// those.
pub proof fn lemma_filled_holds_the_values<Q: BasicArray<T>, T>(values: Seq<T>, held: Seq<T>)
    requires
        filled::<Q, T>(values, held),
    ensures
        held.len() == values.len(),
        held.to_multiset() == values.to_multiset(),
    decreases values.len(),
{
    if values.len() == 0 {
        assert(held =~= values);
    } else {
        let mid = choose|mid: Seq<T>|
            filled::<Q, T>(values.drop_last(), mid) && #[trigger] put_step::<Q, T>(
                mid,
                values.last(),
                held,
            );
        lemma_filled_holds_the_values::<Q, T>(values.drop_last(), mid);
        vstd::seq_lib::to_multiset_build(values.drop_last(), values.last());
        assert(values.drop_last().push(values.last()) =~= values);
    }
}

/// What is handed out and what is left make up what was held.
pub proof fn lemma_drained_splits_the_store<Q: BasicArray<T>, T>(
    held: Seq<T>,
    out: Seq<T>,
    left: Seq<T>,
)
    requires
        drained::<Q, T>(held, out, left),
    ensures
        held.len() == out.len() + left.len(),
        held.to_multiset() == out.to_multiset().add(left.to_multiset()),
    decreases out.len(),
{
    broadcast use vstd::multiset::group_multiset_axioms;

    if out.len() == 0 {
        assert(out =~= Seq::<T>::empty());
        out.to_multiset_ensures();
        assert(held.to_multiset() =~= out.to_multiset().add(left.to_multiset()));
    } else {
        let mid = choose|mid: Seq<T>|
            #[trigger] get_step::<Q, T>(held, out.first(), mid) && drained::<Q, T>(
                mid,
                out.drop_first(),
                left,
            );
        lemma_drained_splits_the_store::<Q, T>(mid, out.drop_first(), left);
        let taken = out.first();
        assert(out.to_multiset() =~= out.drop_first().to_multiset().insert(taken)) by {
            vstd::seq_lib::to_multiset_insert(out.drop_first(), 0, taken);
            assert(out.drop_first().insert(0, taken) =~= out);
        }
        if held.to_multiset().count(taken) == 0 {
            assert(held.to_multiset().remove(taken) =~= held.to_multiset());
            vstd::seq_lib::to_multiset_len(held);
            vstd::seq_lib::to_multiset_len(mid);
            assert(false);
        }
        assert(held.to_multiset() =~= mid.to_multiset().insert(taken));
        assert(held.to_multiset() =~= out.to_multiset().add(left.to_multiset()));
    }
}

} // verus!
