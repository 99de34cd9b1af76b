//! The queue engine: what is decided once a store has been reached under
//! the lock, and the shared handle through which producers and consumers get
//! there.

use std::marker::PhantomData;
use std::sync::{Arc, Condvar, Mutex};
use std::time::Duration;
use vstd::prelude::*;

use crate::fault::{PutError, QueueError};
use crate::store::{filled, get_step, lemma_filled_holds_the_values, put_step, BasicArray};
use crate::sync::{condvar, guarded, guarded_mut, mutex, share, wait_timeout_while, wait_while};

verus! {

/// Whether `len` elements fill a queue whose capacity bound is `bound`. A
/// queue without a bound is never full.
pub open spec fn at_capacity(len: nat, bound: Option<usize>) -> bool {
    match bound {
        Some(n) => len == n,
        None => false,
    }
}

/// Whether `len` elements respect the capacity bound `bound`.
pub open spec fn within_capacity(len: nat, bound: Option<usize>) -> bool {
    match bound {
        Some(n) => len <= n,
        None => true,
    }
}

/// What a removal without blocking does to a store that held `before`: an
/// element leaves as the store's discipline says, or the store was empty and
/// the answer is `Empty`.
pub open spec fn get_outcome<Q: BasicArray<T>, T>(
    before: Seq<T>,
    r: Result<T, QueueError>,
    after: Seq<T>,
) -> bool {
    match r {
        Ok(item) => get_step::<Q, T>(before, item, after),
        Err(e) => {
            &&& e == QueueError::Empty
            &&& before.len() == 0
            &&& after == before
        },
    }
}

/// What an insertion without blocking does to a store that held `before`,
/// under the capacity bound `maxsize`: the value goes in as the store's
/// discipline says, or the store was full and the value comes back with the
/// `Full` fault.
pub open spec fn put_outcome<Q: BasicArray<T>, T>(
    before: Seq<T>,
    maxsize: Option<usize>,
    value: T,
    r: Result<(), PutError<T>>,
    after: Seq<T>,
) -> bool {
    match r {
        Ok(()) => {
            &&& !at_capacity(before.len(), maxsize)
            &&& put_step::<Q, T>(before, value, after)
        },
        Err(e) => {
            &&& at_capacity(before.len(), maxsize)
            &&& e.value() == value
            &&& e.kind() == QueueError::Full
            &&& after == before
        },
    }
}

/// Whether a store holds nothing.
pub fn store_is_empty<Q: BasicArray<T>, T>(store: &Q) -> (empty: bool)
    ensures
        empty == (store@.len() == 0),
{
    store.len() == 0
}

/// Whether a store has reached the capacity bound `maxsize`.
pub fn store_is_full<Q: BasicArray<T>, T>(store: &Q, maxsize: Option<usize>) -> (full: bool)
    ensures
        full == at_capacity(store@.len(), maxsize),
{
    match maxsize {
        Some(limit) => store.len() == limit,
        None => false,
    }
}

/// Removes the element that the store's discipline selects. An empty store
/// is left as it is and answers `Empty`.
pub fn get_from<Q: BasicArray<T>, T>(store: &mut Q) -> (r: Result<T, QueueError>)
    ensures
        get_outcome::<Q, T>(old(store)@, r, final(store)@),
{
    match store.get() {
        Some(item) => Ok(item),
        None => Err(QueueError::Empty),
    }
}

/// Inserts `value` unless the store has reached the bound `maxsize`. A full
/// store is left as it is, and the value comes back with the `Full` fault.
pub fn put_into<Q: BasicArray<T>, T>(store: &mut Q, maxsize: Option<usize>, value: T) -> (r:
    Result<(), PutError<T>>)
    ensures
        put_outcome::<Q, T>(old(store)@, maxsize, value, r, final(store)@),
{
    if store_is_full(&*store, maxsize) {
        return Err(PutError::new(value, QueueError::Full));
    }
    store.put(value);
    Ok(())
}

/// An insertion never takes a store past its bound: it is accepted only
/// below the bound.
pub proof fn lemma_put_keeps_the_bound<Q: BasicArray<T>, T>(
    before: Seq<T>,
    maxsize: Option<usize>,
    value: T,
    r: Result<(), PutError<T>>,
    after: Seq<T>,
)
    requires
        within_capacity(before.len(), maxsize),
        put_outcome::<Q, T>(before, maxsize, value, r, after),
    ensures
        within_capacity(after.len(), maxsize),
{
}

/// A removal never takes a store past its bound.
pub proof fn lemma_get_keeps_the_bound<Q: BasicArray<T>, T>(
    before: Seq<T>,
    maxsize: Option<usize>,
    r: Result<T, QueueError>,
    after: Seq<T>,
)
    requires
        within_capacity(before.len(), maxsize),
        get_outcome::<Q, T>(before, r, after),
    ensures
        within_capacity(after.len(), maxsize),
{
}

/// A queue without a bound accepts every insertion.
pub proof fn lemma_unbounded_put_is_accepted<Q: BasicArray<T>, T>(
    before: Seq<T>,
    value: T,
    r: Result<(), PutError<T>>,
    after: Seq<T>,
)
    requires
        put_outcome::<Q, T>(before, None, value, r, after),
    ensures
        r is Ok,
        put_step::<Q, T>(before, value, after),
{
}

/// Below its bound a queue accepts an insertion.
pub proof fn lemma_put_below_the_bound_is_accepted<Q: BasicArray<T>, T>(
    before: Seq<T>,
    bound: usize,
    value: T,
    r: Result<(), PutError<T>>,
    after: Seq<T>,
)
    requires
        before.len() < bound,
        put_outcome::<Q, T>(before, Some(bound), value, r, after),
    ensures
        r is Ok,
        put_step::<Q, T>(before, value, after),
        after.len() <= bound,
{
}

/// Once as many values have gone into a queue as its bound allows, the next
/// insertion is rejected: it answers `Full`, hands back the very value it was
/// given, and leaves the queue at its bound.
pub proof fn lemma_put_at_the_bound_is_rejected<Q: BasicArray<T>, T>(
    values: Seq<T>,
    held: Seq<T>,
    bound: usize,
    value: T,
    r: Result<(), PutError<T>>,
    after: Seq<T>,
)
    requires
        filled::<Q, T>(values, held),
        values.len() == bound,
        put_outcome::<Q, T>(held, Some(bound), value, r, after),
    ensures
        r matches Err(e) && e.value() == value && e.kind() == QueueError::Full,
        after == held,
        after.len() == bound,
{
    lemma_filled_holds_the_values::<Q, T>(values, held);
}

/// A removal from a queue that holds nothing answers `Empty` and leaves the
/// queue holding nothing.
pub proof fn lemma_get_from_nothing_is_empty<Q: BasicArray<T>, T>(
    before: Seq<T>,
    r: Result<T, QueueError>,
    after: Seq<T>,
)
    requires
        before.len() == 0,
        get_outcome::<Q, T>(before, r, after),
    ensures
        r == Err::<T, QueueError>(QueueError::Empty),
        after.len() == 0,
{
}

/// What `len`, `is_empty` and `is_full` answer depends on nothing but what
/// the store holds and the bound: asked again of an unchanged store, they
/// answer the same.
pub proof fn lemma_observations_repeat<T>(first: Seq<T>, second: Seq<T>, maxsize: Option<usize>)
    requires
        first == second,
    ensures
        first.len() == second.len(),
        (first.len() == 0) == (second.len() == 0),
        at_capacity(first.len(), maxsize) == at_capacity(second.len(), maxsize),
{
}

/// The contract that every queue offers, whatever its ordering. A zero
/// `timeout` means "wait for as long as it takes", any other is the longest
/// time a call may block.
pub trait Queue<T> {
    /// The capacity bound; `None` for a queue that grows without limit.
    spec fn capacity(&self) -> Option<usize>;

    /// The number of elements in the queue at the moment of the call.
    fn len(&self) -> (n: usize);

    fn is_empty(&self) -> (empty: bool);

    /// Whether the queue has reached its bound. One without a bound never has.
    fn is_full(&self) -> (full: bool)
        ensures
            self.capacity() is None ==> !full,
    ;

    /// Removes one element without blocking; an empty queue answers `Empty`.
    fn get(&mut self) -> (r: Result<T, QueueError>)
        ensures
            final(self).capacity() == old(self).capacity(),
            r matches Err(e) ==> e != QueueError::Full,
    ;

    /// Removes one element, blocking while the queue is empty; a wait that
    /// runs out answers `Empty`.
    fn get_wait(&mut self, timeout: Duration) -> (r: Result<T, QueueError>)
        ensures
            final(self).capacity() == old(self).capacity(),
            r matches Err(e) ==> e != QueueError::Full,
    ;

    /// Inserts `value` without blocking; a full queue hands it back with the
    /// `Full` fault.
    fn put(&mut self, value: T) -> (r: Result<(), PutError<T>>)
        ensures
            final(self).capacity() == old(self).capacity(),
            r matches Err(e) ==> {
                &&& e.value() == value
                &&& e.kind() != QueueError::Empty
                &&& e.kind() == QueueError::Full ==> old(self).capacity() is Some
            },
    ;

    /// Inserts `value`, blocking while the queue is full; a wait that runs
    /// out hands the value back with the `Full` fault.
    fn put_wait(&mut self, value: T, timeout: Duration) -> (r: Result<(), PutError<T>>)
        ensures
            final(self).capacity() == old(self).capacity(),
            r matches Err(e) ==> {
                &&& e.value() == value
                &&& e.kind() != QueueError::Empty
                &&& e.kind() == QueueError::Full ==> old(self).capacity() is Some
            },
    ;
}

/// One queue as its handles share it: the store behind its lock, the
/// capacity bound, and the two signals that blocked callers wait on. The
/// store is touched only while the lock is held. `not_empty` is raised after
/// an insertion and `not_full` after a removal, and at no other time.
#[verifier::reject_recursive_types(Q)]
pub struct QueueInner<Q: BasicArray<T>, T> {
    queue: Mutex<Q>,
    maxsize: Option<usize>,
    not_empty: Condvar,
    not_full: Condvar,
    _item: PhantomData<T>,
}

impl<Q: BasicArray<T>, T> QueueInner<Q, T> {
    /// The capacity bound that the queue was made with.
    pub closed spec fn capacity(&self) -> Option<usize> {
        self.maxsize
    }

    /// A queue with an empty store and the given capacity bound.
    pub fn new(maxsize: Option<usize>) -> (inner: Self)
        ensures
            inner.capacity() == maxsize,
    {
        QueueInner {
            queue: mutex(Q::new(maxsize)),
            maxsize,
            not_empty: condvar(),
            not_full: condvar(),
            _item: PhantomData,
        }
    }
}

/// A handle to a queue. Cloning a handle yields a second handle to the same
/// queue; the queue lives as long as its longest-lived handle.
#[verifier::reject_recursive_types(Q)]
pub struct BaseQueue<Q: BasicArray<T>, T> {
    inner: Arc<QueueInner<Q, T>>,
}

impl<Q: BasicArray<T>, T> BaseQueue<Q, T> {
    /// A handle to a new, empty queue with the given capacity bound.
    pub fn new(maxsize: Option<usize>) -> (queue: Self)
        ensures
            queue.capacity() == maxsize,
    {
        BaseQueue { inner: Arc::new(QueueInner::new(maxsize)) }
    }
}

impl<Q: BasicArray<T>, T> Clone for BaseQueue<Q, T> {
    /// A second handle to the same queue.
    fn clone(&self) -> (other: Self)
        ensures
            other == *self,
    {
        BaseQueue { inner: share(&self.inner) }
    }
}

impl<Q: BasicArray<T>, T> Queue<T> for BaseQueue<Q, T> {
    closed spec fn capacity(&self) -> Option<usize> {
        self.inner.capacity()
    }

    fn len(&self) -> (n: usize) {
        let guard = match self.inner.queue.lock() {
            Ok(guard) => guard,
            Err(poisoned) => poisoned.into_inner(),
        };
        guarded(&guard).len()
    }

    fn is_empty(&self) -> (empty: bool) {
        let guard = match self.inner.queue.lock() {
            Ok(guard) => guard,
            Err(poisoned) => poisoned.into_inner(),
        };
        store_is_empty(guarded(&guard))
    }

    fn is_full(&self) -> (full: bool) {
        let guard = match self.inner.queue.lock() {
            Ok(guard) => guard,
            Err(poisoned) => poisoned.into_inner(),
        };
        store_is_full(guarded(&guard), self.inner.maxsize)
    }

    fn get(&mut self) -> (r: Result<T, QueueError>)
        ensures
            *final(self) == *old(self),
    {
        match self.inner.queue.lock() {
            Ok(mut guard) => {
                let r = get_from(guarded_mut(&mut guard));
                if r.is_ok() {
                    self.inner.not_full.notify_one();
                }
                r
            },
            Err(_) => Err(QueueError::Poisoned),
        }
    }

    fn get_wait(&mut self, timeout: Duration) -> (r: Result<T, QueueError>)
        ensures
            *final(self) == *old(self),
    {
        let guard = match self.inner.queue.lock() {
            Ok(guard) => guard,
            Err(_) => {
                return Err(QueueError::Poisoned);
            },
        };
        let empty = |store: &Q| -> (b: bool)
            ensures
                b == (store@.len() == 0),
            { store_is_empty(store) };
        let r = if timeout.is_zero() {
            match wait_while(&self.inner.not_empty, guard, empty) {
                Ok(mut guard) => get_from(guarded_mut(&mut guard)),
                Err(_) => Err(QueueError::Poisoned),
            }
        } else {
            match wait_timeout_while(&self.inner.not_empty, guard, timeout, empty) {
                Ok((mut guard, _)) => get_from(guarded_mut(&mut guard)),
                Err(_) => Err(QueueError::Poisoned),
            }
        };
        if r.is_ok() {
            self.inner.not_full.notify_one();
        }
        r
    }

    fn put(&mut self, value: T) -> (r: Result<(), PutError<T>>)
        ensures
            *final(self) == *old(self),
    {
        match self.inner.queue.lock() {
            Ok(mut guard) => {
                let r = put_into(guarded_mut(&mut guard), self.inner.maxsize, value);
                if r.is_ok() {
                    self.inner.not_empty.notify_one();
                }
                r
            },
            Err(_) => Err(PutError::new(value, QueueError::Poisoned)),
        }
    }

    fn put_wait(&mut self, value: T, timeout: Duration) -> (r: Result<(), PutError<T>>)
        ensures
            *final(self) == *old(self),
    {
        let guard = match self.inner.queue.lock() {
            Ok(guard) => guard,
            Err(_) => {
                return Err(PutError::new(value, QueueError::Poisoned));
            },
        };
        let maxsize = self.inner.maxsize;
        let full = |store: &Q| -> (b: bool)
            ensures
                b == at_capacity(store@.len(), maxsize),
            { store_is_full(store, maxsize) };
        let r = if timeout.is_zero() {
            match wait_while(&self.inner.not_full, guard, full) {
                Ok(mut guard) => put_into(guarded_mut(&mut guard), maxsize, value),
                Err(_) => Err(PutError::new(value, QueueError::Poisoned)),
            }
        } else {
            match wait_timeout_while(&self.inner.not_full, guard, timeout, full) {
                Ok((mut guard, _)) => put_into(guarded_mut(&mut guard), maxsize, value),
                Err(_) => Err(PutError::new(value, QueueError::Poisoned)),
            }
        };
        if r.is_ok() {
            self.inner.not_empty.notify_one();
        }
        r
    }
}

} // verus!
