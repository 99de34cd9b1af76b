//! The standard library's lock, condition variable and shared pointer, as
//! far as the queue engine uses them. Nothing in this file is proved: each
//! item states what the standard library documents, and no more.
//!
//! What a lock protects changes whenever another thread holds it, so no item
//! here says anything about the value found under a lock. The engine's
//! functions that take a store as their argument are verified for every
//! store that may be found there.

use std::sync::{Arc, Condvar, Mutex, MutexGuard, PoisonError, WaitTimeoutResult};
use std::time::Duration;
use vstd::prelude::*;

verus! {

/// `std::sync::Mutex`, opaque.
#[verifier::external_type_specification]
#[verifier::external_body]
#[verifier::reject_recursive_types(T)]
pub struct ExMutex<T: ?Sized>(Mutex<T>);

/// `std::sync::MutexGuard`, opaque: the proof that a lock is held.
#[verifier::external_type_specification]
#[verifier::external_body]
#[verifier::reject_recursive_types(T)]
pub struct ExMutexGuard<'a, T: ?Sized + 'a>(MutexGuard<'a, T>);

/// `std::sync::PoisonError`, opaque: what a lock returns in place of its
/// guard once a thread has panicked while holding it.
#[verifier::external_type_specification]
#[verifier::external_body]
#[verifier::reject_recursive_types(T)]
pub struct ExPoisonError<T>(PoisonError<T>);

/// `std::sync::Condvar`, opaque.
#[verifier::external_type_specification]
#[verifier::external_body]
pub struct ExCondvar(Condvar);

/// `std::sync::WaitTimeoutResult`, opaque.
#[verifier::external_type_specification]
#[verifier::external_body]
pub struct ExWaitTimeoutResult(WaitTimeoutResult);

/// `Mutex::lock`: blocks until the lock is free and returns its guard, or the
/// poison error that holds the guard. Nothing is claimed of the result.
pub assume_specification<T: ?Sized>[ Mutex::<T>::lock ](m: &Mutex<T>) -> Result<
    MutexGuard<'_, T>,
    PoisonError<MutexGuard<'_, T>>,
>;

/// `PoisonError::into_inner`: hands out the guard that a poison error holds.
/// Nothing is claimed of the result.
pub assume_specification<T>[ PoisonError::<T>::into_inner ](e: PoisonError<T>) -> T;

/// `Condvar::notify_one`: wakes one thread that waits on the condition
/// variable, if there is one. It returns nothing.
pub assume_specification[ Condvar::notify_one ](cv: &Condvar);

/// `Duration::is_zero`. Nothing is claimed of the result: the engine only
/// branches on it.
pub assume_specification[ Duration::is_zero ](d: &Duration) -> bool;

/// `Mutex::new`: a lock around `state`. Nothing is claimed of the result.
#[verifier::external_body]
pub(crate) fn mutex<S>(state: S) -> (m: Mutex<S>) {
    Mutex::new(state)
}

/// `Condvar::new`. Nothing is claimed of the result.
#[verifier::external_body]
pub(crate) fn condvar() -> (cv: Condvar) {
    Condvar::new()
}

/// `Arc::clone`: a second pointer to the same allocation. To the verifier a
/// shared pointer is the value it points to, so the two are equal.
#[verifier::external_body]
pub(crate) fn share<X>(handle: &Arc<X>) -> (other: Arc<X>)
    ensures
        other == *handle,
{
    Arc::clone(handle)
}

/// `Deref::deref` of a `MutexGuard`: the value under the lock. Nothing is
/// claimed of it.
#[verifier::external_body]
pub(crate) fn guarded<'a, 'b, S>(guard: &'a MutexGuard<'b, S>) -> (state: &'a S) {
    &**guard
}

/// `DerefMut::deref_mut` of a `MutexGuard`: the value under the lock, to be
/// changed in place. Nothing is claimed of it.
#[verifier::external_body]
pub(crate) fn guarded_mut<'a, 'b, S>(guard: &'a mut MutexGuard<'b, S>) -> (state: &'a mut S) {
    &mut **guard
}

/// `Condvar::wait_while`: gives up the lock and sleeps until `blocked`
/// answers `false` of the value under the lock, asking again after every
/// wake-up; then returns with the lock held. `blocked` must accept every
/// value. Nothing is claimed of the result.
#[verifier::external_body]
pub(crate) fn wait_while<'a, S, F: Fn(&S) -> bool>(
    cv: &Condvar,
    guard: MutexGuard<'a, S>,
    blocked: F,
) -> (r: Result<MutexGuard<'a, S>, PoisonError<MutexGuard<'a, S>>>)
    requires
        forall|s: S| blocked.requires((&s,)),
{
    cv.wait_while(guard, |s| blocked(s))
}

/// `Condvar::wait_timeout_while`: as `wait_while`, but gives up once
/// `timeout` has passed. `blocked` must accept every value. Nothing is
/// claimed of the result.
#[verifier::external_body]
pub(crate) fn wait_timeout_while<'a, S, F: Fn(&S) -> bool>(
    cv: &Condvar,
    guard: MutexGuard<'a, S>,
    timeout: Duration,
    blocked: F,
) -> (r: Result<
    (MutexGuard<'a, S>, WaitTimeoutResult),
    PoisonError<(MutexGuard<'a, S>, WaitTimeoutResult)>,
>)
    requires
        forall|s: S| blocked.requires((&s,)),
{
    cv.wait_timeout_while(guard, timeout, |s| blocked(s))
}

} // verus!
