//! The outcomes of a queue operation that did not go through.

use vstd::prelude::*;

verus! {

/// Why a queue operation did not go through.
///
/// `Full` and `Empty` are ordinary outcomes that a caller branches on.
/// `Poisoned` reports that another thread panicked while it held the queue's
/// lock; the queue's contents can no longer be relied on.
#[derive(Debug, Clone, Copy, PartialEq, Eq, Structural)]
pub enum QueueError {
    Full,
    Empty,
    Poisoned,
}

/// A rejected insertion: the value that was not inserted, and the reason.
#[derive(Debug)]
pub struct PutError<T>(T, QueueError);

impl<T> PutError<T> {
    /// The value that was handed to the failed insertion.
    pub closed spec fn value(&self) -> T {
        self.0
    }

    /// The reason the insertion failed.
    pub closed spec fn kind(&self) -> QueueError {
        self.1
    }

    pub fn new(value: T, kind: QueueError) -> (e: Self)
        ensures
            e.value() == value,
            e.kind() == kind,
    {
        PutError(value, kind)
    }

    /// Borrows the rejected value.
    pub fn rejected(&self) -> (v: &T)
        ensures
            *v == self.value(),
    {
        &self.0
    }

    /// Gives the rejected value back to the caller.
    pub fn into_value(self) -> (v: T)
        ensures
            v == self.value(),
    {
        self.0
    }

    /// The reason the insertion failed.
    pub fn reason(&self) -> (k: QueueError)
        ensures
            k == self.kind(),
    {
        self.1
    }
}

} // verus!
