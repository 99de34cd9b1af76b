//! A thread-safe, optionally bounded blocking queue with first-in-first-out,
//! last-in-first-out and priority-ordered variants over one shared engine.

pub mod fault;
pub mod fifo_queue;
pub mod item;
pub mod lifo_queue;
pub mod order;
pub mod priority_queue;
pub mod queue;
pub mod store;
pub mod sync;

pub use fault::{PutError, QueueError};
pub use fifo_queue::FifoQueue;
pub use lifo_queue::LifoQueue;
pub use item::PrioritizedItem;
pub use priority_queue::{MaxHeap, PriorityQueue};
pub use queue::{BaseQueue, Queue, QueueInner};
pub use store::BasicArray;
