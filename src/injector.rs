use vstd::prelude::*;

use crate::deque::MAX_TASKS;
use crate::shared::{new_shared_blocks, SharedBlocks};
use crate::steal::Steal;
use crate::worker::Worker;

verus! {

/// An injector queue: an unbounded FIFO queue, kept as a chain of blocks, that any thread may
/// push into and steal from. Schedulers typically have one, as the entry point for new tasks.
pub struct Injector<T> {
    shared: SharedBlocks<T>,
}

impl<T> Injector<T> {
    /// Creates an empty injector queue.
    pub fn new() -> Injector<T> {
        Injector { shared: new_shared_blocks() }
    }

    /// Pushes a task at the back of the queue (see `BlockQueue::push`). A queue that already holds
    /// `MAX_TASKS` tasks drops it.
    pub fn push(&self, task: T) {
        let (mut d, h) = self.shared.acquire_write();
        if d.len() < MAX_TASKS {
            d.push(task);
        }
        h.release_write(d);
    }

    /// Steals the oldest task (see `BlockQueue::steal`).
    pub fn steal(&self) -> (r: Steal<T>)
        ensures
            !(r is Retry),
    {
        let (mut d, h) = self.shared.acquire_write();
        let r = d.steal();
        h.release_write(d);
        r
    }

    /// Steals a batch of the oldest tasks (see `BlockQueue::steal_batch`) and deposits them in
    /// `dest`.
    pub fn steal_batch(&self, dest: &Worker<T>) -> (r: Steal<()>)
        ensures
            !(r is Retry),
    {
        let (mut d, h) = self.shared.acquire_write();
        let batch = d.steal_batch();
        h.release_write(d);
        if batch.len() == 0 {
            return Steal::Empty;
        }
        dest.deposit(batch);
        Steal::Success(())
    }

    /// Steals a batch of the oldest tasks, returns the oldest of them, and deposits the rest
    /// in `dest`.
    pub fn steal_batch_and_pop(&self, dest: &Worker<T>) -> (r: Steal<T>)
        ensures
            !(r is Retry),
    {
        let (mut d, h) = self.shared.acquire_write();
        let mut batch = d.steal_batch();
        h.release_write(d);
        if batch.len() == 0 {
            return Steal::Empty;
        }
        let first = batch.remove(0);
        dest.deposit(batch);
        Steal::Success(first)
    }

    /// Whether the queue held no task when it was looked at.
    pub fn is_empty(&self) -> bool {
        let h = self.shared.acquire_read();
        let r = h.borrow().is_empty();
        h.release_read();
        r
    }
}

} // verus!
