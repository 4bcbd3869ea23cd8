use vstd::prelude::*;

use crate::deque::{Flavor, MAX_TASKS};
use crate::shared::{new_shared, SharedDeque};
use crate::steal::Steal;

verus! {

/// A worker queue: owned by one thread, which pushes and pops tasks, while other threads steal
/// the oldest tasks through `Stealer`s. Its owner pops oldest first (`Fifo`) or newest first
/// (`Lifo`).
pub struct Worker<T> {
    shared: SharedDeque<T>,
    flavor: Flavor,
}

/// A handle that steals the oldest tasks of a worker queue; it can be cloned and shared.
pub struct Stealer<T> {
    shared: SharedDeque<T>,
}

impl<T> Worker<T> {
    /// Which end the owner pops from.
    pub closed spec fn flavor(&self) -> Flavor {
        self.flavor
    }

    /// `s` steals from this worker's queue.
    pub closed spec fn feeds(&self, s: &Stealer<T>) -> bool {
        s.shared == self.shared
    }

    /// Creates a FIFO worker queue: tasks are pushed and popped at opposite ends.
    pub fn new_fifo() -> (w: Worker<T>)
        ensures
            w.flavor() == Flavor::Fifo,
    {
        Worker { shared: new_shared(), flavor: Flavor::Fifo }
    }

    /// Creates a LIFO worker queue: tasks are pushed and popped at the same end.
    pub fn new_lifo() -> (w: Worker<T>)
        ensures
            w.flavor() == Flavor::Lifo,
    {
        Worker { shared: new_shared(), flavor: Flavor::Lifo }
    }

    /// Creates a stealer for this queue.
    pub fn stealer(&self) -> (s: Stealer<T>)
        ensures
            self.feeds(&s),
    {
        Stealer { shared: self.shared.clone() }
    }

    /// Whether the queue held no task when it was looked at.
    pub fn is_empty(&self) -> bool {
        let h = self.shared.acquire_read();
        let r = h.borrow().is_empty();
        h.release_read();
        r
    }

    /// Pushes a task at the back of the queue (see `Deque::push`). A queue that already holds
    /// `MAX_TASKS` tasks drops it.
    pub fn push(&self, task: T) {
        let (mut d, h) = self.shared.acquire_write();
        if d.len() < MAX_TASKS {
            d.push(task);
        }
        h.release_write(d);
    }

    /// Pops a task as the owner: the oldest for a FIFO queue, the newest for a LIFO one
    /// (see `Deque::pop`).
    pub fn pop(&self) -> Option<T> {
        let (mut d, h) = self.shared.acquire_write();
        let r = d.pop(self.flavor);
        h.release_write(d);
        r
    }

    /// Deposits a stolen batch (see `Deque::deposit`).
    pub(crate) fn deposit(&self, batch: Vec<T>) {
        let (mut d, h) = self.shared.acquire_write();
        d.deposit(batch, self.flavor);
        h.release_write(d);
    }
}

impl<T> Clone for Stealer<T> {
    fn clone(&self) -> (s: Self)
        ensures
            s.same_queue(self),
    {
        Stealer { shared: self.shared.clone() }
    }
}

impl<T> Stealer<T> {
    /// `self` and `other` steal from the same queue.
    pub closed spec fn same_queue(&self, other: &Stealer<T>) -> bool {
        self.shared == other.shared
    }

    /// Whether the queue held no task when it was looked at.
    pub fn is_empty(&self) -> bool {
        let h = self.shared.acquire_read();
        let r = h.borrow().is_empty();
        h.release_read();
        r
    }

    /// Steals the oldest task (see `Deque::steal`).
    pub fn steal(&self) -> (r: Steal<T>)
        ensures
            !(r is Retry),
    {
        let (mut d, h) = self.shared.acquire_write();
        let r = d.steal();
        h.release_write(d);
        r
    }

    /// Steals a batch of the oldest tasks (see `Deque::steal_batch`) and deposits them in
    /// `dest`.
    pub fn steal_batch(&self, dest: &Worker<T>) -> (r: Steal<()>)
        ensures
            !(r is Retry),
    {
        let (mut d, h) = self.shared.acquire_write();
        let batch = d.steal_batch();
        h.release_write(d);
        if batch.len() == 0 {
            return Steal::Empty;
        }
        dest.deposit(batch);
        Steal::Success(())
    }

    /// Steals a batch of the oldest tasks, returns the oldest of them, and deposits the rest
    /// in `dest`.
    pub fn steal_batch_and_pop(&self, dest: &Worker<T>) -> (r: Steal<T>)
        ensures
            !(r is Retry),
    {
        let (mut d, h) = self.shared.acquire_write();
        let mut batch = d.steal_batch();
        h.release_write(d);
        if batch.len() == 0 {
            return Steal::Empty;
        }
        let first = batch.remove(0);
        dest.deposit(batch);
        Steal::Success(first)
    }
}

} // verus!
