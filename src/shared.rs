use vstd::prelude::*;
use vstd::rwlock::{RwLock, RwLockPredicate};

use crate::blocks::BlockQueue;
use crate::deque::Deque;

verus! {

/// The lock invariant of a shared queue: it is well formed whenever nobody holds the lock.
pub struct WellFormed;

impl<T> RwLockPredicate<BlockQueue<T>> for WellFormed {
    open spec fn inv(self, q: BlockQueue<T>) -> bool {
        q.wf()
    }
}

impl<T> RwLockPredicate<Deque<T>> for WellFormed {
    open spec fn inv(self, d: Deque<T>) -> bool {
        d.wf()
    }
}

/// A deque shared between its owner and its stealers. Every operation holds the lock for its
/// whole duration, so each one takes effect at a single point and sees a well-formed deque; no
/// reader ever sees a buffer that is being replaced. The lock does not drop what it holds, so
/// tasks still queued when the last handle goes away are not dropped.
pub type SharedDeque<T> = std::sync::Arc<RwLock<Deque<T>, WellFormed>>;

/// A fresh, empty shared deque.
pub fn new_shared<T>() -> SharedDeque<T> {
    std::sync::Arc::new(RwLock::new(Deque::new(), Ghost(WellFormed)))
}

/// A block-chain queue shared by all threads, under the same discipline as `SharedDeque`.
pub type SharedBlocks<T> = std::sync::Arc<RwLock<BlockQueue<T>, WellFormed>>;

/// A fresh, empty shared block-chain queue.
pub fn new_shared_blocks<T>() -> SharedBlocks<T> {
    std::sync::Arc::new(RwLock::new(BlockQueue::new(), Ghost(WellFormed)))
}

} // verus!
