//! Work-stealing queues: a single-owner worker deque (FIFO or LIFO), stealer handles onto it,
//! and a multi-producer, multi-consumer injector queue.

pub mod blocks;
pub mod deque;
pub mod injector;
pub mod laws;
pub mod shared;
pub mod steal;
pub mod worker;

pub use steal::Steal;
pub use blocks::BlockQueue;
pub use deque::{Deque, Flavor};
pub use injector::Injector;
pub use worker::{Stealer, Worker};
