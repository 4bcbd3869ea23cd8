use crossbeam_deque::blocks::{BlockQueue, BLOCK_CAP};
use crossbeam_deque::deque::{Deque, Flavor, MAX_BATCH, MIN_CAPACITY};
use crossbeam_deque::steal::collect_steals;
use crossbeam_deque::{Injector, Steal, Stealer, Worker};

fn pops<T>(w: &Worker<T>) -> Vec<T> {
    let mut out = Vec::new();
    while let Some(t) = w.pop() {
        out.push(t);
    }
    out
}

#[test]
fn fifo_owner_pops_in_push_order() {
    let w = Worker::new_fifo();
    w.push(1);
    w.push(2);
    w.push(3);
    assert_eq!(w.pop(), Some(1));
    assert_eq!(w.pop(), Some(2));
    assert_eq!(w.pop(), Some(3));
    assert_eq!(w.pop(), None);
}

#[test]
fn lifo_owner_pops_newest_first() {
    let w = Worker::new_lifo();
    w.push(1);
    w.push(2);
    w.push(3);
    assert_eq!(w.pop(), Some(3));
    assert_eq!(w.pop(), Some(2));
    assert_eq!(w.pop(), Some(1));
    assert_eq!(w.pop(), None);
}

#[test]
fn lifo_stealer_takes_oldest() {
    let w = Worker::new_lifo();
    w.push(1);
    w.push(2);
    w.push(3);
    let s = w.stealer();
    assert_eq!(s.steal(), Steal::Success(1));
    assert_eq!(w.pop(), Some(3));
    assert_eq!(w.pop(), Some(2));
    assert_eq!(w.pop(), None);
}

#[test]
fn fifo_stealer_then_owner() {
    let w = Worker::new_fifo();
    let s = w.stealer();
    w.push(1);
    w.push(2);
    w.push(3);
    assert_eq!(s.steal(), Steal::Success(1));
    assert_eq!(w.pop(), Some(2));
    assert_eq!(w.pop(), Some(3));
}

#[test]
fn stealer_steals_until_empty() {
    let w = Worker::new_lifo();
    w.push(1);
    w.push(2);
    let s = w.stealer();
    assert_eq!(s.steal(), Steal::Success(1));
    assert_eq!(s.steal(), Steal::Success(2));
    assert_eq!(s.steal(), Steal::Empty);
}

#[test]
fn stealer_steal_batch_into_fifo() {
    let w1 = Worker::new_fifo();
    for i in 1..=4 {
        w1.push(i);
    }
    let s1 = w1.stealer();
    let w2 = Worker::new_fifo();
    assert_eq!(s1.steal_batch(&w2), Steal::Success(()));
    assert_eq!(w2.pop(), Some(1));
    assert_eq!(w2.pop(), Some(2));
    assert_eq!(w2.pop(), None);
    assert_eq!(w1.pop(), Some(3));
}

#[test]
fn stealer_steal_batch_and_pop_into_fifo() {
    let w1 = Worker::new_fifo();
    for i in 1..=4 {
        w1.push(i);
    }
    let s1 = w1.stealer();
    let w2 = Worker::new_fifo();
    assert_eq!(s1.steal_batch_and_pop(&w2), Steal::Success(1));
    assert_eq!(w2.pop(), Some(2));
    assert_eq!(w2.pop(), None);
}

#[test]
fn steal_batch_into_lifo_keeps_oldest_on_top() {
    let w1 = Worker::new_fifo();
    for i in 1..=4 {
        w1.push(i);
    }
    let w2 = Worker::new_lifo();
    assert_eq!(w1.stealer().steal_batch(&w2), Steal::Success(()));
    assert_eq!(w2.pop(), Some(1));
    assert_eq!(w2.pop(), Some(2));
    assert_eq!(w2.pop(), None);
}

#[test]
fn steal_batch_is_capped() {
    let w1 = Worker::new_fifo();
    for i in 0..100 {
        w1.push(i);
    }
    let w2 = Worker::new_fifo();
    assert_eq!(w1.stealer().steal_batch(&w2), Steal::Success(()));
    let moved = pops(&w2);
    assert_eq!(moved, (0..MAX_BATCH as i32).collect::<Vec<_>>());
    assert_eq!(pops(&w1), (MAX_BATCH as i32..100).collect::<Vec<_>>());
}

#[test]
fn steal_batch_takes_the_single_task() {
    let w1 = Worker::new_lifo();
    w1.push(7);
    let w2 = Worker::new_fifo();
    assert_eq!(w1.stealer().steal_batch(&w2), Steal::Success(()));
    assert!(w1.is_empty());
    assert_eq!(w2.pop(), Some(7));
}

#[test]
fn steal_batch_from_empty() {
    let w1: Worker<i32> = Worker::new_fifo();
    let w2 = Worker::new_fifo();
    let s = w1.stealer();
    assert_eq!(s.steal_batch(&w2), Steal::Empty);
    assert_eq!(s.steal_batch_and_pop(&w2), Steal::Empty);
    assert!(w2.is_empty());
}

#[test]
fn injector_steals_in_push_order() {
    let q = Injector::new();
    q.push(1);
    q.push(2);
    assert_eq!(q.steal(), Steal::Success(1));
    assert_eq!(q.steal(), Steal::Success(2));
    assert_eq!(q.steal(), Steal::Empty);
}

#[test]
fn injector_steal_batch() {
    let q = Injector::new();
    for i in 1..=4 {
        q.push(i);
    }
    let w = Worker::new_fifo();
    assert_eq!(q.steal_batch(&w), Steal::Success(()));
    assert_eq!(w.pop(), Some(1));
    assert_eq!(w.pop(), Some(2));
}

#[test]
fn injector_steal_batch_and_pop() {
    let q = Injector::new();
    for i in 1..=4 {
        q.push(i);
    }
    let w = Worker::new_fifo();
    assert_eq!(q.steal_batch_and_pop(&w), Steal::Success(1));
    assert_eq!(w.pop(), Some(2));
    assert_eq!(q.steal(), Steal::Success(3));
}

#[test]
fn injector_batch_from_empty() {
    let q: Injector<i32> = Injector::new();
    let w = Worker::new_lifo();
    assert_eq!(q.steal_batch(&w), Steal::Empty);
    assert_eq!(q.steal_batch_and_pop(&w), Steal::Empty);
}

#[test]
fn is_empty_follows_contents() {
    let w = Worker::new_lifo();
    let s = w.stealer();
    assert!(w.is_empty());
    assert!(s.is_empty());
    w.push(1);
    assert!(!w.is_empty());
    assert!(!s.is_empty());
    let q = Injector::new();
    assert!(q.is_empty());
    q.push(1);
    assert!(!q.is_empty());
}

#[test]
fn cloned_stealer_shares_the_queue() {
    let w = Worker::new_fifo();
    let s1: Stealer<i32> = w.stealer();
    let s2 = s1.clone();
    w.push(1);
    w.push(2);
    assert_eq!(s2.steal(), Steal::Success(1));
    assert_eq!(s1.steal(), Steal::Success(2));
    assert_eq!(s2.steal(), Steal::Empty);
}

#[test]
fn growth_and_shrink_keep_order() {
    let n = 10 * MIN_CAPACITY as i32;
    let w = Worker::new_fifo();
    for i in 0..n {
        w.push(i);
    }
    assert_eq!(pops(&w), (0..n).collect::<Vec<_>>());
    let l = Worker::new_lifo();
    for i in 0..n {
        l.push(i);
    }
    assert_eq!(pops(&l), (0..n).rev().collect::<Vec<_>>());
}

#[test]
fn growth_with_wrapped_head() {
    let w = Worker::new_fifo();
    let s = w.stealer();
    for i in 0..50 {
        w.push(i);
    }
    for i in 0..40 {
        assert_eq!(s.steal(), Steal::Success(i));
    }
    for i in 50..200 {
        w.push(i);
    }
    assert_eq!(pops(&w), (40..200).collect::<Vec<_>>());
}

#[test]
fn mixed_operations_lose_and_duplicate_nothing() {
    let w = Worker::new_lifo();
    let s = w.stealer();
    let q = Injector::new();
    for i in 0..300 {
        q.push(i);
    }
    let mut seen = Vec::new();
    let mut rounds = 0;
    while !q.is_empty() || !w.is_empty() {
        rounds += 1;
        if let Steal::Success(t) = q.steal_batch_and_pop(&w) {
            seen.push(t);
        }
        if rounds % 3 == 0 {
            if let Steal::Success(t) = s.steal() {
                seen.push(t);
            }
        }
        if let Some(t) = w.pop() {
            seen.push(t);
        }
    }
    seen.sort();
    assert_eq!(seen, (0..300).collect::<Vec<_>>());
}

#[test]
fn steal_helpers() {
    let e: Steal<i32> = Steal::Empty;
    let r: Steal<i32> = Steal::Retry;
    let s = Steal::Success(5);
    assert!(e.is_empty() && !e.is_retry() && !e.is_success());
    assert!(r.is_retry() && !r.is_empty());
    assert!(s.is_success());
    assert_eq!(s.success(), Some(5));
    assert_eq!(r.success(), None);
    assert_eq!(e.combine(e), Steal::Empty);
    assert_eq!(e.combine(r), Steal::Retry);
    assert_eq!(r.combine(e), Steal::Retry);
    assert_eq!(r.combine(s), Steal::Success(5));
    assert_eq!(s.combine(Steal::Success(6)), Steal::Success(5));
    assert_eq!(e.combine(s), Steal::Success(5));
}

#[test]
fn collecting_steals() {
    assert_eq!(collect_steals::<i32>(vec![]), Steal::Empty);
    assert_eq!(collect_steals(vec![Steal::Empty, Steal::<i32>::Empty]), Steal::Empty);
    assert_eq!(collect_steals(vec![Steal::Empty, Steal::<i32>::Retry, Steal::Empty]), Steal::Retry);
    assert_eq!(
        collect_steals(vec![Steal::Retry, Steal::Success(3), Steal::Success(4)]),
        Steal::Success(3)
    );
}

#[test]
fn deque_engine_operations() {
    let mut d = Deque::new();
    assert!(d.is_empty());
    for i in 1..=6 {
        d.push(i);
    }
    assert_eq!(d.len(), 6);
    assert_eq!(d.pop(Flavor::Fifo), Some(1));
    assert_eq!(d.pop(Flavor::Lifo), Some(6));
    assert_eq!(d.steal(), Steal::Success(2));
    assert_eq!(d.take_front(2), vec![3, 4]);
    assert_eq!(d.steal_batch(), vec![5]);
    assert_eq!(d.steal(), Steal::Empty);
    assert_eq!(d.pop(Flavor::Lifo), None);
    d.deposit(vec![1, 2, 3], Flavor::Lifo);
    assert_eq!(d.pop_back(), Some(1));
    d.append(vec![8, 9]);
    assert_eq!(d.pop_front(), Some(3));
    assert_eq!(d.pop_front(), Some(2));
    d.append_reversed(vec![4, 5]);
    assert_eq!(d.take_front(4), vec![8, 9, 5, 4]);
}

#[test]
fn block_queue_across_blocks() {
    let mut q = BlockQueue::new();
    assert!(q.is_empty());
    for i in 0..(3 * BLOCK_CAP as i32 + 5) {
        q.push(i);
    }
    assert_eq!(q.len(), 3 * BLOCK_CAP + 5);
    for i in 0..(BLOCK_CAP as i32 + 2) {
        assert_eq!(q.steal(), Steal::Success(i));
    }
    assert_eq!(q.steal_batch(), (BLOCK_CAP as i32 + 2..BLOCK_CAP as i32 + 2 + MAX_BATCH as i32).collect::<Vec<_>>());
    let mut rest = Vec::new();
    while let Steal::Success(t) = q.steal() {
        rest.push(t);
    }
    assert_eq!(rest, (BLOCK_CAP as i32 + 2 + MAX_BATCH as i32..3 * BLOCK_CAP as i32 + 5).collect::<Vec<_>>());
    assert!(q.is_empty());
    assert_eq!(q.steal_batch(), Vec::<i32>::new());
}

#[test]
fn block_queue_refills_after_draining_a_full_block() {
    let mut q = BlockQueue::new();
    for i in 0..BLOCK_CAP as i32 {
        q.push(i);
    }
    for i in 0..BLOCK_CAP as i32 {
        assert_eq!(q.steal(), Steal::Success(i));
    }
    assert_eq!(q.steal(), Steal::Empty);
    q.push(100);
    q.push(101);
    assert_eq!(q.steal(), Steal::Success(100));
    assert_eq!(q.steal(), Steal::Success(101));
    assert_eq!(q.steal(), Steal::Empty);
}

#[test]
fn injector_keeps_order_across_blocks() {
    let q = Injector::new();
    for i in 0..200 {
        q.push(i);
    }
    let w = Worker::new_fifo();
    let mut got = Vec::new();
    loop {
        match q.steal_batch_and_pop(&w) {
            Steal::Success(t) => {
                got.push(t);
                got.extend(pops(&w));
            }
            _ => break,
        }
    }
    assert_eq!(got, (0..200).collect::<Vec<_>>());
}

fn shareable<Q: Send + Sync>(_: &Q) -> bool {
    true
}

#[test]
fn handles_can_cross_threads() {
    let w: Worker<i32> = Worker::new_fifo();
    let s = w.stealer();
    let q: Injector<i32> = Injector::new();
    assert!(shareable(&w));
    assert!(shareable(&s));
    assert!(shareable(&q));
}
