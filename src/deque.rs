use vstd::prelude::*;

use crate::steal::Steal;

verus! {

/// Capacity of a freshly created buffer; the buffer never shrinks below it.
pub const MIN_CAPACITY: usize = 64;

/// The most tasks that one batch steal moves.
pub const MAX_BATCH: usize = 32;

/// The most tasks a deque can hold, so that doubling its buffer always fits in a `usize`.
pub const MAX_TASKS: usize = usize::MAX / 4;

/// `n` is a power of two.
pub open spec fn is_power_of_two(n: nat) -> bool
    decreases n,
{
    if n <= 1 {
        n == 1
    } else {
        n % 2 == 0 && is_power_of_two(n / 2)
    }
}

/// How many tasks a batch steal takes from a queue holding `n` tasks: about half of them,
/// at least one, and at most `MAX_BATCH`.
pub open spec fn batch_size(n: nat) -> nat {
    let half = if n / 2 == 0 { 1 } else { n / 2 };
    if half < MAX_BATCH { half } else { MAX_BATCH as nat }
}

/// Which end the owner of a worker queue pops from.
#[derive(Debug, Clone, Copy, PartialEq, Eq, Structural)]
pub enum Flavor {
    /// The owner pops the oldest task.
    Fifo,
    /// The owner pops the newest task.
    Lifo,
}

/// The task an owner pop returns from tasks `q`, oldest first.
pub open spec fn popped<T>(q: Seq<T>, flavor: Flavor) -> Option<T> {
    if q.len() == 0 {
        None
    } else if flavor == Flavor::Fifo {
        Some(q[0])
    } else {
        Some(q.last())
    }
}

/// The tasks left after an owner pop on `q`.
pub open spec fn after_pop<T>(q: Seq<T>, flavor: Flavor) -> Seq<T> {
    if q.len() == 0 {
        q
    } else if flavor == Flavor::Fifo {
        q.drop_first()
    } else {
        q.drop_last()
    }
}

/// The tasks of `q` after `batch` is deposited in it: in order for a FIFO queue, reversed for a
/// LIFO one, so that the owner's next pop returns the oldest task of the batch either way.
pub open spec fn deposited<T>(q: Seq<T>, batch: Seq<T>, flavor: Flavor) -> Seq<T> {
    if flavor == Flavor::Fifo {
        q + batch
    } else {
        q + batch.reverse()
    }
}

/// The outcome of a single steal on `q`: its oldest task, or `Empty`.
pub open spec fn stolen<T>(q: Seq<T>) -> Steal<T> {
    if q.len() == 0 {
        Steal::Empty
    } else {
        Steal::Success(q[0])
    }
}

/// The tasks that a batch steal takes from `q`, oldest first.
pub open spec fn batch_of<T>(q: Seq<T>) -> Seq<T> {
    if q.len() == 0 {
        q
    } else {
        q.take(batch_size(q.len()) as int)
    }
}

/// The tasks that a batch steal leaves in `q`.
pub open spec fn after_batch<T>(q: Seq<T>) -> Seq<T> {
    if q.len() == 0 {
        q
    } else {
        q.skip(batch_size(q.len()) as int)
    }
}

/// A double-ended queue over a power-of-two circular buffer that grows when full and shrinks
/// when mostly empty. Tasks are pushed at the back; they are taken from the back (LIFO pop)
/// or from the front (FIFO pop and steals).
pub struct Deque<T> {
    slots: Vec<Option<T>>,
    head: usize,
    len: usize,
}

impl<T> View for Deque<T> {
    type V = Seq<T>;

    /// The tasks from the front (oldest) to the back (newest).
    closed spec fn view(&self) -> Seq<T> {
        Seq::new(self.len as nat, |i: int| self.slots@[self.slot(i)]->Some_0)
    }
}

impl<T> Deque<T> {
    /// Position in the buffer of the `i`-th task from the front.
    closed spec fn slot(&self, i: int) -> int {
        if self.head + i < self.slots@.len() {
            self.head + i
        } else {
            self.head + i - self.slots@.len()
        }
    }

    /// Number of slots in the current buffer.
    pub closed spec fn capacity(&self) -> nat {
        self.slots@.len()
    }

    /// The buffer is a power of two no smaller than `MIN_CAPACITY`, at most `MAX_TASKS` tasks
    /// are held, and every live slot holds a task.
    pub closed spec fn wf(&self) -> bool {
        &&& MIN_CAPACITY <= self.slots@.len() <= usize::MAX / 2
        &&& is_power_of_two(self.slots@.len() as nat)
        &&& self.head < self.slots@.len()
        &&& self.len <= self.slots@.len()
        &&& self.len <= MAX_TASKS
        &&& forall|i: int| 0 <= i < self.len ==> (#[trigger] self.slots@[self.slot(i)]) is Some
    }

    fn phys(&self, i: usize) -> (p: usize)
        requires
            self.head < self.slots@.len(),
            i < self.slots@.len(),
        ensures
            p == self.slot(i as int),
            p < self.slots@.len(),
    {
        let cap = self.slots.len();
        if i < cap - self.head {
            self.head + i
        } else {
            i - (cap - self.head)
        }
    }

    /// Creates an empty deque with a buffer of `MIN_CAPACITY` slots.
    pub fn new() -> (d: Self)
        ensures
            d.wf(),
            d@ == Seq::<T>::empty(),
            d.capacity() == MIN_CAPACITY,
    {
        let slots = empty_slots(MIN_CAPACITY);
        proof {
            reveal_with_fuel(is_power_of_two, 8);
        }
        Deque { slots, head: 0, len: 0 }
    }

    /// Number of tasks held.
    pub fn len(&self) -> (n: usize)
        ensures
            n == self@.len(),
    {
        self.len
    }

    /// Whether no task is held.
    pub fn is_empty(&self) -> (r: bool)
        ensures
            r == (self@.len() == 0),
    {
        self.len == 0
    }

    /// Moves the tasks into a fresh buffer of `new_cap` slots, oldest task first.
    fn resize(&mut self, new_cap: usize)
        requires
            old(self).wf(),
            old(self).len <= new_cap,
            MIN_CAPACITY <= new_cap <= usize::MAX / 2,
            is_power_of_two(new_cap as nat),
        ensures
            final(self).wf(),
            final(self)@ == old(self)@,
            final(self).capacity() == new_cap,
    {
        let ghost items = self@;
        let mut fresh: Vec<Option<T>> = Vec::with_capacity(new_cap);
        let mut i: usize = 0;
        while i < self.len
            invariant
                self.head == old(self).head,
                self.len == old(self).len,
                self.slots@.len() == old(self).slots@.len(),
                self.head < self.slots@.len(),
                self.len <= self.slots@.len(),
                items == old(self)@,
                items.len() == self.len,
                i <= self.len,
                fresh@.len() == i,
                forall|j: int| 0 <= j < i ==> #[trigger] fresh@[j] == Some(items[j]),
                forall|j: int|
                    i <= j < self.len ==> #[trigger] self.slots@[self.slot(j)] == old(
                        self,
                    ).slots@[old(self).slot(j)] && self.slots@[self.slot(j)] is Some,
            decreases self.len - i,
        {
            let p = self.phys(i);
            let ghost pre = *self;
            let x = self.slots[p].take();
            assert(x == Some(items[i as int]));
            assert forall|j: int| i < j < self.len implies #[trigger] self.slots@[self.slot(j)]
                == old(self).slots@[old(self).slot(j)] && self.slots@[self.slot(j)] is Some by {
                assert(self.slot(j) != p);
                assert(self.slot(j) == pre.slot(j));
                assert(pre.slots@[pre.slot(j)] == old(self).slots@[old(self).slot(j)]);
            }
            fresh.push(x);
            i = i + 1;
        }
        while i < new_cap
            invariant
                self.len <= i <= new_cap,
                items.len() == self.len,
                fresh@.len() == i,
                forall|j: int| 0 <= j < self.len ==> #[trigger] fresh@[j] == Some(items[j]),
            decreases new_cap - i,
        {
            fresh.push(None);
            i = i + 1;
        }
        self.slots = fresh;
        self.head = 0;
        assert(self@ =~= items);
    }

    /// Appends a task at the back, doubling the buffer first if it is full.
    pub fn push(&mut self, task: T)
        requires
            old(self).wf(),
            old(self)@.len() < MAX_TASKS,
        ensures
            final(self).wf(),
            final(self)@ == old(self)@.push(task),
    {
        if self.len == self.slots.len() {
            let cap = self.slots.len();
            proof {
                assert(is_power_of_two((2 * cap) as nat)) by {
                    assert((2 * cap) as nat / 2 == cap as nat);
                }
            }
            self.resize(2 * cap);
        }
        let ghost before = self@;
        let ghost pre = *self;
        let p = self.phys(self.len);
        self.slots.set(p, Some(task));
        self.len = self.len + 1;
        assert forall|i: int| 0 <= i < self.len implies (#[trigger] self.slots@[self.slot(i)]) is Some by {
            if i < self.len - 1 {
                assert(self.slot(i) != p);
                assert(self.slot(i) == pre.slot(i));
                assert(pre.slots@[pre.slot(i)] is Some);
            } else {
                assert(self.slot(i) == p);
            }
        }
        assert(self@ =~= before.push(task)) by {
            assert forall|i: int| 0 <= i < self.len - 1 implies self.slot(i) != p by {}
        }
    }

    /// Halves the buffer when at most a quarter of it is used, down to `MIN_CAPACITY`.
    fn shrink_if_sparse(&mut self)
        requires
            old(self).wf(),
        ensures
            final(self).wf(),
            final(self)@ == old(self)@,
    {
        let cap = self.slots.len();
        if self.len <= cap / 4 && cap >= 2 * MIN_CAPACITY {
            proof {
                assert(is_power_of_two((cap / 2) as nat));
            }
            self.resize(cap / 2);
        }
    }

    /// Removes and returns the newest task (the back), or `None` when empty.
    pub fn pop_back(&mut self) -> (r: Option<T>)
        requires
            old(self).wf(),
        ensures
            final(self).wf(),
            old(self)@.len() == 0 ==> r is None && final(self)@ == old(self)@,
            old(self)@.len() > 0 ==> r == Some(old(self)@.last()) && final(self)@ == old(
                self,
            )@.drop_last(),
    {
        if self.len == 0 {
            return None;
        }
        let ghost before = self@;
        let p = self.phys(self.len - 1);
        let x = self.slots[p].take();
        self.len = self.len - 1;
        assert forall|i: int| 0 <= i < self.len implies (#[trigger] self.slots@[self.slot(i)])
            == old(self).slots@[old(self).slot(i)] by {
            assert(self.slot(i) != p);
        }
        assert(self@ =~= before.drop_last());
        self.shrink_if_sparse();
        x
    }

    /// Removes and returns the oldest task (the front), or `None` when empty.
    pub fn pop_front(&mut self) -> (r: Option<T>)
        requires
            old(self).wf(),
        ensures
            final(self).wf(),
            old(self)@.len() == 0 ==> r is None && final(self)@ == old(self)@,
            old(self)@.len() > 0 ==> r == Some(old(self)@[0]) && final(self)@ == old(
                self,
            )@.drop_first(),
    {
        if self.len == 0 {
            return None;
        }
        let ghost before = self@;
        let p = self.head;
        let x = self.slots[p].take();
        self.head = if self.head + 1 == self.slots.len() {
            0
        } else {
            self.head + 1
        };
        self.len = self.len - 1;
        assert forall|i: int| 0 <= i < self.len implies (#[trigger] self.slots@[self.slot(i)])
            == old(self).slots@[old(self).slot(i + 1)] by {
            assert(self.slot(i) == old(self).slot(i + 1));
            assert(self.slot(i) != p);
        }
        assert(self@ =~= before.drop_first());
        self.shrink_if_sparse();
        x
    }

    /// Removes the `k` oldest tasks and returns them, oldest first.
    pub fn take_front(&mut self, k: usize) -> (r: Vec<T>)
        requires
            old(self).wf(),
            k <= old(self)@.len(),
        ensures
            final(self).wf(),
            r@ == old(self)@.take(k as int),
            final(self)@ == old(self)@.skip(k as int),
    {
        let mut out: Vec<T> = Vec::new();
        let mut i: usize = 0;
        while i < k
            invariant
                self.wf(),
                i <= k <= old(self)@.len(),
                out@ == old(self)@.take(i as int),
                self@ == old(self)@.skip(i as int),
            decreases k - i,
        {
            let t = self.pop_front().unwrap();
            out.push(t);
            i = i + 1;
            assert(out@ =~= old(self)@.take(i as int));
            assert(self@ =~= old(self)@.skip(i as int));
        }
        out
    }

    /// Pushes the tasks at the back, the last of `items` first, so that the first of `items`
    /// ends up newest.
    pub fn append_reversed(&mut self, items: Vec<T>)
        requires
            old(self).wf(),
            old(self)@.len() + items@.len() <= MAX_TASKS,
        ensures
            final(self).wf(),
            final(self)@ == old(self)@ + items@.reverse(),
    {
        let ghost orig = items@;
        let mut rest = items;
        while rest.len() > 0
            invariant
                self.wf(),
                rest@ == orig.take(rest@.len() as int),
                rest@.len() <= orig.len(),
                old(self)@.len() + orig.len() <= MAX_TASKS,
                self@ == old(self)@ + orig.skip(rest@.len() as int).reverse(),
            decreases rest.len(),
        {
            let x = rest.pop().unwrap();
            self.push(x);
            assert(rest@ =~= orig.take(rest@.len() as int));
            assert(self@ =~= old(self)@ + orig.skip(rest@.len() as int).reverse());
        }
        assert(orig.skip(0) =~= orig);
    }

    /// Pushes the tasks at the back in order, so that the last of `items` ends up newest.
    pub fn append(&mut self, items: Vec<T>)
        requires
            old(self).wf(),
            old(self)@.len() + items@.len() <= MAX_TASKS,
        ensures
            final(self).wf(),
            final(self)@ == old(self)@ + items@,
    {
        let ghost orig = items@;
        let rev = reverse_vec(items);
        self.append_reversed(rev);
        assert(orig.reverse().reverse() =~= orig);
    }

    /// The owner's pop: the oldest task for `Fifo`, the newest for `Lifo`.
    pub fn pop(&mut self, flavor: Flavor) -> (r: Option<T>)
        requires
            old(self).wf(),
        ensures
            final(self).wf(),
            r == popped(old(self)@, flavor),
            final(self)@ == after_pop(old(self)@, flavor),
    {
        match flavor {
            Flavor::Fifo => self.pop_front(),
            Flavor::Lifo => self.pop_back(),
        }
    }

    /// Takes the oldest task. The caller holds the deque exclusively, so no race is lost and
    /// the outcome is never `Retry`.
    pub fn steal(&mut self) -> (r: Steal<T>)
        requires
            old(self).wf(),
        ensures
            final(self).wf(),
            r == stolen(old(self)@),
            final(self)@ == after_pop(old(self)@, Flavor::Fifo),
    {
        match self.pop_front() {
            Some(t) => Steal::Success(t),
            None => Steal::Empty,
        }
    }

    /// Takes a batch of the oldest tasks: half of them, at least one, at most `MAX_BATCH`.
    pub fn steal_batch(&mut self) -> (r: Vec<T>)
        requires
            old(self).wf(),
        ensures
            final(self).wf(),
            r@ == batch_of(old(self)@),
            final(self)@ == after_batch(old(self)@),
    {
        let n = self.len;
        if n == 0 {
            return Vec::new();
        }
        let half = if n / 2 == 0 {
            1
        } else {
            n / 2
        };
        let k = if half < MAX_BATCH {
            half
        } else {
            MAX_BATCH
        };
        self.take_front(k)
    }

    /// Deposits a stolen batch, oldest task first, as the owner of a `flavor` queue would
    /// want it. A deque that cannot take the whole batch without exceeding `MAX_TASKS` is
    /// left unchanged and the batch is dropped; memory runs out long before that.
    pub fn deposit(&mut self, batch: Vec<T>, flavor: Flavor)
        requires
            old(self).wf(),
        ensures
            final(self).wf(),
            old(self)@.len() + batch@.len() <= MAX_TASKS ==> final(self)@ == deposited(
                old(self)@,
                batch@,
                flavor,
            ),
            old(self)@.len() + batch@.len() > MAX_TASKS ==> final(self)@ == old(self)@,
    {
        if batch.len() > MAX_TASKS - self.len {
            return;
        }
        match flavor {
            Flavor::Fifo => self.append(batch),
            Flavor::Lifo => self.append_reversed(batch),
        }
    }
}

/// The items in reverse order.
fn reverse_vec<T>(items: Vec<T>) -> (r: Vec<T>)
    ensures
        r@ == items@.reverse(),
{
    let ghost orig = items@;
    let mut rest = items;
    let mut out: Vec<T> = Vec::new();
    while rest.len() > 0
        invariant
            rest@ == orig.take(rest@.len() as int),
            rest@.len() <= orig.len(),
            out@ == orig.skip(rest@.len() as int).reverse(),
        decreases rest.len(),
    {
        let ghost n = rest@.len();
        let x = rest.pop().unwrap();
        out.push(x);
        assert(rest@ =~= orig.take(rest@.len() as int));
        assert(out@ =~= orig.skip(rest@.len() as int).reverse());
    }
    assert(orig.skip(0) =~= orig);
    out
}

fn empty_slots<T>(n: usize) -> (v: Vec<Option<T>>)
    ensures
        v@.len() == n,
        forall|i: int| 0 <= i < n ==> (#[trigger] v@[i]) is None,
{
    let mut v: Vec<Option<T>> = Vec::with_capacity(n);
    let mut i: usize = 0;
    while i < n
        invariant
            i <= n,
            v@.len() == i,
            forall|j: int| 0 <= j < i ==> (#[trigger] v@[j]) is None,
        decreases n - i,
    {
        v.push(None);
        i = i + 1;
    }
    v
}

} // verus!
