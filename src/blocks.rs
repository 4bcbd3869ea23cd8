use vstd::arithmetic::div_mod::{
    lemma_fundamental_div_mod, lemma_fundamental_div_mod_converse, lemma_mod_pos_bound,
};
use vstd::prelude::*;

use crate::deque::{after_batch, after_pop, batch_of, batch_size, stolen, MAX_BATCH, MAX_TASKS};
use crate::steal::Steal;

verus! {

/// Number of task slots in one block of a `BlockQueue`.
pub const BLOCK_CAP: usize = 31;

/// `g` lies in block `g / BLOCK_CAP`, at offset `g % BLOCK_CAP`.
proof fn lemma_locate(g: int)
    requires
        0 <= g,
    ensures
        g == BLOCK_CAP * (g / BLOCK_CAP as int) + g % (BLOCK_CAP as int),
        0 <= g % (BLOCK_CAP as int) < BLOCK_CAP,
        0 <= g / (BLOCK_CAP as int),
{
    lemma_fundamental_div_mod(g, BLOCK_CAP as int);
    lemma_mod_pos_bound(g, BLOCK_CAP as int);
}

/// Offset `t` of block `k` is position `k * BLOCK_CAP + t`.
proof fn lemma_position(k: int, t: int)
    requires
        0 <= t < BLOCK_CAP,
    ensures
        (k * BLOCK_CAP + t) / (BLOCK_CAP as int) == k,
        (k * BLOCK_CAP + t) % (BLOCK_CAP as int) == t,
{
    lemma_fundamental_div_mod_converse(k * BLOCK_CAP + t, BLOCK_CAP as int, k, t);
}

/// An unbounded FIFO queue kept as a chain of fixed-size blocks. Tasks are written at the
/// tail of the last block and read from the head of the first; a new block is linked when the
/// last one is full, and a block is unlinked and freed once all its tasks have been read.
pub struct BlockQueue<T> {
    blocks: Vec<Vec<Option<T>>>,
    head: usize,
    tail: usize,
}

impl<T> View for BlockQueue<T> {
    type V = Seq<T>;

    /// The tasks from the oldest to the newest.
    closed spec fn view(&self) -> Seq<T> {
        Seq::new((self.end() - self.head) as nat, |i: int| self.cell(self.head + i)->Some_0)
    }
}

impl<T> BlockQueue<T> {
    /// Position, counted over the whole chain, just past the newest task.
    closed spec fn end(&self) -> int {
        (self.blocks@.len() - 1) * BLOCK_CAP + self.tail
    }

    /// The slot at position `g` of the chain.
    closed spec fn cell(&self, g: int) -> Option<T> {
        self.blocks@[g / (BLOCK_CAP as int)]@[g % (BLOCK_CAP as int)]
    }

    /// Number of blocks in the chain.
    pub closed spec fn block_count(&self) -> nat {
        self.blocks@.len()
    }

    /// At least one block, all of `BLOCK_CAP` slots; the head lies at or before the tail; at
    /// most `MAX_TASKS` tasks; every slot between head and tail holds a task.
    pub closed spec fn wf(&self) -> bool {
        &&& self.blocks@.len() >= 1
        &&& forall|b: int| 0 <= b < self.blocks@.len() ==> (#[trigger] self.blocks@[b])@.len() == BLOCK_CAP
        &&& self.head <= BLOCK_CAP
        &&& self.tail <= BLOCK_CAP
        &&& self.head <= self.end() <= self.head + MAX_TASKS
        &&& forall|g: int| self.head <= g < self.end() ==> (#[trigger] self.cell(g)) is Some
    }

    /// Creates an empty queue of one block.
    pub fn new() -> (q: Self)
        ensures
            q.wf(),
            q@ == Seq::<T>::empty(),
            q.block_count() == 1,
    {
        let mut blocks: Vec<Vec<Option<T>>> = Vec::new();
        blocks.push(empty_block());
        BlockQueue { blocks, head: 0, tail: 0 }
    }

    /// Number of tasks held.
    pub fn len(&self) -> (n: usize)
        requires
            self.wf(),
        ensures
            n == self@.len(),
    {
        (self.blocks.len() - 1) * BLOCK_CAP + self.tail - self.head
    }

    /// Whether no task is held.
    pub fn is_empty(&self) -> (r: bool)
        requires
            self.wf(),
        ensures
            r == (self@.len() == 0),
    {
        self.len() == 0
    }

    /// Appends a task at the tail, linking a new block first if the last one is full.
    pub fn push(&mut self, task: T)
        requires
            old(self).wf(),
            old(self)@.len() < MAX_TASKS,
        ensures
            final(self).wf(),
            final(self)@ == old(self)@.push(task),
    {
        if self.tail == BLOCK_CAP {
            self.blocks.push(empty_block());
            self.tail = 0;
            assert forall|g: int| self.head <= g < self.end() implies #[trigger] self.cell(g)
                == old(self).cell(g) by {
                lemma_locate(g);
            }
        }
        let ghost mid = *self;
        let last = self.blocks.len() - 1;
        let t = self.tail;
        self.blocks[last].set(t, Some(task));
        self.tail = t + 1;
        proof {
            lemma_position(last as int, t as int);
            assert forall|g: int| self.head <= g < self.end() - 1 implies #[trigger] self.cell(g)
                == mid.cell(g) by {
                lemma_locate(g);
            }
            assert(self.cell(self.end() - 1) == Some(task));
            assert forall|b: int| 0 <= b < self.blocks@.len() implies (
            #[trigger] self.blocks@[b])@.len() == BLOCK_CAP by {
                if b != last {
                    assert(self.blocks@[b] == mid.blocks@[b]);
                }
            }
            assert forall|g: int| self.head <= g < self.end() implies (
            #[trigger] self.cell(g)) is Some by {
                if g < self.end() - 1 {
                    assert(self.cell(g) == mid.cell(g));
                }
            }
            assert(self@ =~= old(self)@.push(task));
        }
    }

    /// Unlinks the first block once all its tasks have been read.
    fn unlink_head(&mut self)
        requires
            old(self).wf(),
            old(self).head == BLOCK_CAP,
            old(self).blocks@.len() > 1,
        ensures
            final(self).wf(),
            final(self)@ == old(self)@,
            final(self).head == 0,
            final(self).blocks@.len() == old(self).blocks@.len() - 1,
    {
        let _consumed = self.blocks.remove(0);
        self.head = 0;
        proof {
            assert forall|g: int| 0 <= g < self.end() implies #[trigger] self.cell(g) == old(
                self,
            ).cell(g + BLOCK_CAP) by {
                lemma_locate(g);
                lemma_position(g / (BLOCK_CAP as int) + 1, g % (BLOCK_CAP as int));
                assert(g + BLOCK_CAP == (g / (BLOCK_CAP as int) + 1) * BLOCK_CAP + g % (
                BLOCK_CAP as int));
            }
            assert forall|g: int| self.head <= g < self.end() implies (
            #[trigger] self.cell(g)) is Some by {
                assert(old(self).cell(g + BLOCK_CAP) is Some);
            }
            assert(self@ =~= old(self)@);
        }
    }

    /// Takes the oldest task; a block whose last task this reads is unlinked.
    pub fn steal(&mut self) -> (r: Steal<T>)
        requires
            old(self).wf(),
        ensures
            final(self).wf(),
            r == stolen(old(self)@),
            final(self)@ == after_pop(old(self)@, crate::deque::Flavor::Fifo),
    {
        if self.is_empty() {
            return Steal::Empty;
        }
        if self.head == BLOCK_CAP {
            self.unlink_head();
        }
        let ghost mid = *self;
        let h = self.head;
        proof {
            lemma_position(0, h as int);
            assert(self.cell(h as int) is Some);
        }
        let x = self.blocks[0][h].take();
        self.head = h + 1;
        proof {
            assert forall|g: int| self.head <= g < self.end() implies #[trigger] self.cell(g)
                == mid.cell(g) by {
                lemma_locate(g);
                if g / (BLOCK_CAP as int) == 0 {
                    assert(g % (BLOCK_CAP as int) != h);
                }
            }
            assert forall|b: int| 0 <= b < self.blocks@.len() implies (
            #[trigger] self.blocks@[b])@.len() == BLOCK_CAP by {
                if b != 0 {
                    assert(self.blocks@[b] == mid.blocks@[b]);
                }
            }
            assert(self@ =~= mid@.drop_first());
        }
        if self.head == BLOCK_CAP && self.blocks.len() > 1 {
            self.unlink_head();
        }
        Steal::Success(x.unwrap())
    }

    /// Takes a batch of the oldest tasks: half of them, at least one, at most `MAX_BATCH`.
    pub fn steal_batch(&mut self) -> (r: Vec<T>)
        requires
            old(self).wf(),
        ensures
            final(self).wf(),
            r@ == batch_of(old(self)@),
            final(self)@ == after_batch(old(self)@),
    {
        let n = self.len();
        if n == 0 {
            return Vec::new();
        }
        let half = if n / 2 == 0 {
            1
        } else {
            n / 2
        };
        let k = if half < MAX_BATCH {
            half
        } else {
            MAX_BATCH
        };
        assert(k == batch_size(n as nat));
        let mut out: Vec<T> = Vec::new();
        let mut i: usize = 0;
        while i < k
            invariant
                self.wf(),
                i <= k <= old(self)@.len(),
                out@ == old(self)@.take(i as int),
                self@ == old(self)@.skip(i as int),
            decreases k - i,
        {
            match self.steal() {
                Steal::Success(t) => out.push(t),
                _ => {},
            }
            i = i + 1;
            assert(out@ =~= old(self)@.take(i as int));
            assert(self@ =~= old(self)@.skip(i as int));
        }
        out
    }
}

fn empty_block<T>() -> (v: Vec<Option<T>>)
    ensures
        v@.len() == BLOCK_CAP,
        forall|i: int| 0 <= i < BLOCK_CAP ==> (#[trigger] v@[i]) is None,
{
    let mut v: Vec<Option<T>> = Vec::with_capacity(BLOCK_CAP);
    let mut i: usize = 0;
    while i < BLOCK_CAP
        invariant
            i <= BLOCK_CAP,
            v@.len() == i,
            forall|j: int| 0 <= j < i ==> (#[trigger] v@[j]) is None,
        decreases BLOCK_CAP - i,
    {
        v.push(None);
        i = i + 1;
    }
    v
}

} // verus!
