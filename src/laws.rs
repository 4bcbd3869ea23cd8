use vstd::multiset::Multiset;
use vstd::prelude::*;
use vstd::seq_lib::{lemma_multiset_commutative, to_multiset_build};

use crate::deque::{after_batch, after_pop, batch_of, batch_size, deposited, popped, stolen, Flavor};
use crate::steal::Steal;

verus! {

broadcast use {vstd::seq_lib::group_to_multiset_ensures, vstd::multiset::group_multiset_axioms};

/// The tasks of `q` after pushing `xs` one by one, each with `Deque::push`.
pub open spec fn pushes<T>(q: Seq<T>, xs: Seq<T>) -> Seq<T>
    decreases xs.len(),
{
    if xs.len() == 0 {
        q
    } else {
        pushes(q, xs.drop_last()).push(xs.last())
    }
}

/// The tasks returned, in order, by owner pops on `q` until one returns `None`.
pub open spec fn drain<T>(q: Seq<T>, flavor: Flavor) -> Seq<T>
    decreases q.len(),
{
    if q.len() == 0 {
        Seq::empty()
    } else {
        seq![popped(q, flavor)->Some_0] + drain(after_pop(q, flavor), flavor)
    }
}

/// The tasks returned, in order, by steals on `q` until one returns `Empty`.
pub open spec fn steal_all<T>(q: Seq<T>) -> Seq<T>
    decreases q.len(),
{
    match stolen(q) {
        Steal::Success(t) => seq![t] + steal_all(after_pop(q, Flavor::Fifo)),
        _ => Seq::empty(),
    }
}

/// The tasks an optional outcome hands to the caller.
pub open spec fn handed_out<T>(r: Option<T>) -> Multiset<T> {
    match r {
        Some(t) => Multiset::singleton(t),
        None => Multiset::empty(),
    }
}

/// Pushing tasks `xs` one by one onto an empty queue leaves exactly `xs`, oldest first.
pub proof fn lemma_pushes_from_empty<T>(xs: Seq<T>)
    ensures
        pushes(Seq::<T>::empty(), xs) == xs,
    decreases xs.len(),
{
    if xs.len() > 0 {
        lemma_pushes_from_empty(xs.drop_last());
        assert(xs.drop_last().push(xs.last()) =~= xs);
    }
}

/// Owner order of a FIFO worker: after pushes `xs` onto an empty queue, the owner's pops
/// return `xs` in push order, and then `None`.
pub proof fn law_fifo_owner_order<T>(xs: Seq<T>)
    ensures
        drain(pushes(Seq::<T>::empty(), xs), Flavor::Fifo) == xs,
        popped(Seq::<T>::empty(), Flavor::Fifo) is None,
{
    lemma_pushes_from_empty(xs);
    lemma_drain_fifo(xs);
}

proof fn lemma_drain_fifo<T>(q: Seq<T>)
    ensures
        drain(q, Flavor::Fifo) == q,
    decreases q.len(),
{
    if q.len() > 0 {
        lemma_drain_fifo(q.drop_first());
        assert(seq![q[0]] + q.drop_first() =~= q);
    }
}

/// Owner order of a LIFO worker: after pushes `xs` onto an empty queue, the owner's pops
/// return `xs` newest first, and then `None`.
pub proof fn law_lifo_owner_order<T>(xs: Seq<T>)
    ensures
        drain(pushes(Seq::<T>::empty(), xs), Flavor::Lifo) == xs.reverse(),
        popped(Seq::<T>::empty(), Flavor::Lifo) is None,
{
    lemma_pushes_from_empty(xs);
    lemma_drain_lifo(xs);
}

proof fn lemma_drain_lifo<T>(q: Seq<T>)
    ensures
        drain(q, Flavor::Lifo) == q.reverse(),
    decreases q.len(),
{
    if q.len() > 0 {
        lemma_drain_lifo(q.drop_last());
        assert(seq![q.last()] + q.drop_last().reverse() =~= q.reverse());
    }
}

/// Steal order: with no pops in between, steals from a queue holding `xs` (as left by pushes
/// onto an empty queue) return `xs` in push order, and then `Empty`. This holds of worker and
/// injector queues alike: `Deque::steal` and `BlockQueue::steal` both take effect as `stolen`
/// and `after_pop` say.
pub proof fn law_steal_order<T>(xs: Seq<T>)
    ensures
        steal_all(pushes(Seq::<T>::empty(), xs)) == xs,
        stolen(Seq::<T>::empty()) is Empty,
{
    lemma_pushes_from_empty(xs);
    lemma_steal_all(xs);
}

proof fn lemma_steal_all<T>(q: Seq<T>)
    ensures
        steal_all(q) == q,
    decreases q.len(),
{
    if q.len() > 0 {
        lemma_steal_all(q.drop_first());
        assert(seq![q[0]] + q.drop_first() =~= q);
    }
}

/// No loss on push: the pushed task joins the tasks held.
pub proof fn law_push_keeps<T>(q: Seq<T>, task: T)
    ensures
        q.push(task).to_multiset() == q.to_multiset().insert(task),
{
    to_multiset_build(q, task);
}

/// No loss and no duplication on an owner pop: the tasks held before are exactly the tasks
/// held after plus the task returned.
pub proof fn law_pop_conserves<T>(q: Seq<T>, flavor: Flavor)
    ensures
        q.to_multiset() == after_pop(q, flavor).to_multiset().add(handed_out(popped(q, flavor))),
{
    if q.len() == 0 {
        assert(after_pop(q, flavor).to_multiset().add(Multiset::empty()) =~= q.to_multiset());
    } else if flavor == Flavor::Fifo {
        assert(q =~= seq![q[0]] + q.drop_first());
        lemma_multiset_commutative(seq![q[0]], q.drop_first());
        assert(seq![q[0]].to_multiset() =~= Multiset::singleton(q[0])) by {
            to_multiset_build(Seq::<T>::empty(), q[0]);
            assert(Seq::<T>::empty().push(q[0]) =~= seq![q[0]]);
        }
        assert(q.drop_first().to_multiset().add(Multiset::singleton(q[0])) =~= Multiset::singleton(
            q[0],
        ).add(q.drop_first().to_multiset()));
    } else {
        assert(q =~= q.drop_last().push(q.last()));
        to_multiset_build(q.drop_last(), q.last());
        assert(q.drop_last().to_multiset().insert(q.last()) =~= q.drop_last().to_multiset().add(
            Multiset::singleton(q.last()),
        ));
    }
}

/// No loss and no duplication on a steal: the tasks held before are exactly the tasks held
/// after plus the task stolen.
pub proof fn law_steal_conserves<T>(q: Seq<T>)
    ensures
        q.to_multiset() == after_pop(q, Flavor::Fifo).to_multiset().add(
            handed_out(stolen(q).success_spec()),
        ),
{
    law_pop_conserves(q, Flavor::Fifo);
}

/// No loss and no duplication on a batch steal from a worker or an injector: the tasks of the
/// source and the destination together are the same before and after.
pub proof fn law_batch_conserves<T>(src: Seq<T>, dest: Seq<T>, flavor: Flavor)
    ensures
        src.to_multiset().add(dest.to_multiset()) == after_batch(src).to_multiset().add(
            deposited(dest, batch_of(src), flavor).to_multiset(),
        ),
{
    let b = batch_of(src);
    let rest = after_batch(src);
    assert(src =~= b + rest);
    lemma_multiset_commutative(b, rest);
    lemma_multiset_commutative(dest, b);
    lemma_multiset_commutative(dest, b.reverse());
    b.lemma_reverse_to_multiset();
    assert(src.to_multiset().add(dest.to_multiset()) =~= rest.to_multiset().add(
        deposited(dest, b, flavor).to_multiset(),
    ));
}

/// No loss and no duplication on a batch steal that also pops: the source and destination
/// tasks before are those after plus the task returned, which is the oldest of the batch.
pub proof fn law_batch_and_pop_conserves<T>(src: Seq<T>, dest: Seq<T>, flavor: Flavor)
    requires
        src.len() > 0,
    ensures
        batch_of(src).len() > 0,
        batch_of(src)[0] == src[0],
        src.to_multiset().add(dest.to_multiset()) == after_batch(src).to_multiset().add(
            deposited(dest, batch_of(src).drop_first(), flavor).to_multiset(),
        ).insert(src[0]),
{
    let b = batch_of(src);
    assert(batch_size(src.len()) >= 1);
    let tail = b.drop_first();
    law_batch_conserves(src, dest, flavor);
    assert(b =~= seq![b[0]] + tail);
    lemma_multiset_commutative(seq![b[0]], tail);
    to_multiset_build(Seq::<T>::empty(), b[0]);
    assert(Seq::<T>::empty().push(b[0]) =~= seq![b[0]]);
    lemma_multiset_commutative(dest, b);
    lemma_multiset_commutative(dest, tail);
    lemma_multiset_commutative(dest, b.reverse());
    lemma_multiset_commutative(dest, tail.reverse());
    b.lemma_reverse_to_multiset();
    tail.lemma_reverse_to_multiset();
    assert(deposited(dest, b, flavor).to_multiset() =~= deposited(
        dest,
        tail,
        flavor,
    ).to_multiset().insert(src[0]));
    assert(after_batch(src).to_multiset().add(deposited(dest, b, flavor).to_multiset())
        =~= after_batch(src).to_multiset().add(deposited(dest, tail, flavor).to_multiset()).insert(
        src[0],
    ));
}

} // verus!
