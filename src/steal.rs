use vstd::prelude::*;

verus! {

/// The outcome of a steal operation.
#[derive(Debug, PartialEq, Eq, Clone, Copy)]
pub enum Steal<T> {
    /// The queue was empty at the time of the observation.
    Empty,
    /// At least one task was taken from the queue.
    Success(T),
    /// The operation lost a race and should be retried.
    Retry,
}

impl<T> Steal<T> {
    /// Returns `true` if the queue was empty.
    pub fn is_empty(&self) -> (r: bool)
        ensures
            r == (*self is Empty),
    {
        match self {
            Steal::Empty => true,
            _ => false,
        }
    }

    /// Returns `true` if at least one task was stolen.
    pub fn is_success(&self) -> (r: bool)
        ensures
            r == (*self is Success),
    {
        match self {
            Steal::Success(_) => true,
            _ => false,
        }
    }

    /// Returns `true` if the steal operation needs to be retried.
    pub fn is_retry(&self) -> (r: bool)
        ensures
            r == (*self is Retry),
    {
        match self {
            Steal::Retry => true,
            _ => false,
        }
    }

    /// The stolen task, if there was one.
    pub open spec fn success_spec(self) -> Option<T> {
        match self {
            Steal::Success(t) => Some(t),
            _ => None,
        }
    }

    /// Returns the stolen task, if there was one.
    pub fn success(self) -> (r: Option<T>)
        ensures
            r == self.success_spec(),
    {
        match self {
            Steal::Success(t) => Some(t),
            _ => None,
        }
    }

    /// What `combine` yields: the first success, else `Retry` if either side asks for a retry,
    /// else `Empty`.
    pub open spec fn combined(self, other: Steal<T>) -> Steal<T> {
        match self {
            Steal::Success(_) => self,
            Steal::Empty => other,
            Steal::Retry => match other {
                Steal::Success(_) => other,
                _ => Steal::Retry,
            },
        }
    }

    /// Combines two outcomes: a success wins, and a retry outranks emptiness.
    pub fn combine(self, other: Steal<T>) -> (r: Steal<T>)
        ensures
            r == self.combined(other),
    {
        match self {
            Steal::Success(_) => self,
            Steal::Empty => other,
            Steal::Retry => match other {
                Steal::Success(_) => other,
                _ => Steal::Retry,
            },
        }
    }
}

/// The combination of a sequence of outcomes, folded from the left starting at `Empty`.
pub open spec fn combine_all<T>(s: Seq<Steal<T>>) -> Steal<T>
    decreases s.len(),
{
    if s.len() == 0 {
        Steal::Empty
    } else {
        combine_all(s.drop_last()).combined(s.last())
    }
}

/// Combines a list of outcomes, as when collecting steal attempts from several peers:
/// the first success wins; otherwise any retry makes the whole a retry; otherwise it is empty.
pub fn collect_steals<T>(outcomes: Vec<Steal<T>>) -> (r: Steal<T>)
    ensures
        r == combine_all(outcomes@),
{
    let ghost all = outcomes@;
    let mut rest = outcomes;
    let mut acc: Steal<T> = Steal::Empty;
    while rest.len() > 0
        invariant
            rest@.len() <= all.len(),
            rest@ == all.subrange(all.len() - rest@.len(), all.len() as int),
            acc == combine_all(all.subrange(0, all.len() - rest@.len())),
        decreases rest.len(),
    {
        let ghost done = all.len() - rest@.len();
        let x = rest.remove(0);
        proof {
            assert(all.subrange(0, done + 1).drop_last() =~= all.subrange(0, done));
            assert(rest@ =~= all.subrange(all.len() - rest@.len(), all.len() as int));
        }
        acc = acc.combine(x);
    }
    proof {
        assert(all.subrange(0, all.len() as int) =~= all);
    }
    acc
}

} // verus!
