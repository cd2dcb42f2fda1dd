//! Results of submissions and of parent resolution.

use vstd::prelude::*;

verus! {

/// Result of a task submission attempt.
#[derive(Debug, Clone, Copy, PartialEq, Eq, Structural)]
pub enum SubmitOutcome {
    /// Inserted as a new task.
    Inserted(i64),
    /// A duplicate existed and its priority was upgraded.
    Upgraded(i64),
    /// A duplicate was running or paused and is marked for re-queue.
    Requeued(i64),
    /// A duplicate existed; nothing changed.
    Duplicate,
    /// The existing task was replaced.
    Superseded { new_task_id: i64, replaced_task_id: i64 },
    /// Refused because a duplicate exists and the strategy is `Reject`.
    Rejected,
}

/// The task id an outcome refers to, if any.
pub open spec fn outcome_id(o: SubmitOutcome) -> Option<i64> {
    match o {
        SubmitOutcome::Inserted(id) => Some(id),
        SubmitOutcome::Upgraded(id) => Some(id),
        SubmitOutcome::Requeued(id) => Some(id),
        SubmitOutcome::Superseded { new_task_id, .. } => Some(new_task_id),
        SubmitOutcome::Duplicate => None,
        SubmitOutcome::Rejected => None,
    }
}

impl SubmitOutcome {
    /// The task id if the task was inserted, upgraded, requeued or superseded
    /// (for a supersede, the new task's id).
    pub fn id(&self) -> (r: Option<i64>)
        ensures
            r == outcome_id(*self),
    {
        match self {
            SubmitOutcome::Inserted(id) => Some(*id),
            SubmitOutcome::Upgraded(id) => Some(*id),
            SubmitOutcome::Requeued(id) => Some(*id),
            SubmitOutcome::Superseded { new_task_id, .. } => Some(*new_task_id),
            SubmitOutcome::Duplicate => None,
            SubmitOutcome::Rejected => None,
        }
    }

    /// Whether a new task was inserted (including by supersede).
    pub fn is_inserted(&self) -> (b: bool)
        ensures
            b == (*self is Inserted || *self is Superseded),
    {
        match self {
            SubmitOutcome::Inserted(_) | SubmitOutcome::Superseded { .. } => true,
            _ => false,
        }
    }
}

/// An inserted outcome always names the task it inserted.
pub proof fn lemma_inserted_has_id(o: SubmitOutcome)
    ensures
        (o is Inserted || o is Superseded) ==> outcome_id(o) is Some,
{
}

/// The categories a batch's outcomes fall into.
#[derive(Debug, Clone, Copy, PartialEq, Eq, Structural)]
pub enum OutcomeCategory {
    Inserted,
    Upgraded,
    Requeued,
    Superseded,
    Rejected,
    Duplicate,
}

/// The category of an outcome.
pub open spec fn category_of(o: SubmitOutcome) -> OutcomeCategory {
    match o {
        SubmitOutcome::Inserted(_) => OutcomeCategory::Inserted,
        SubmitOutcome::Upgraded(_) => OutcomeCategory::Upgraded,
        SubmitOutcome::Requeued(_) => OutcomeCategory::Requeued,
        SubmitOutcome::Superseded { .. } => OutcomeCategory::Superseded,
        SubmitOutcome::Rejected => OutcomeCategory::Rejected,
        SubmitOutcome::Duplicate => OutcomeCategory::Duplicate,
    }
}

/// The ids of the outcomes of one category, in order.
pub open spec fn ids_in(s: Seq<SubmitOutcome>, c: OutcomeCategory) -> Seq<i64>
    decreases s.len(),
{
    if s.len() == 0 {
        Seq::empty()
    } else {
        let rest = ids_in(s.drop_last(), c);
        if category_of(s.last()) == c {
            rest.push(outcome_id(s.last())->0)
        } else {
            rest
        }
    }
}

/// How many outcomes fall in one category.
pub open spec fn count_in(s: Seq<SubmitOutcome>, c: OutcomeCategory) -> nat
    decreases s.len(),
{
    if s.len() == 0 {
        0
    } else {
        count_in(s.drop_last(), c) + if category_of(s.last()) == c {
            1nat
        } else {
            0nat
        }
    }
}

/// Per-task results of a batch submission, in input order.
#[derive(Debug, Clone)]
pub struct BatchOutcome {
    pub outcomes: Vec<SubmitOutcome>,
}

impl BatchOutcome {
    /// The ids of one category of outcomes that carry an id.
    fn collect_ids(&self, c: OutcomeCategory) -> (r: Vec<i64>)
        requires
            c != OutcomeCategory::Rejected && c != OutcomeCategory::Duplicate,
        ensures
            r@ == ids_in(self.outcomes@, c),
    {
        let mut r: Vec<i64> = Vec::new();
        let mut i: usize = 0;
        while i < self.outcomes.len()
            invariant
                c != OutcomeCategory::Rejected && c != OutcomeCategory::Duplicate,
                i <= self.outcomes@.len(),
                r@ == ids_in(self.outcomes@.take(i as int), c),
            decreases self.outcomes@.len() - i,
        {
            let o = self.outcomes[i];
            let ghost pre = self.outcomes@.take(i as int + 1);
            assert(pre.drop_last() =~= self.outcomes@.take(i as int));
            match o {
                SubmitOutcome::Inserted(id) => {
                    if c == OutcomeCategory::Inserted {
                        r.push(id);
                    }
                },
                SubmitOutcome::Upgraded(id) => {
                    if c == OutcomeCategory::Upgraded {
                        r.push(id);
                    }
                },
                SubmitOutcome::Requeued(id) => {
                    if c == OutcomeCategory::Requeued {
                        r.push(id);
                    }
                },
                SubmitOutcome::Superseded { new_task_id, .. } => {
                    if c == OutcomeCategory::Superseded {
                        r.push(new_task_id);
                    }
                },
                _ => {},
            }
            i = i + 1;
        }
        proof {
            assert(self.outcomes@.take(self.outcomes@.len() as int) =~= self.outcomes@);
        }
        r
    }

    /// How many outcomes fall in one category.
    fn count_category(&self, c: OutcomeCategory) -> (n: usize)
        ensures
            n == count_in(self.outcomes@, c),
    {
        let mut n: usize = 0;
        let mut i: usize = 0;
        while i < self.outcomes.len()
            invariant
                i <= self.outcomes@.len(),
                n == count_in(self.outcomes@.take(i as int), c),
                n <= i,
            decreases self.outcomes@.len() - i,
        {
            let o = self.outcomes[i];
            let ghost pre = self.outcomes@.take(i as int + 1);
            assert(pre.drop_last() =~= self.outcomes@.take(i as int));
            let hit = match o {
                SubmitOutcome::Inserted(_) => c == OutcomeCategory::Inserted,
                SubmitOutcome::Upgraded(_) => c == OutcomeCategory::Upgraded,
                SubmitOutcome::Requeued(_) => c == OutcomeCategory::Requeued,
                SubmitOutcome::Superseded { .. } => c == OutcomeCategory::Superseded,
                SubmitOutcome::Rejected => c == OutcomeCategory::Rejected,
                SubmitOutcome::Duplicate => c == OutcomeCategory::Duplicate,
            };
            if hit {
                n = n + 1;
            }
            i = i + 1;
        }
        proof {
            assert(self.outcomes@.take(self.outcomes@.len() as int) =~= self.outcomes@);
        }
        n
    }

    /// Ids of the inserted tasks, in order.
    pub fn inserted(&self) -> (r: Vec<i64>)
        ensures
            r@ == ids_in(self.outcomes@, OutcomeCategory::Inserted),
    {
        self.collect_ids(OutcomeCategory::Inserted)
    }

    /// Ids of the tasks whose priority was upgraded, in order.
    pub fn upgraded(&self) -> (r: Vec<i64>)
        ensures
            r@ == ids_in(self.outcomes@, OutcomeCategory::Upgraded),
    {
        self.collect_ids(OutcomeCategory::Upgraded)
    }

    /// Ids of the tasks marked for re-queue, in order.
    pub fn requeued(&self) -> (r: Vec<i64>)
        ensures
            r@ == ids_in(self.outcomes@, OutcomeCategory::Requeued),
    {
        self.collect_ids(OutcomeCategory::Requeued)
    }

    /// New ids of the superseding tasks, in order.
    pub fn superseded(&self) -> (r: Vec<i64>)
        ensures
            r@ == ids_in(self.outcomes@, OutcomeCategory::Superseded),
    {
        self.collect_ids(OutcomeCategory::Superseded)
    }

    /// Number of rejected submissions.
    pub fn rejected_count(&self) -> (n: usize)
        ensures
            n == count_in(self.outcomes@, OutcomeCategory::Rejected),
    {
        self.count_category(OutcomeCategory::Rejected)
    }

    /// Number of duplicate submissions.
    pub fn duplicated_count(&self) -> (n: usize)
        ensures
            n == count_in(self.outcomes@, OutcomeCategory::Duplicate),
    {
        self.count_category(OutcomeCategory::Duplicate)
    }

    /// Number of outcomes.
    pub fn len(&self) -> (n: usize)
        ensures
            n == self.outcomes@.len(),
    {
        self.outcomes.len()
    }

    /// Whether there are no outcomes.
    pub fn is_empty(&self) -> (b: bool)
        ensures
            b == (self.outcomes@.len() == 0),
    {
        self.outcomes.len() == 0
    }

    /// Iterate over the outcomes in order: the iterator yields each outcome
    /// once, as many items as `len` counts.
    pub fn iter(&self) -> (it: std::slice::Iter<'_, SubmitOutcome>)
        ensures
            vstd::std_specs::iter::IteratorSpec::remaining(&it) == self.outcomes@.as_ref(),
            vstd::std_specs::iter::IteratorSpec::remaining(&it).len() == self.outcomes@.len(),
            forall|i: int|
                0 <= i < self.outcomes@.len() ==> *#[trigger] vstd::std_specs::iter::IteratorSpec::remaining(
                    &it,
                )[i] == self.outcomes@[i],
    {
        broadcast use vstd::std_specs::slice::axiom_spec_slice_iter;
        self.outcomes.as_slice().iter()
    }
}

/// Every outcome of a batch falls in exactly one category: the category
/// sizes add up to the number of outcomes.
pub proof fn lemma_batch_categories_partition(s: Seq<SubmitOutcome>)
    ensures
        ids_in(s, OutcomeCategory::Inserted).len() + ids_in(s, OutcomeCategory::Upgraded).len() + ids_in(
            s,
            OutcomeCategory::Requeued,
        ).len() + ids_in(s, OutcomeCategory::Superseded).len() + count_in(s, OutcomeCategory::Rejected)
            + count_in(s, OutcomeCategory::Duplicate) == s.len(),
    decreases s.len(),
{
    if s.len() > 0 {
        lemma_batch_categories_partition(s.drop_last());
    }
}

/// Resolution of a parent task after a child completes or fails.
#[derive(Debug, Clone, PartialEq, Eq)]
pub enum ParentResolution {
    /// All children are done and none failed.
    ReadyToFinalize,
    /// At least one child failed; the parent should fail with this message.
    Failed(String),
    /// Children are still active.
    StillWaiting,
}

} // verus!
