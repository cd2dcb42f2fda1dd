//! Submission rules: validation, the stored columns of a new task, what a
//! duplicate key does to the existing task, and last-wins dedup within a batch.

use vstd::prelude::*;
use crate::clock::{representable, MAX_EPOCH_MS};
use crate::priority::Priority;
use crate::store::error::{StoreError, MAX_PAYLOAD_BYTES};
use crate::task::outcome::SubmitOutcome;
use crate::task::pause::{PauseReasons, PAUSE_GROUP};
use crate::task::status::{DuplicateStrategy, TaskStatus, TtlFrom};
use crate::task::submission::{effective_key_text, TaskSubmission};
use crate::task::tags::{lemma_first_oversized_exists, tags_error, utf8_len, validate_tags, MAX_TAG_KEY_LEN, MAX_TAG_VALUE_LEN, MAX_TAGS_PER_TASK, TagMap};

verus! {

/// Maximum number of tasks per transaction chunk of a batch.
pub const BATCH_CHUNK_SIZE: usize = 10000;

/// Tags within all limits.
pub open spec fn tags_ok(tags: TagMap) -> bool {
    &&& tags@.len() <= MAX_TAGS_PER_TASK
    &&& forall|k: int|
        0 <= k < tags.entry_seq().len() ==> utf8_len(#[trigger] tags.entry_seq()[k].0) <= MAX_TAG_KEY_LEN
            && utf8_len(tags.entry_seq()[k].1) <= MAX_TAG_VALUE_LEN
}

fn check_tags(tags: &TagMap) -> (r: Result<(), StoreError>)
    ensures
        r is Ok <==> tags_ok(*tags),
        match tags_error(*tags) {
            Some(m) => r matches Err(StoreError::InvalidTag(x)) && x@ == m,
            None => r is Ok,
        },
{
    let r = validate_tags(tags);
    proof {
        if !tags_ok(*tags) && tags@.len() <= MAX_TAGS_PER_TASK {
            let s = tags.entry_seq();
            let bad = choose|k: int|
                0 <= k < s.len() && !(utf8_len(#[trigger] s[k].0) <= MAX_TAG_KEY_LEN && utf8_len(s[k].1)
                    <= MAX_TAG_VALUE_LEN);
            lemma_first_oversized_exists(s, bad);
        }
    }
    r
}

/// Validate a submission before it touches the database: a deferred payload
/// serialization error first, then the payload size, then the tags.
pub fn precheck_submission(sub: &TaskSubmission) -> (r: Result<(), StoreError>)
    ensures
        sub.payload_error matches Some(e) ==> (r matches Err(StoreError::Serialization(m)) && m@ == e@),
        sub.payload_error is None && (sub.payload matches Some(p) && p@.len() > MAX_PAYLOAD_BYTES) ==> (
        r matches Err(StoreError::PayloadTooLarge)),
        sub.payload_error is None && !(sub.payload matches Some(p) && p@.len() > MAX_PAYLOAD_BYTES) ==> (
        r is Ok <==> tags_ok(sub.tags)) && match tags_error(sub.tags) {
            Some(m) => r matches Err(StoreError::InvalidTag(x)) && x@ == m,
            None => r is Ok,
        },
{
    match &sub.payload_error {
        Some(e) => {
            return Err(StoreError::Serialization(e.clone()));
        },
        None => {},
    }
    match &sub.payload {
        Some(p) => {
            if p.len() > MAX_PAYLOAD_BYTES {
                return Err(StoreError::PayloadTooLarge);
            }
        },
        None => {},
    }
    check_tags(&sub.tags)
}

/// The checks made when a submission is written: a deferred serialization
/// error, the tags, then that a recurring task has no parent.
pub fn check_submission_row(sub: &TaskSubmission) -> (r: Result<(), StoreError>)
    ensures
        sub.payload_error matches Some(e) ==> (r matches Err(StoreError::Serialization(m)) && m@ == e@),
        sub.payload_error is None && !tags_ok(sub.tags) ==> (tags_error(sub.tags) matches Some(m) && r matches Err(
            StoreError::InvalidTag(x),
        ) && x@ == m),
        sub.payload_error is None && tags_ok(sub.tags) ==> (sub.parent_id is Some && sub.recurring is Some
            <==> (r matches Err(StoreError::Database(m)) && m@
            == "recurring tasks cannot be children (parent_id must be None)"@)) && (r is Ok <==> !(
        sub.parent_id is Some && sub.recurring is Some)),
{
    match &sub.payload_error {
        Some(e) => {
            return Err(StoreError::Serialization(e.clone()));
        },
        None => {},
    }
    check_tags(&sub.tags)?;
    if sub.parent_id.is_some() && sub.recurring.is_some() {
        return Err(
            StoreError::Database("recurring tasks cannot be children (parent_id must be None)".to_owned()),
        );
    }
    Ok(())
}

/// Scheduling and TTL columns stored for a new task.
#[derive(Debug, Clone, Copy, PartialEq, Eq, Structural)]
pub struct TaskColumns {
    /// Whole seconds of the TTL.
    pub ttl_seconds: Option<i64>,
    /// Expiry instant: set now for a TTL counted from submission.
    pub expires_at_ms: Option<i64>,
    pub run_after_ms: Option<i64>,
    /// Whole seconds of the recurring interval.
    pub recurring_interval_secs: Option<i64>,
    pub recurring_max_executions: Option<i64>,
}

/// Whether the TTL of a submission is counted from submission time.
pub open spec fn expires_now(sub: TaskSubmission) -> bool {
    sub.ttl_ms is Some && sub.ttl_from == TtlFrom::Submission
}

/// Compute the columns of a new task submitted at `now_ms`.
pub fn submission_columns(sub: &TaskSubmission, now_ms: i64) -> (c: TaskColumns)
    requires
        representable(now_ms as int),
        expires_now(*sub) ==> now_ms + sub.ttl_ms->0 <= MAX_EPOCH_MS,
    ensures
        c.ttl_seconds == match sub.ttl_ms {
            Some(t) => Some((t / 1000) as i64),
            None => None,
        },
        c.expires_at_ms == if expires_now(*sub) {
            Some((now_ms + sub.ttl_ms->0) as i64)
        } else {
            None
        },
        c.run_after_ms == sub.run_after_ms,
        c.recurring_interval_secs == match sub.recurring {
            Some(r) => Some((r.interval_ms / 1000) as i64),
            None => None,
        },
        c.recurring_max_executions == match sub.recurring {
            Some(r) => match r.max_executions {
                Some(n) => Some(n as i64),
                None => None,
            },
            None => None,
        },
{
    let ttl_seconds = match sub.ttl_ms {
        Some(t) => Some((t / 1000) as i64),
        None => None,
    };
    let expires_at_ms = match (sub.ttl_ms, sub.ttl_from) {
        (Some(t), TtlFrom::Submission) => Some(now_ms + t as i64),
        _ => None,
    };
    let recurring_interval_secs = match sub.recurring {
        Some(r) => Some((r.interval_ms / 1000) as i64),
        None => None,
    };
    let recurring_max_executions = match sub.recurring {
        Some(r) => match r.max_executions {
            Some(n) => Some(#[verifier::truncate] (n as i64)),
            None => None,
        },
        None => None,
    };
    TaskColumns {
        ttl_seconds,
        expires_at_ms,
        run_after_ms: sub.run_after_ms,
        recurring_interval_secs,
        recurring_max_executions,
    }
}

/// The active task currently holding a dedup key.
#[derive(Debug, Clone, Copy, PartialEq, Eq, Structural)]
pub struct ExistingTask {
    pub id: i64,
    pub status: TaskStatus,
    pub priority: Priority,
    pub requeue: bool,
    pub requeue_priority: Option<Priority>,
}

/// What a `Skip` duplicate does to the existing task.
#[derive(Debug, Clone, Copy, PartialEq, Eq, Structural)]
pub enum SkipAction {
    /// Raise the pending or paused task's priority.
    UpgradePriority { id: i64, priority: Priority },
    /// Mark the running or paused task to be requeued after it finishes.
    MarkRequeue { id: i64, priority: Priority },
    /// Leave it unchanged.
    NoChange,
}

/// A pending or paused task whose priority is less urgent than the new one.
pub open spec fn upgradable(e: ExistingTask, priority: Priority) -> bool {
    (e.status == TaskStatus::Pending || e.status == TaskStatus::Paused) && e.priority.0 > priority.0
}

/// A running or paused task not yet marked for requeue, or marked at a less
/// urgent priority than the new one.
pub open spec fn requeueable(e: ExistingTask, priority: Priority) -> bool {
    (e.status == TaskStatus::Running || e.status == TaskStatus::Paused) && (!e.requeue || (
    e.requeue_priority matches Some(rp) && rp.0 > priority.0))
}

/// The default duplicate handling's decision.
pub open spec fn skip_decision(existing: Option<ExistingTask>, priority: Priority, skip_requeue: bool) -> (
    SkipAction,
    SubmitOutcome,
) {
    match existing {
        None => (SkipAction::NoChange, SubmitOutcome::Duplicate),
        Some(e) => if upgradable(e, priority) {
            (SkipAction::UpgradePriority { id: e.id, priority }, SubmitOutcome::Upgraded(e.id))
        } else if !skip_requeue && requeueable(e, priority) {
            (SkipAction::MarkRequeue { id: e.id, priority }, SubmitOutcome::Requeued(e.id))
        } else {
            (SkipAction::NoChange, SubmitOutcome::Duplicate)
        },
    }
}

/// Default duplicate handling: upgrade the priority of a pending or paused
/// task; otherwise mark a running or paused task for requeue (unless no task
/// can be running, `skip_requeue`); otherwise do nothing.
pub fn skip_existing(existing: Option<ExistingTask>, priority: Priority, skip_requeue: bool) -> (r: (
    SkipAction,
    SubmitOutcome,
))
    ensures
        r == skip_decision(existing, priority, skip_requeue),
{
    match existing {
        None => (SkipAction::NoChange, SubmitOutcome::Duplicate),
        Some(e) => {
            let waiting = match e.status {
                TaskStatus::Pending | TaskStatus::Paused => true,
                _ => false,
            };
            if waiting && e.priority.0 > priority.0 {
                return (SkipAction::UpgradePriority { id: e.id, priority }, SubmitOutcome::Upgraded(e.id));
            }
            if !skip_requeue {
                let active = match e.status {
                    TaskStatus::Running | TaskStatus::Paused => true,
                    _ => false,
                };
                let better = match e.requeue_priority {
                    Some(rp) => rp.0 > priority.0,
                    None => false,
                };
                if active && (!e.requeue || better) {
                    return (SkipAction::MarkRequeue { id: e.id, priority }, SubmitOutcome::Requeued(e.id));
                }
            }
            (SkipAction::NoChange, SubmitOutcome::Duplicate)
        },
    }
}

/// A duplicate submission never makes the existing task less urgent: an
/// upgrade strictly lowers the priority value, a requeue mark replaces an
/// earlier mark only with a more urgent priority, and the outcome names
/// the existing task whenever it changed.
pub proof fn lemma_skip_never_downgrades(e: ExistingTask, priority: Priority, skip_requeue: bool)
    ensures
        ({
            let r = skip_decision(Some(e), priority, skip_requeue);
            &&& (r.0 matches SkipAction::UpgradePriority { priority: p, id } ==> p.0 < e.priority.0 && id
                == e.id && r.1 == SubmitOutcome::Upgraded(e.id))
            &&& (r.0 matches SkipAction::MarkRequeue { priority: p, id } ==> id == e.id && (e.requeue ==> (
            e.requeue_priority matches Some(rp) && p.0 < rp.0)))
            &&& (r.0 is NoChange ==> r.1 is Duplicate)
        }),
{
}

/// Default duplicate handling: a pending or paused task less urgent than
/// the new submission gets the new priority (reported as upgraded), whether
/// or not requeueing is possible; otherwise a running or paused task not yet
/// marked for requeue, or marked at a less urgent priority, is marked with
/// the new priority (reported as requeued) unless requeueing is off; waiting and blocked tasks are left
/// as they are; with no existing task, or nothing to do, the submission is a
/// duplicate. Only the existing task is ever touched.
pub proof fn lemma_skip_handling(e: ExistingTask, priority: Priority, skip_requeue: bool)
    ensures
        (e.status == TaskStatus::Pending || e.status == TaskStatus::Paused) && e.priority.0 > priority.0
            ==> skip_decision(Some(e), priority, skip_requeue) == (
        SkipAction::UpgradePriority { id: e.id, priority },
        SubmitOutcome::Upgraded(e.id),
    ),
        e.status == TaskStatus::Running && !e.requeue && !skip_requeue ==> skip_decision(
            Some(e),
            priority,
            skip_requeue,
        ) == (SkipAction::MarkRequeue { id: e.id, priority }, SubmitOutcome::Requeued(e.id)),
        e.status == TaskStatus::Paused && e.priority.0 <= priority.0 && !e.requeue && !skip_requeue
            ==> skip_decision(Some(e), priority, skip_requeue) == (
        SkipAction::MarkRequeue { id: e.id, priority },
        SubmitOutcome::Requeued(e.id),
    ),
        e.status == TaskStatus::Running && e.requeue && !skip_requeue && (e.requeue_priority matches Some(rp)
            && rp.0 > priority.0) ==> skip_decision(Some(e), priority, skip_requeue) == (
        SkipAction::MarkRequeue { id: e.id, priority },
        SubmitOutcome::Requeued(e.id),
    ),
        e.status == TaskStatus::Running && e.requeue && (e.requeue_priority is None
            || (e.requeue_priority matches Some(rp) && rp.0 <= priority.0)) ==> skip_decision(Some(e), priority, skip_requeue) == (
        SkipAction::NoChange,
        SubmitOutcome::Duplicate,
    ),
        e.status == TaskStatus::Running && skip_requeue ==> skip_decision(Some(e), priority, skip_requeue) == (
        SkipAction::NoChange,
        SubmitOutcome::Duplicate,
    ),
        e.status == TaskStatus::Waiting || e.status == TaskStatus::Blocked ==> skip_decision(
            Some(e),
            priority,
            skip_requeue,
        ) == (SkipAction::NoChange, SubmitOutcome::Duplicate),
        e.status == TaskStatus::Pending && e.priority.0 <= priority.0 ==> skip_decision(
            Some(e),
            priority,
            skip_requeue,
        ) == (SkipAction::NoChange, SubmitOutcome::Duplicate),
        skip_requeue ==> !(skip_decision(Some(e), priority, skip_requeue).0 is MarkRequeue),
        skip_decision(None, priority, skip_requeue) == (SkipAction::NoChange, SubmitOutcome::Duplicate),
        match skip_decision(Some(e), priority, skip_requeue).0 {
            SkipAction::UpgradePriority { id, priority: p } => id == e.id && p == priority,
            SkipAction::MarkRequeue { id, priority: p } => id == e.id && p == priority,
            SkipAction::NoChange => true,
        },
{
}

/// How a superseding submission replaces the existing task.
#[derive(Debug, Clone, Copy, PartialEq, Eq, Structural)]
pub enum SupersedeMode {
    /// Rewrite the waiting task in place, keeping its id and queue position.
    InPlace,
    /// Delete the running task and insert a new one.
    Replace,
}

/// Pending, paused and blocked tasks are rewritten in place; running and
/// waiting tasks are replaced by a new row.
pub fn supersede_mode(status: TaskStatus) -> (m: SupersedeMode)
    ensures
        m == if status == TaskStatus::Running || status == TaskStatus::Waiting {
            SupersedeMode::Replace
        } else {
            SupersedeMode::InPlace
        },
{
    match status {
        TaskStatus::Running | TaskStatus::Waiting => SupersedeMode::Replace,
        _ => SupersedeMode::InPlace,
    }
}

/// What a dedup hit leads to, by strategy: `Reject` refuses, `Supersede`
/// replaces the existing task, `Skip` applies the default handling.
#[derive(Debug, Clone, Copy, PartialEq, Eq, Structural)]
pub enum DuplicateHandling {
    Rejected,
    Supersede,
    Skip,
}

pub fn duplicate_handling(strategy: DuplicateStrategy) -> (h: DuplicateHandling)
    ensures
        strategy == DuplicateStrategy::Reject ==> h == DuplicateHandling::Rejected,
        strategy == DuplicateStrategy::Supersede ==> h == DuplicateHandling::Supersede,
        strategy == DuplicateStrategy::Skip ==> h == DuplicateHandling::Skip,
{
    match strategy {
        DuplicateStrategy::Reject => DuplicateHandling::Rejected,
        DuplicateStrategy::Supersede => DuplicateHandling::Supersede,
        DuplicateStrategy::Skip => DuplicateHandling::Skip,
    }
}

/// The status and pause reasons of a newly inserted task: blocked while it
/// has dependency edges; otherwise paused for its group when the group is
/// paused; otherwise pending.
pub fn initial_state(has_edges: bool, group_paused: bool) -> (r: (TaskStatus, PauseReasons))
    ensures
        has_edges ==> r == (TaskStatus::Blocked, PauseReasons(0)),
        !has_edges && group_paused ==> r == (TaskStatus::Paused, PauseReasons(PAUSE_GROUP)),
        !has_edges && !group_paused ==> r == (TaskStatus::Pending, PauseReasons(0)),
{
    if has_edges {
        (TaskStatus::Blocked, PauseReasons::none())
    } else if group_paused {
        (TaskStatus::Paused, PauseReasons::group())
    } else {
        (TaskStatus::Pending, PauseReasons::none())
    }
}

/// A batch member that fails the batch's up-front checks: its payload is
/// too large or its tags break a limit.
pub open spec fn batch_item_fails(sub: TaskSubmission) -> bool {
    (sub.payload matches Some(p) && p@.len() > MAX_PAYLOAD_BYTES) || !tags_ok(sub.tags)
}

/// Member `i` is the first of the batch to fail the up-front checks.
pub open spec fn first_failing(subs: Seq<TaskSubmission>, i: int) -> bool {
    &&& 0 <= i < subs.len()
    &&& batch_item_fails(subs[i])
    &&& forall|k: int| 0 <= k < i ==> !batch_item_fails(#[trigger] subs[k])
}

/// Check a whole batch before any of it is written: each member's payload
/// size, then its tags, in order. The first failure is reported.
pub fn precheck_batch(subs: &Vec<TaskSubmission>) -> (r: Result<(), StoreError>)
    ensures
        r is Ok <==> forall|i: int| 0 <= i < subs@.len() ==> !batch_item_fails(#[trigger] subs@[i]),
        forall|i: int|
            #[trigger] first_failing(subs@, i) ==> if subs@[i].payload matches Some(p) && p@.len()
                > MAX_PAYLOAD_BYTES {
                r matches Err(StoreError::PayloadTooLarge)
            } else {
                tags_error(subs@[i].tags) matches Some(m) && r matches Err(StoreError::InvalidTag(x)) && x@
                    == m
            },
{
    let mut i: usize = 0;
    while i < subs.len()
        invariant
            i <= subs@.len(),
            forall|k: int| 0 <= k < i ==> !batch_item_fails(#[trigger] subs@[k]),
        decreases subs@.len() - i,
    {
        let sub = &subs[i];
        let too_large = match &sub.payload {
            Some(p) => p.len() > MAX_PAYLOAD_BYTES,
            None => false,
        };
        if too_large {
            proof {
                assert(first_failing(subs@, i as int));
                assert forall|j: int| #[trigger] first_failing(subs@, j) implies j == i by {
                    if j < i {
                        assert(!batch_item_fails(subs@[j]));
                    } else if j > i {
                        assert(!batch_item_fails(subs@[i as int]));
                    }
                }
            }
            return Err(StoreError::PayloadTooLarge);
        }
        match check_tags(&sub.tags) {
            Ok(()) => {},
            Err(e) => {
                proof {
                    assert(first_failing(subs@, i as int));
                    assert forall|j: int| #[trigger] first_failing(subs@, j) implies j == i by {
                        if j < i {
                            assert(!batch_item_fails(subs@[j]));
                        } else if j > i {
                            assert(!batch_item_fails(subs@[i as int]));
                        }
                    }
                }
                return Err(e);
            },
        }
        i = i + 1;
    }
    Ok(())
}

/// The dedup keys of a batch, in order.
pub open spec fn batch_keys(subs: Seq<TaskSubmission>) -> Seq<Seq<char>> {
    subs.map_values(|s: TaskSubmission| effective_key_text(s))
}

/// Intra-batch dedup for a batch: which members are submitted (the last
/// with each dedup key); the others are reported as duplicates.
pub fn batch_dedup_mask(subs: &Vec<TaskSubmission>) -> (m: Vec<bool>)
    ensures
        m@.len() == subs@.len(),
        forall|i: int| 0 <= i < subs@.len() ==> #[trigger] m@[i] == is_last_occurrence(batch_keys(subs@), i),
{
    let mut keys: Vec<String> = Vec::new();
    let mut i: usize = 0;
    while i < subs.len()
        invariant
            i <= subs@.len(),
            keys@.len() == i,
            forall|k: int| 0 <= k < i ==> #[trigger] keys@[k]@ == effective_key_text(subs@[k]),
        decreases subs@.len() - i,
    {
        keys.push(subs[i].effective_key());
        i = i + 1;
    }
    proof {
        assert(keys@.map_values(|k: String| k@) =~= batch_keys(subs@));
    }
    last_occurrence_mask(&keys)
}

/// Submission `i` carries the last occurrence of its key in the batch.
pub open spec fn is_last_occurrence(keys: Seq<Seq<char>>, i: int) -> bool {
    forall|j: int| i < j < keys.len() ==> #[trigger] keys[j] != keys[i]
}

/// Intra-batch dedup, last wins: for each submission, whether it is the last
/// one in the batch with its dedup key (earlier ones become duplicates).
pub fn last_occurrence_mask(keys: &Vec<String>) -> (m: Vec<bool>)
    ensures
        m@.len() == keys@.len(),
        forall|i: int|
            0 <= i < keys@.len() ==> #[trigger] m@[i] == is_last_occurrence(
                keys@.map_values(|k: String| k@),
                i,
            ),
{
    let ghost kv = keys@.map_values(|k: String| k@);
    let mut m: Vec<bool> = Vec::new();
    let mut i: usize = 0;
    while i < keys.len()
        invariant
            kv == keys@.map_values(|k: String| k@),
            i <= keys@.len(),
            m@.len() == i,
            forall|a: int| 0 <= a < i ==> #[trigger] m@[a] == is_last_occurrence(kv, a),
        decreases keys@.len() - i,
    {
        let mut last = true;
        let mut j: usize = i + 1;
        while j < keys.len()
            invariant
                kv == keys@.map_values(|k: String| k@),
                i < keys@.len(),
                i + 1 <= j <= keys@.len(),
                last == (forall|b: int| i < b < j ==> #[trigger] kv[b] != kv[i as int]),
            decreases keys@.len() - j,
        {
            if keys[j] == keys[i] {
                last = false;
            }
            proof {
                assert(kv[j as int] == keys@[j as int]@);
            }
            j = j + 1;
        }
        m.push(last);
        i = i + 1;
    }
    m
}

/// Exactly one submission per distinct key survives the batch dedup: every
/// key that occurs has exactly one last occurrence.
pub proof fn lemma_one_survivor_per_key(keys: Seq<Seq<char>>, i: int)
    requires
        0 <= i < keys.len(),
    ensures
        exists|j: int| i <= j < keys.len() && keys[j] == keys[i] && is_last_occurrence(keys, j),
        forall|a: int, b: int|
            0 <= a < b < keys.len() && keys[a] == keys[b] ==> !is_last_occurrence(keys, a),
    decreases keys.len() - i,
{
    if is_last_occurrence(keys, i) {
        assert(keys[i] == keys[i]);
    } else {
        let j = choose|j: int| i < j < keys.len() && #[trigger] keys[j] == keys[i];
        lemma_one_survivor_per_key(keys, j);
        let k = choose|k: int| j <= k < keys.len() && keys[k] == keys[j] && is_last_occurrence(keys, k);
        assert(keys[k] == keys[i]);
    }
    assert forall|a: int, b: int| 0 <= a < b < keys.len() && keys[a] == keys[b] implies !is_last_occurrence(
        keys,
        a,
    ) by {
        assert(keys[b] == keys[a]);
    }
}

} // verus!
