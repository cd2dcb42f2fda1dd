//! Lifecycle decisions: history records, retries and dead letters,
//! completion with requeue or a recurring next instance, parent resolution,
//! expiry, and cancellation of children.

use vstd::prelude::*;
use crate::clock::{representable, MAX_EPOCH_MS};
use crate::priority::Priority;
use crate::task::outcome::ParentResolution;
use crate::task::status::{HistoryStatus, TaskStatus, TtlFrom};
use crate::text::{decimal, format_with_i64};

verus! {

/// The retry count stored in history: one more for a failure or a dead
/// letter, unchanged otherwise.
pub fn history_retry_count(retry_count: i32, status: HistoryStatus) -> (r: i32)
    requires
        status.increments_retries_spec() ==> retry_count < i32::MAX,
    ensures
        r == if status.increments_retries_spec() {
            retry_count + 1
        } else {
            retry_count as int
        },
{
    if status.increments_retries() {
        retry_count + 1
    } else {
        retry_count
    }
}

/// Restart recovery: an interrupted running task goes back to pending;
/// every other state is kept (waiting parents resume through their children).
pub fn recovered_status(status: TaskStatus) -> (s: TaskStatus)
    ensures
        status == TaskStatus::Running ==> s == TaskStatus::Pending,
        status != TaskStatus::Running ==> s == status,
{
    match status {
        TaskStatus::Running => TaskStatus::Pending,
        _ => status,
    }
}

/// Milliseconds from `started_at_ms` to `now_ms`, when the task has started.
pub fn elapsed_ms(started_at_ms: Option<i64>, now_ms: i64) -> (r: Option<i64>)
    requires
        representable(now_ms as int),
        started_at_ms matches Some(s) ==> representable(s as int),
    ensures
        r == match started_at_ms {
            Some(s) => Some((now_ms - s) as i64),
            None => None,
        },
{
    match started_at_ms {
        Some(s) => Some(now_ms - s),
        None => None,
    }
}

/// What a failure does to a task.
#[derive(Debug, Clone, Copy, PartialEq, Eq, Structural)]
pub enum FailAction {
    /// Requeue as pending with one more retry; not eligible before
    /// `run_after_ms` when a delay applies.
    Retry { run_after_ms: Option<i64> },
    /// Move to history with this status.
    MoveToHistory(HistoryStatus),
}

/// The retry delay in nanoseconds: the executor's request (milliseconds)
/// wins over the backoff strategy's delay, which wins over no delay.
pub open spec fn retry_delay_nanos(executor_retry_after_ms: Option<u64>, strategy_delay_nanos: Option<u128>) -> int {
    match executor_retry_after_ms {
        Some(ms) => ms * 1000000,
        None => match strategy_delay_nanos {
            Some(n) => n as int,
            None => 0,
        },
    }
}

/// The failure rule: a retryable error under the retry limit requeues the
/// task (delayed by the retry delay, in whole milliseconds); otherwise a
/// retryable error dead-letters it and a permanent error fails it.
pub open spec fn fail_decision(
    retry_count: i32,
    retryable: bool,
    max_retries: i32,
    executor_retry_after_ms: Option<u64>,
    strategy_delay_nanos: Option<u128>,
    now_ms: i64,
) -> FailAction {
    if retryable && retry_count < max_retries {
        let d = retry_delay_nanos(executor_retry_after_ms, strategy_delay_nanos);
        if d == 0 {
            FailAction::Retry { run_after_ms: None }
        } else {
            FailAction::Retry { run_after_ms: Some((now_ms + d / 1000000) as i64) }
        }
    } else if retryable {
        FailAction::MoveToHistory(HistoryStatus::DeadLetter)
    } else {
        FailAction::MoveToHistory(HistoryStatus::Failed)
    }
}

/// Decide what a failure does. `strategy_delay_nanos` is the backoff
/// strategy's delay for this attempt, if the task type has one.
pub fn fail_action(
    retry_count: i32,
    retryable: bool,
    max_retries: i32,
    executor_retry_after_ms: Option<u64>,
    strategy_delay_nanos: Option<u128>,
    now_ms: i64,
) -> (a: FailAction)
    requires
        representable(now_ms as int),
        retryable && retry_count < max_retries ==> now_ms + retry_delay_nanos(
            executor_retry_after_ms,
            strategy_delay_nanos,
        ) / 1000000 <= MAX_EPOCH_MS,
    ensures
        a == fail_decision(retry_count, retryable, max_retries, executor_retry_after_ms, strategy_delay_nanos, now_ms),
{
    if retryable && retry_count < max_retries {
        let delay_nanos: u128 = match executor_retry_after_ms {
            Some(ms) => ms as u128 * 1000000,
            None => match strategy_delay_nanos {
                Some(n) => n,
                None => 0,
            },
        };
        if delay_nanos == 0 {
            FailAction::Retry { run_after_ms: None }
        } else {
            let delay_ms = delay_nanos / 1000000;
            FailAction::Retry { run_after_ms: Some(now_ms + delay_ms as i64) }
        }
    } else if retryable {
        FailAction::MoveToHistory(HistoryStatus::DeadLetter)
    } else {
        FailAction::MoveToHistory(HistoryStatus::Failed)
    }
}

/// Retries are bounded: a task is retried only while its count is below the
/// limit, and a retryable failure at the limit is dead-lettered rather than
/// failed; a permanent error is never retried.
pub proof fn lemma_retry_bound(
    retry_count: i32,
    retryable: bool,
    max_retries: i32,
    executor_retry_after_ms: Option<u64>,
    strategy_delay_nanos: Option<u128>,
    now_ms: i64,
)
    ensures
        ({
            let a = fail_decision(retry_count, retryable, max_retries, executor_retry_after_ms, strategy_delay_nanos, now_ms);
            &&& (a is Retry <==> retryable && retry_count < max_retries)
            &&& (a == FailAction::MoveToHistory(HistoryStatus::DeadLetter) <==> retryable && retry_count >= max_retries)
            &&& (a == FailAction::MoveToHistory(HistoryStatus::Failed) <==> !retryable)
        }),
{
}

/// The run-after instant of a retry requeued with a delay.
pub fn retry_run_after(now_ms: i64, delay_nanos: u128) -> (r: Option<i64>)
    requires
        representable(now_ms as int),
        now_ms + delay_nanos / 1000000 <= MAX_EPOCH_MS,
    ensures
        r == if delay_nanos == 0 {
            None::<i64>
        } else {
            Some((now_ms + delay_nanos / 1000000) as i64)
        },
{
    if delay_nanos == 0 {
        None
    } else {
        Some(now_ms + (delay_nanos / 1000000) as i64)
    }
}

/// The priority a requeued task resumes with after completing: the
/// requested requeue priority if any, else its own.
pub fn requeue_priority_after_completion(priority: Priority, requeue_priority: Option<Priority>) -> (p: Priority)
    ensures
        p == match requeue_priority {
            Some(rp) => rp,
            None => priority,
        },
{
    match requeue_priority {
        Some(rp) => rp,
        None => priority,
    }
}

/// The next instance of a recurring task.
#[derive(Debug, Clone, Copy, PartialEq, Eq, Structural)]
pub struct RecurringNext {
    /// When the next instance becomes eligible.
    pub run_after_ms: i64,
    /// Executions completed, including the one that just finished.
    pub execution_count: i64,
    /// Expiry of the next instance when its TTL counts from submission.
    pub expires_at_ms: Option<i64>,
}

/// A recurring schedule of a completed task that is allowed another run.
pub open spec fn recurs_again(
    interval_secs: Option<i64>,
    paused: bool,
    execution_count: i64,
    max_executions: Option<i64>,
    pending_instance_exists: bool,
) -> bool {
    &&& interval_secs is Some
    &&& !paused
    &&& match max_executions {
        Some(max) => execution_count + 1 < max,
        None => true,
    }
    &&& !pending_instance_exists
}

/// After a completed (and not requeued) recurring task is deleted, decide
/// whether to create its next instance: only when the schedule is not
/// paused, the execution limit is not reached, and no pending instance with
/// the same key exists. The next run is one interval from now.
pub fn recurring_next(
    interval_secs: Option<i64>,
    paused: bool,
    execution_count: i64,
    max_executions: Option<i64>,
    ttl_seconds: Option<i64>,
    ttl_from: TtlFrom,
    pending_instance_exists: bool,
    now_ms: i64,
) -> (r: Option<RecurringNext>)
    requires
        representable(now_ms as int),
        recurs_again(interval_secs, paused, execution_count, max_executions, pending_instance_exists) ==> {
            &&& execution_count < i64::MAX
            &&& 0 <= interval_secs->0 <= i64::MAX / 1000
            &&& now_ms + interval_secs->0 * 1000 <= MAX_EPOCH_MS
            &&& (ttl_from == TtlFrom::Submission && ttl_seconds is Some) ==> (0 <= ttl_seconds->0 <= i64::MAX
                / 1000 && now_ms + ttl_seconds->0 * 1000 <= MAX_EPOCH_MS)
        },
    ensures
        recurs_again(interval_secs, paused, execution_count, max_executions, pending_instance_exists) ==> r
            == Some(
            RecurringNext {
                run_after_ms: (now_ms + interval_secs->0 * 1000) as i64,
                execution_count: (execution_count + 1) as i64,
                expires_at_ms: if ttl_from == TtlFrom::Submission && ttl_seconds is Some {
                    Some((now_ms + ttl_seconds->0 * 1000) as i64)
                } else {
                    None
                },
            },
        ),
        !recurs_again(interval_secs, paused, execution_count, max_executions, pending_instance_exists) ==> r
            is None,
{
    let interval = match interval_secs {
        Some(i) => i,
        None => {
            return None;
        },
    };
    if paused || pending_instance_exists {
        return None;
    }
    if execution_count == i64::MAX {
        return None;
    }
    let count = execution_count + 1;
    match max_executions {
        Some(max) => {
            if count >= max {
                return None;
            }
        },
        None => {},
    }
    let expires_at_ms = match (ttl_seconds, ttl_from) {
        (Some(t), TtlFrom::Submission) => Some(now_ms + t * 1000),
        _ => None,
    };
    Some(RecurringNext { run_after_ms: now_ms + interval * 1000, execution_count: count, expires_at_ms })
}

/// A recurring schedule with an execution limit stops at the limit: the
/// next instance's count never reaches the maximum.
pub proof fn lemma_recurring_respects_limit(
    interval_secs: Option<i64>,
    paused: bool,
    execution_count: i64,
    max: i64,
    pending_instance_exists: bool,
)
    requires
        recurs_again(interval_secs, paused, execution_count, Some(max), pending_instance_exists),
    ensures
        execution_count + 1 < max,
{
}

/// The message for a parent whose children failed.
pub open spec fn children_failed_message(failed: i64) -> Seq<char> {
    decimal(failed as int) + " child task(s) failed"@
}

/// Resolve a parent after a child finishes: nothing unless the parent
/// exists and is waiting; still waiting while children are active; failed
/// when any child failed; otherwise ready to finalize.
pub fn resolve_parent(parent_status: Option<TaskStatus>, active_children: i64, failed_children: i64) -> (r:
    Option<ParentResolution>)
    ensures
        parent_status != Some(TaskStatus::Waiting) ==> r is None,
        parent_status == Some(TaskStatus::Waiting) && active_children > 0 ==> r == Some(
            ParentResolution::StillWaiting,
        ),
        parent_status == Some(TaskStatus::Waiting) && active_children <= 0 && failed_children > 0 ==> (r matches Some(
            ParentResolution::Failed(m),
        ) && m@ == children_failed_message(failed_children)),
        parent_status == Some(TaskStatus::Waiting) && active_children <= 0 && failed_children <= 0 ==> r
            == Some(ParentResolution::ReadyToFinalize),
{
    match parent_status {
        Some(TaskStatus::Waiting) => {
            if active_children > 0 {
                Some(ParentResolution::StillWaiting)
            } else if failed_children > 0 {
                let m = format_with_i64("", failed_children, " child task(s) failed");
                proof {
                    reveal_strlit("");
                    assert(""@ + decimal(failed_children as int) + " child task(s) failed"@
                        =~= children_failed_message(failed_children));
                }
                Some(ParentResolution::Failed(m))
            } else {
                Some(ParentResolution::ReadyToFinalize)
            }
        },
        _ => None,
    }
}

/// Expired by the periodic sweep: it has an expiry at or before now and is
/// pending, paused or blocked.
pub open spec fn sweep_expires(status: TaskStatus, expires_at_ms: Option<i64>, now_ms: i64) -> bool {
    &&& expires_at_ms matches Some(e) && e <= now_ms
    &&& (status == TaskStatus::Pending || status == TaskStatus::Paused || status == TaskStatus::Blocked)
}

pub fn expired_by_sweep(status: TaskStatus, expires_at_ms: Option<i64>, now_ms: i64) -> (b: bool)
    ensures
        b == sweep_expires(status, expires_at_ms, now_ms),
{
    let due = match expires_at_ms {
        Some(e) => e <= now_ms,
        None => false,
    };
    due && match status {
        TaskStatus::Pending | TaskStatus::Paused | TaskStatus::Blocked => true,
        _ => false,
    }
}

/// The sweep expires every pending, paused or blocked task whose expiry is
/// at or before now, and nothing else: not a task without expiry or with a
/// later one, and never a running or waiting task.
pub proof fn lemma_sweep_expiry(status: TaskStatus, expires_at_ms: Option<i64>, now_ms: i64)
    ensures
        expires_at_ms matches Some(e) && e <= now_ms && (status == TaskStatus::Pending || status
            == TaskStatus::Paused || status == TaskStatus::Blocked) ==> sweep_expires(status, expires_at_ms, now_ms),
        status == TaskStatus::Running || status == TaskStatus::Waiting ==> !sweep_expires(
            status,
            expires_at_ms,
            now_ms,
        ),
        expires_at_ms is None ==> !sweep_expires(status, expires_at_ms, now_ms),
        expires_at_ms matches Some(e) && e > now_ms ==> !sweep_expires(status, expires_at_ms, now_ms),
{
}

/// Expired individually: it has an expiry at or before now and is pending
/// or paused.
pub fn expired_single(status: TaskStatus, expires_at_ms: Option<i64>, now_ms: i64) -> (b: bool)
    ensures
        b == (expires_at_ms matches Some(e) && e <= now_ms && (status == TaskStatus::Pending || status
            == TaskStatus::Paused)),
{
    let due = match expires_at_ms {
        Some(e) => e <= now_ms,
        None => false,
    };
    due && match status {
        TaskStatus::Pending | TaskStatus::Paused => true,
        _ => false,
    }
}

/// A child expires with its parent when it has not started: pending or paused.
pub fn child_expires_with_parent(status: TaskStatus) -> (b: bool)
    ensures
        b == (status == TaskStatus::Pending || status == TaskStatus::Paused),
{
    match status {
        TaskStatus::Pending | TaskStatus::Paused => true,
        _ => false,
    }
}

/// A child the scheduler must signal (running or waiting), as opposed to
/// one that is cancelled directly (pending or paused).
pub open spec fn child_in_group(st: TaskStatus, signalled: bool) -> bool {
    if signalled {
        st == TaskStatus::Running || st == TaskStatus::Waiting
    } else {
        st == TaskStatus::Pending || st == TaskStatus::Paused
    }
}

/// The ids of the children in one group, in order.
pub open spec fn children_in_group(s: Seq<(i64, TaskStatus)>, signalled: bool) -> Seq<i64>
    decreases s.len(),
{
    if s.len() == 0 {
        Seq::empty()
    } else if child_in_group(s.last().1, signalled) {
        children_in_group(s.drop_last(), signalled).push(s.last().0)
    } else {
        children_in_group(s.drop_last(), signalled)
    }
}

/// Split a parent's children for cancellation: running and waiting children
/// must be signalled by the scheduler; pending and paused ones are moved to
/// history as cancelled. Order is kept.
pub fn partition_children(children: &Vec<(i64, TaskStatus)>) -> (r: (Vec<i64>, Vec<i64>))
    ensures
        r.0@ == children_in_group(children@, true),
        r.1@ == children_in_group(children@, false),
{
    let mut signal: Vec<i64> = Vec::new();
    let mut cancel: Vec<i64> = Vec::new();
    let mut i: usize = 0;
    while i < children.len()
        invariant
            i <= children@.len(),
            signal@ == children_in_group(children@.take(i as int), true),
            cancel@ == children_in_group(children@.take(i as int), false),
        decreases children@.len() - i,
    {
        let (id, st) = children[i];
        proof {
            assert(children@.take(i as int + 1).drop_last() =~= children@.take(i as int));
        }
        match st {
            TaskStatus::Running | TaskStatus::Waiting => {
                signal.push(id);
            },
            TaskStatus::Pending | TaskStatus::Paused => {
                cancel.push(id);
            },
            _ => {},
        }
        i = i + 1;
    }
    proof {
        assert(children@.take(children@.len() as int) =~= children@);
    }
    (signal, cancel)
}

} // verus!
