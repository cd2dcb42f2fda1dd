//! Records of active and finished tasks. Instants are milliseconds since
//! the Unix epoch.

use vstd::prelude::*;
use vstd::string::*;
use crate::priority::Priority;
use crate::task::io::IoBudget;
use crate::task::pause::PauseReasons;
use crate::task::status::{DependencyFailurePolicy, HistoryStatus, TaskStatus, TtlFrom};
use crate::task::tags::TagMap;

verus! {

/// A task in the active queue.
#[derive(Debug)]
pub struct TaskRecord {
    pub id: i64,
    pub task_type: String,
    /// The SHA-256 dedup key.
    pub key: String,
    /// Human-readable label.
    pub label: String,
    pub priority: Priority,
    pub status: TaskStatus,
    pub payload: Option<Vec<u8>>,
    pub expected_io: IoBudget,
    pub retry_count: i32,
    pub last_error: Option<String>,
    pub created_at_ms: i64,
    pub started_at_ms: Option<i64>,
    pub requeue: bool,
    pub requeue_priority: Option<Priority>,
    pub parent_id: Option<i64>,
    pub fail_fast: bool,
    pub group_key: Option<String>,
    /// The TTL in seconds, as submitted.
    pub ttl_seconds: Option<i64>,
    pub ttl_from: TtlFrom,
    pub expires_at_ms: Option<i64>,
    pub run_after_ms: Option<i64>,
    pub recurring_interval_secs: Option<i64>,
    pub recurring_max_executions: Option<i64>,
    pub recurring_execution_count: i64,
    pub recurring_paused: bool,
    pub dependencies: Vec<i64>,
    pub on_dependency_failure: DependencyFailurePolicy,
    pub tags: TagMap,
    pub max_retries: Option<i32>,
    pub memo: Option<Vec<u8>>,
    pub pause_reasons: PauseReasons,
    /// Accumulated milliseconds spent paused.
    pub pause_duration_ms: i64,
    /// When the task was last paused.
    pub paused_at_ms: Option<i64>,
}

/// A task that finished: completed, failed, cancelled, superseded, expired,
/// failed through a dependency, or dead-lettered.
#[derive(Debug)]
pub struct TaskHistoryRecord {
    pub id: i64,
    pub task_type: String,
    pub key: String,
    pub label: String,
    pub priority: Priority,
    pub status: HistoryStatus,
    pub payload: Option<Vec<u8>>,
    pub expected_io: IoBudget,
    pub actual_io: Option<IoBudget>,
    pub retry_count: i32,
    pub last_error: Option<String>,
    pub created_at_ms: i64,
    pub started_at_ms: Option<i64>,
    pub completed_at_ms: i64,
    pub duration_ms: Option<i64>,
    pub parent_id: Option<i64>,
    pub fail_fast: bool,
    pub group_key: Option<String>,
    pub ttl_seconds: Option<i64>,
    pub ttl_from: TtlFrom,
    pub expires_at_ms: Option<i64>,
    pub run_after_ms: Option<i64>,
    pub tags: TagMap,
    pub max_retries: Option<i32>,
    pub memo: Option<Vec<u8>>,
}

/// The position of the first `::` in a text, if any.
pub open spec fn first_separator(t: Seq<char>, i: int) -> bool {
    &&& 0 <= i && i + 1 < t.len()
    &&& t[i] == ':' && t[i + 1] == ':'
    &&& forall|k: int| 0 <= k < i ==> !(#[trigger] t[k] == ':' && t[k + 1] == ':')
}

/// The module name: the text before the first `::`, if there is one.
pub open spec fn module_prefix(t: Seq<char>) -> Option<Seq<char>> {
    if exists|i: int| first_separator(t, i) {
        Some(t.take(choose|i: int| first_separator(t, i)))
    } else {
        None
    }
}

/// Milliseconds of TTL left at `now_ms`: `None` without a TTL, before the TTL
/// clock started (first attempt not made), or once it ran out.
pub open spec fn ttl_left(
    ttl_seconds: Option<i64>,
    ttl_from: TtlFrom,
    created_at_ms: i64,
    started_at_ms: Option<i64>,
    now_ms: i64,
) -> Option<int> {
    match ttl_seconds {
        None => None,
        Some(t) => {
            let start = match ttl_from {
                TtlFrom::Submission => Some(created_at_ms),
                TtlFrom::FirstAttempt => started_at_ms,
            };
            match start {
                None => None,
                Some(s) => {
                    let ttl_ms = (t as u64) * 1000;
                    let elapsed = if now_ms - s > 0 {
                        now_ms - s
                    } else {
                        0
                    };
                    if ttl_ms > elapsed {
                        Some(ttl_ms - elapsed)
                    } else {
                        None
                    }
                },
            }
        },
    }
}

impl TaskRecord {
    /// The module name prefix of the task type (`"media"` of `"media::thumb"`).
    pub fn module_name(&self) -> (m: Option<&str>)
        ensures
            match m {
                Some(s) => module_prefix(self.task_type@) == Some(s@),
                None => module_prefix(self.task_type@) is None,
            },
    {
        let t = self.task_type.as_str();
        let n = t.unicode_len();
        let mut i: usize = 0;
        while i < n && i + 1 < n
            invariant
                n == t@.len(),
                i <= n,
                t@ == self.task_type@,
                forall|k: int| 0 <= k < i && k + 1 < n ==> !(#[trigger] t@[k] == ':' && t@[k + 1] == ':'),
            decreases n - i,
        {
            if t.get_char(i) == ':' && t.get_char(i + 1) == ':' {
                proof {
                    assert(first_separator(t@, i as int));
                    assert forall|j: int| first_separator(t@, j) implies j == i by {
                        if j < i {
                            assert(!(t@[j] == ':' && t@[j + 1] == ':'));
                        } else if j > i {
                            assert(!(t@[i as int] == ':' && t@[i + 1] == ':'));
                        }
                    }
                }
                return Some(t.substring_char(0, i));
            }
            i = i + 1;
        }
        proof {
            assert forall|j: int| !first_separator(t@, j) by {
                if first_separator(t@, j) {
                    assert(j < i);
                }
            }
        }
        None
    }

    /// The TTL left at the instant `now_ms`, in milliseconds (used when
    /// spawning children that inherit the parent's remaining TTL).
    pub fn remaining_ttl(&self, now_ms: i64) -> (r: Option<u128>)
        ensures
            match ttl_left(self.ttl_seconds, self.ttl_from, self.created_at_ms, self.started_at_ms, now_ms) {
                Some(v) => r == Some(v as u128),
                None => r is None,
            },
    {
        let t = match self.ttl_seconds {
            Some(t) => t,
            None => {
                return None;
            },
        };
        let start = match self.ttl_from {
            TtlFrom::Submission => self.created_at_ms,
            TtlFrom::FirstAttempt => match self.started_at_ms {
                Some(s) => s,
                None => {
                    return None;
                },
            },
        };
        let ttl_ms: u128 = (t as u64) as u128 * 1000;
        let diff: i128 = now_ms as i128 - start as i128;
        let elapsed: u128 = if diff > 0 {
            diff as u128
        } else {
            0
        };
        if ttl_ms > elapsed {
            Some(ttl_ms - elapsed)
        } else {
            None
        }
    }
}

/// Where a dedup key was found: in the active queue, in history (its most
/// recent entry), or nowhere.
#[derive(Debug)]
pub enum TaskLookup {
    Active(TaskRecord),
    History(TaskHistoryRecord),
    NotFound,
}

/// The lookup result for a key: the active task if there is one, else the
/// most recent history entry, else not found.
pub fn lookup_result(active: Option<TaskRecord>, history: Option<TaskHistoryRecord>) -> (r: TaskLookup)
    ensures
        match active {
            Some(a) => r == TaskLookup::Active(a),
            None => match history {
                Some(h) => r == TaskLookup::History(h),
                None => r is NotFound,
            },
        },
{
    match active {
        Some(a) => TaskLookup::Active(a),
        None => match history {
            Some(h) => TaskLookup::History(h),
            None => TaskLookup::NotFound,
        },
    }
}

/// An active recurring schedule; `next_run_ms` is when its pending
/// instance becomes eligible.
#[derive(Debug, Clone)]
pub struct RecurringScheduleInfo {
    pub task_id: i64,
    pub task_type: String,
    pub label: String,
    pub interval_secs: i64,
    pub next_run_ms: Option<i64>,
    pub execution_count: i64,
    pub max_executions: Option<i64>,
    pub paused: bool,
}

impl TaskRecord {
    /// The schedule a recurring task carries (an interval of zero when it
    /// has none).
    pub fn schedule_info(&self) -> (i: RecurringScheduleInfo)
        ensures
            i.task_id == self.id,
            i.task_type@ == self.task_type@,
            i.label@ == self.label@,
            i.interval_secs == match self.recurring_interval_secs {
                Some(v) => v,
                None => 0,
            },
            i.next_run_ms == self.run_after_ms,
            i.execution_count == self.recurring_execution_count,
            i.max_executions == self.recurring_max_executions,
            i.paused == self.recurring_paused,
    {
        RecurringScheduleInfo {
            task_id: self.id,
            task_type: self.task_type.clone(),
            label: self.label.clone(),
            interval_secs: match self.recurring_interval_secs {
                Some(v) => v,
                None => 0,
            },
            next_run_ms: self.run_after_ms,
            execution_count: self.recurring_execution_count,
            max_executions: self.recurring_max_executions,
            paused: self.recurring_paused,
        }
    }
}

} // verus!
