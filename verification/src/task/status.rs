//! Lifecycle states of active and finished tasks, and the small policy
//! enums stored alongside them, with their textual forms.

use vstd::prelude::*;
use crate::text::{join2, str_eq};

verus! {

/// When the TTL clock starts ticking.
#[derive(Debug, Clone, Copy, PartialEq, Eq, Structural, Hash)]
pub enum TtlFrom {
    /// TTL starts at submission time (default); `expires_at` is set immediately.
    Submission,
    /// TTL starts at the first execution attempt.
    FirstAttempt,
}

/// Lifecycle state of a task in the active queue.
#[derive(Debug, Clone, Copy, PartialEq, Eq, Structural, Hash)]
pub enum TaskStatus {
    Pending,
    Running,
    Paused,
    /// A parent whose executor returned while its children are still active.
    Waiting,
    /// Waiting for dependencies to complete before becoming eligible.
    Blocked,
}

/// Terminal state of a task in history.
#[derive(Debug, Clone, Copy, PartialEq, Eq, Structural, Hash)]
pub enum HistoryStatus {
    Completed,
    Failed,
    Cancelled,
    Superseded,
    Expired,
    /// One of its dependencies failed, and its failure policy cancelled it.
    DependencyFailed,
    /// Retries exhausted on a retryable error.
    DeadLetter,
}

/// What happens to a dependent task when one of its dependencies fails.
#[derive(Debug, Clone, Copy, PartialEq, Eq, Structural, Hash)]
pub enum DependencyFailurePolicy {
    /// Auto-cancel the dependent and record it as `DependencyFailed` (default).
    Cancel,
    /// Record the dependent as `DependencyFailed` without cascading further.
    Fail,
    /// Ignore the failure and unblock the dependent anyway.
    Ignore,
}

/// Strategy for handling a submission whose dedup key already exists.
#[derive(Debug, Clone, Copy, PartialEq, Eq, Structural, Hash)]
pub enum DuplicateStrategy {
    /// Attempt a priority upgrade or requeue, otherwise no-op (default).
    Skip,
    /// Cancel the existing task and insert the new one in its place.
    Supersede,
    /// Refuse the submission.
    Reject,
}

// ── Textual names ────────────────────────────────────────────────────

pub open spec fn ttl_from_name(t: TtlFrom) -> Seq<char> {
    match t {
        TtlFrom::Submission => "submission"@,
        TtlFrom::FirstAttempt => "first_attempt"@,
    }
}

pub open spec fn task_status_name(s: TaskStatus) -> Seq<char> {
    match s {
        TaskStatus::Pending => "pending"@,
        TaskStatus::Running => "running"@,
        TaskStatus::Paused => "paused"@,
        TaskStatus::Waiting => "waiting"@,
        TaskStatus::Blocked => "blocked"@,
    }
}

pub open spec fn history_status_name(s: HistoryStatus) -> Seq<char> {
    match s {
        HistoryStatus::Completed => "completed"@,
        HistoryStatus::Failed => "failed"@,
        HistoryStatus::Cancelled => "cancelled"@,
        HistoryStatus::Superseded => "superseded"@,
        HistoryStatus::Expired => "expired"@,
        HistoryStatus::DependencyFailed => "dependency_failed"@,
        HistoryStatus::DeadLetter => "dead_letter"@,
    }
}

pub open spec fn dependency_policy_name(p: DependencyFailurePolicy) -> Seq<char> {
    match p {
        DependencyFailurePolicy::Cancel => "cancel"@,
        DependencyFailurePolicy::Fail => "fail"@,
        DependencyFailurePolicy::Ignore => "ignore"@,
    }
}

/// The value named by `text`, if any.
pub open spec fn ttl_from_parse(text: Seq<char>) -> Option<TtlFrom> {
    if text == "submission"@ {
        Some(TtlFrom::Submission)
    } else if text == "first_attempt"@ {
        Some(TtlFrom::FirstAttempt)
    } else {
        None
    }
}

pub open spec fn task_status_parse(text: Seq<char>) -> Option<TaskStatus> {
    if text == "pending"@ {
        Some(TaskStatus::Pending)
    } else if text == "running"@ {
        Some(TaskStatus::Running)
    } else if text == "paused"@ {
        Some(TaskStatus::Paused)
    } else if text == "waiting"@ {
        Some(TaskStatus::Waiting)
    } else if text == "blocked"@ {
        Some(TaskStatus::Blocked)
    } else {
        None
    }
}

pub open spec fn history_status_parse(text: Seq<char>) -> Option<HistoryStatus> {
    if text == "completed"@ {
        Some(HistoryStatus::Completed)
    } else if text == "failed"@ {
        Some(HistoryStatus::Failed)
    } else if text == "cancelled"@ {
        Some(HistoryStatus::Cancelled)
    } else if text == "superseded"@ {
        Some(HistoryStatus::Superseded)
    } else if text == "expired"@ {
        Some(HistoryStatus::Expired)
    } else if text == "dependency_failed"@ {
        Some(HistoryStatus::DependencyFailed)
    } else if text == "dead_letter"@ {
        Some(HistoryStatus::DeadLetter)
    } else {
        None
    }
}

pub open spec fn dependency_policy_parse(text: Seq<char>) -> Option<DependencyFailurePolicy> {
    if text == "cancel"@ {
        Some(DependencyFailurePolicy::Cancel)
    } else if text == "fail"@ {
        Some(DependencyFailurePolicy::Fail)
    } else if text == "ignore"@ {
        Some(DependencyFailurePolicy::Ignore)
    } else {
        None
    }
}

/// The error message for an unknown name: the label (which ends in `": "`)
/// followed by the text.
pub open spec fn unknown_message(label: Seq<char>, text: Seq<char>) -> Seq<char> {
    label + text
}

impl TtlFrom {
    /// The default TTL start: submission time.
    pub fn default_value() -> (t: TtlFrom)
        ensures
            t == TtlFrom::Submission,
    {
        TtlFrom::Submission
    }

    pub fn as_str(self) -> (s: &'static str)
        ensures
            s@ == ttl_from_name(self),
    {
        match self {
            TtlFrom::Submission => "submission",
            TtlFrom::FirstAttempt => "first_attempt",
        }
    }

    /// Parse a stored name; unknown names give `"unknown TtlFrom: <text>"`.
    pub fn from_str(s: &str) -> (r: Result<TtlFrom, String>)
        ensures
            match ttl_from_parse(s@) {
                Some(t) => r == Ok::<TtlFrom, String>(t),
                None => r is Err && r->Err_0@ == unknown_message("unknown TtlFrom: "@, s@),
            },
    {
        if str_eq(s, "submission") {
            Ok(TtlFrom::Submission)
        } else if str_eq(s, "first_attempt") {
            Ok(TtlFrom::FirstAttempt)
        } else {
            Err(join2("unknown TtlFrom: ", s))
        }
    }
}

impl TaskStatus {
    pub fn as_str(self) -> (s: &'static str)
        ensures
            s@ == task_status_name(self),
    {
        match self {
            TaskStatus::Pending => "pending",
            TaskStatus::Running => "running",
            TaskStatus::Paused => "paused",
            TaskStatus::Waiting => "waiting",
            TaskStatus::Blocked => "blocked",
        }
    }

    /// Parse a stored name; unknown names give `"unknown TaskStatus: <text>"`.
    pub fn from_str(s: &str) -> (r: Result<TaskStatus, String>)
        ensures
            match task_status_parse(s@) {
                Some(t) => r == Ok::<TaskStatus, String>(t),
                None => r is Err && r->Err_0@ == unknown_message("unknown TaskStatus: "@, s@),
            },
    {
        if str_eq(s, "pending") {
            Ok(TaskStatus::Pending)
        } else if str_eq(s, "running") {
            Ok(TaskStatus::Running)
        } else if str_eq(s, "paused") {
            Ok(TaskStatus::Paused)
        } else if str_eq(s, "waiting") {
            Ok(TaskStatus::Waiting)
        } else if str_eq(s, "blocked") {
            Ok(TaskStatus::Blocked)
        } else {
            Err(join2("unknown TaskStatus: ", s))
        }
    }
}

impl HistoryStatus {
    pub fn as_str(self) -> (s: &'static str)
        ensures
            s@ == history_status_name(self),
    {
        match self {
            HistoryStatus::Completed => "completed",
            HistoryStatus::Failed => "failed",
            HistoryStatus::Cancelled => "cancelled",
            HistoryStatus::Superseded => "superseded",
            HistoryStatus::Expired => "expired",
            HistoryStatus::DependencyFailed => "dependency_failed",
            HistoryStatus::DeadLetter => "dead_letter",
        }
    }

    /// A failure or dead letter: the status counts one more attempt.
    pub open spec fn increments_retries_spec(self) -> bool {
        self == HistoryStatus::Failed || self == HistoryStatus::DeadLetter
    }

    /// Whether moving a task to history with this status counts one more attempt.
    pub fn increments_retries(self) -> (b: bool)
        ensures
            b == self.increments_retries_spec(),
    {
        matches!(self, HistoryStatus::Failed | HistoryStatus::DeadLetter)
    }

    /// Parse a stored name; unknown names give `"unknown HistoryStatus: <text>"`.
    pub fn from_str(s: &str) -> (r: Result<HistoryStatus, String>)
        ensures
            match history_status_parse(s@) {
                Some(t) => r == Ok::<HistoryStatus, String>(t),
                None => r is Err && r->Err_0@ == unknown_message("unknown HistoryStatus: "@, s@),
            },
    {
        if str_eq(s, "completed") {
            Ok(HistoryStatus::Completed)
        } else if str_eq(s, "failed") {
            Ok(HistoryStatus::Failed)
        } else if str_eq(s, "cancelled") {
            Ok(HistoryStatus::Cancelled)
        } else if str_eq(s, "superseded") {
            Ok(HistoryStatus::Superseded)
        } else if str_eq(s, "expired") {
            Ok(HistoryStatus::Expired)
        } else if str_eq(s, "dependency_failed") {
            Ok(HistoryStatus::DependencyFailed)
        } else if str_eq(s, "dead_letter") {
            Ok(HistoryStatus::DeadLetter)
        } else {
            Err(join2("unknown HistoryStatus: ", s))
        }
    }
}

impl DependencyFailurePolicy {
    /// The default policy: cancel dependents.
    pub fn default_value() -> (p: DependencyFailurePolicy)
        ensures
            p == DependencyFailurePolicy::Cancel,
    {
        DependencyFailurePolicy::Cancel
    }

    pub fn as_str(self) -> (s: &'static str)
        ensures
            s@ == dependency_policy_name(self),
    {
        match self {
            DependencyFailurePolicy::Cancel => "cancel",
            DependencyFailurePolicy::Fail => "fail",
            DependencyFailurePolicy::Ignore => "ignore",
        }
    }

    /// Parse a stored name; unknown names give `"unknown DependencyFailurePolicy: <text>"`.
    pub fn from_str(s: &str) -> (r: Result<DependencyFailurePolicy, String>)
        ensures
            match dependency_policy_parse(s@) {
                Some(t) => r == Ok::<DependencyFailurePolicy, String>(t),
                None => r is Err && r->Err_0@ == unknown_message(
                    "unknown DependencyFailurePolicy: "@,
                    s@,
                ),
            },
    {
        if str_eq(s, "cancel") {
            Ok(DependencyFailurePolicy::Cancel)
        } else if str_eq(s, "fail") {
            Ok(DependencyFailurePolicy::Fail)
        } else if str_eq(s, "ignore") {
            Ok(DependencyFailurePolicy::Ignore)
        } else {
            Err(join2("unknown DependencyFailurePolicy: ", s))
        }
    }
}

impl DuplicateStrategy {
    /// The default strategy: skip (upgrade or requeue, else no-op).
    pub fn default_value() -> (d: DuplicateStrategy)
        ensures
            d == DuplicateStrategy::Skip,
    {
        DuplicateStrategy::Skip
    }
}

impl Default for TtlFrom {
    /// The TTL clock starts at submission.
    fn default() -> (t: TtlFrom)
        ensures
            t == TtlFrom::Submission,
    {
        TtlFrom::Submission
    }
}

impl Default for DependencyFailurePolicy {
    /// A failed dependency cancels the dependent.
    fn default() -> (p: DependencyFailurePolicy)
        ensures
            p == DependencyFailurePolicy::Cancel,
    {
        DependencyFailurePolicy::Cancel
    }
}

impl Default for DuplicateStrategy {
    /// A duplicate is skipped (upgrade or requeue, else no-op).
    fn default() -> (d: DuplicateStrategy)
        ensures
            d == DuplicateStrategy::Skip,
    {
        DuplicateStrategy::Skip
    }
}

// ── Laws ─────────────────────────────────────────────────────────────

/// Every task status is read back from its stored name.
pub proof fn lemma_task_status_round_trip(s: TaskStatus)
    ensures
        task_status_parse(task_status_name(s)) == Some(s),
{
    reveal_strlit("pending");
    reveal_strlit("running");
    reveal_strlit("paused");
    reveal_strlit("waiting");
    reveal_strlit("blocked");
    assert("pending"@[0] == 'p' && "pending"@[1] == 'e' && "pending"@[2] == 'n');
    assert("running"@[0] == 'r' && "running"@[1] == 'u' && "running"@[2] == 'n');
    assert("paused"@[0] == 'p' && "paused"@[1] == 'a' && "paused"@[2] == 'u');
    assert("waiting"@[0] == 'w' && "waiting"@[1] == 'a' && "waiting"@[2] == 'i');
    assert("blocked"@[0] == 'b' && "blocked"@[1] == 'l' && "blocked"@[2] == 'o');
}

/// Every history status is read back from its stored name.
pub proof fn lemma_history_status_round_trip(s: HistoryStatus)
    ensures
        history_status_parse(history_status_name(s)) == Some(s),
{
    reveal_strlit("completed");
    reveal_strlit("failed");
    reveal_strlit("cancelled");
    reveal_strlit("superseded");
    reveal_strlit("expired");
    reveal_strlit("dependency_failed");
    reveal_strlit("dead_letter");
    assert("completed"@[0] == 'c' && "completed"@[1] == 'o' && "completed"@[2] == 'm');
    assert("failed"@[0] == 'f' && "failed"@[1] == 'a' && "failed"@[2] == 'i');
    assert("cancelled"@[0] == 'c' && "cancelled"@[1] == 'a' && "cancelled"@[2] == 'n');
    assert("superseded"@[0] == 's' && "superseded"@[1] == 'u' && "superseded"@[2] == 'p');
    assert("expired"@[0] == 'e' && "expired"@[1] == 'x' && "expired"@[2] == 'p');
    assert("dependency_failed"@[0] == 'd' && "dependency_failed"@[1] == 'e' && "dependency_failed"@[2] == 'p');
    assert("dead_letter"@[0] == 'd' && "dead_letter"@[1] == 'e' && "dead_letter"@[2] == 'a');
}

/// Every TTL start is read back from its stored name.
pub proof fn lemma_ttl_from_round_trip(t: TtlFrom)
    ensures
        ttl_from_parse(ttl_from_name(t)) == Some(t),
{
    reveal_strlit("submission");
    reveal_strlit("first_attempt");
    assert("submission"@[0] == 's' && "submission"@[1] == 'u' && "submission"@[2] == 'b');
    assert("first_attempt"@[0] == 'f' && "first_attempt"@[1] == 'i' && "first_attempt"@[2] == 'r');
}

/// Every dependency-failure policy is read back from its stored name.
pub proof fn lemma_dependency_policy_round_trip(p: DependencyFailurePolicy)
    ensures
        dependency_policy_parse(dependency_policy_name(p)) == Some(p),
{
    reveal_strlit("cancel");
    reveal_strlit("fail");
    reveal_strlit("ignore");
    assert("cancel"@[0] == 'c' && "cancel"@[1] == 'a' && "cancel"@[2] == 'n');
    assert("fail"@[0] == 'f' && "fail"@[1] == 'a' && "fail"@[2] == 'i');
    assert("ignore"@[0] == 'i' && "ignore"@[1] == 'g' && "ignore"@[2] == 'n');
}

} // verus!
