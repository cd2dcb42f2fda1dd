//! Pause reasons: a bitmask of why a task is paused, and how pausing and
//! resuming change a task's status and reasons.

use vstd::prelude::*;
use crate::task::status::TaskStatus;

verus! {

pub const PAUSE_NONE: i64 = 0;

pub const PAUSE_PREEMPTION: i64 = 1;

pub const PAUSE_MODULE: i64 = 2;

pub const PAUSE_GLOBAL: i64 = 4;

pub const PAUSE_GROUP: i64 = 8;

/// Bitmask tracking why a task is paused; several reasons may be active at
/// once. `0` means the task is not paused.
#[derive(Debug, Clone, Copy, PartialEq, Eq, Structural, Hash)]
pub struct PauseReasons(pub i64);

impl PauseReasons {
    /// No reason.
    pub fn none() -> (r: PauseReasons)
        ensures
            r.0 == PAUSE_NONE,
    {
        PauseReasons(PAUSE_NONE)
    }

    /// Paused to make room for higher-priority work.
    pub fn preemption() -> (r: PauseReasons)
        ensures
            r.0 == PAUSE_PREEMPTION,
    {
        PauseReasons(PAUSE_PREEMPTION)
    }

    /// Paused because its module is paused.
    pub fn module() -> (r: PauseReasons)
        ensures
            r.0 == PAUSE_MODULE,
    {
        PauseReasons(PAUSE_MODULE)
    }

    /// Paused because the whole scheduler is paused.
    pub fn global() -> (r: PauseReasons)
        ensures
            r.0 == PAUSE_GLOBAL,
    {
        PauseReasons(PAUSE_GLOBAL)
    }

    /// Paused because its group is paused.
    pub fn group() -> (r: PauseReasons)
        ensures
            r.0 == PAUSE_GROUP,
    {
        PauseReasons(PAUSE_GROUP)
    }

    /// Whether any bit of `flag` is set.
    pub fn contains(self, flag: PauseReasons) -> (b: bool)
        ensures
            b == (self.0 & flag.0 != 0),
    {
        self.0 & flag.0 != 0
    }

    /// These reasons plus `flag`.
    pub fn with(self, flag: PauseReasons) -> (r: PauseReasons)
        ensures
            r.0 == self.0 | flag.0,
    {
        PauseReasons(self.0 | flag.0)
    }

    /// These reasons minus `flag`.
    pub fn without(self, flag: PauseReasons) -> (r: PauseReasons)
        ensures
            r.0 == self.0 & !flag.0,
    {
        PauseReasons(self.0 & !flag.0)
    }

    /// Whether no reason is set.
    pub fn is_empty(self) -> (b: bool)
        ensures
            b == (self.0 == 0),
    {
        self.0 == 0
    }

    /// The raw bitmask.
    pub fn bits(self) -> (b: i64)
        ensures
            b == self.0,
    {
        self.0
    }

    /// Reasons from a raw bitmask.
    pub fn from_bits(bits: i64) -> (r: PauseReasons)
        ensures
            r.0 == bits,
    {
        PauseReasons(bits)
    }
}

/// One of the four single-bit reasons.
pub open spec fn single_reason(flag: i64) -> bool {
    flag == PAUSE_PREEMPTION || flag == PAUSE_MODULE || flag == PAUSE_GLOBAL || flag == PAUSE_GROUP
}

/// Adding a reason sets it; removing it clears it; and removing leaves the
/// other reasons untouched.
pub proof fn lemma_with_without(r: PauseReasons, flag: PauseReasons, other: PauseReasons)
    requires
        flag.0 != 0,
        flag.0 & other.0 == 0,
    ensures
        (r.0 | flag.0) & flag.0 != 0,
        (r.0 & !flag.0) & flag.0 == 0,
        (r.0 & !flag.0) & other.0 == r.0 & other.0,
        ((r.0 | flag.0) & !flag.0) == (r.0 & !flag.0),
{
    let a = r.0;
    let f = flag.0;
    let o = other.0;
    assert((a | f) & f != 0) by (bit_vector)
        requires
            f != 0,
    ;
    assert((a & !f) & f == 0) by (bit_vector);
    assert((a & !f) & o == a & o) by (bit_vector)
        requires
            f & o == 0,
    ;
    assert(((a | f) & !f) == (a & !f)) by (bit_vector);
}

/// `from_bits` and `bits` are inverse.
pub proof fn lemma_bits_round_trip(bits: i64)
    ensures
        PauseReasons(bits).0 == bits,
{
}

impl Default for PauseReasons {
    /// No pause reason: the task is not paused.
    fn default() -> (r: PauseReasons)
        ensures
            r.0 == PAUSE_NONE,
    {
        PauseReasons::none()
    }
}

// ── Status transitions ───────────────────────────────────────────────

/// Pause a task for `reason` (any status): it becomes paused and the reason
/// is added to its reasons.
pub fn pause_with_reason(reasons: PauseReasons, reason: PauseReasons) -> (r: (TaskStatus, PauseReasons))
    ensures
        r.0 == TaskStatus::Paused,
        r.1.0 == reasons.0 | reason.0,
{
    (TaskStatus::Paused, reasons.with(reason))
}

/// Resume a paused task unconditionally: it becomes pending with no reasons.
/// Tasks in other states are unchanged.
pub fn resume_unconditionally(status: TaskStatus, reasons: PauseReasons) -> (r: (TaskStatus, PauseReasons))
    ensures
        status == TaskStatus::Paused ==> r == (TaskStatus::Pending, PauseReasons(0)),
        status != TaskStatus::Paused ==> r == (status, reasons),
{
    match status {
        TaskStatus::Paused => (TaskStatus::Pending, PauseReasons::none()),
        _ => (status, reasons),
    }
}

/// Clear one reason from a task. A paused task whose only reason is `bit`
/// resumes (pending, no reasons); a paused task with `bit` among other
/// reasons stays paused without it; every other task is unchanged.
pub fn clear_pause_reason(status: TaskStatus, reasons: PauseReasons, bit: PauseReasons) -> (r: (
    TaskStatus,
    PauseReasons,
))
    ensures
        status == TaskStatus::Paused && reasons.0 == bit.0 ==> r == (TaskStatus::Pending, PauseReasons(0)),
        status == TaskStatus::Paused && reasons.0 != bit.0 && reasons.0 & bit.0 != 0 ==> r == (
            TaskStatus::Paused,
            PauseReasons(reasons.0 & !bit.0),
        ),
        !(status == TaskStatus::Paused && (reasons.0 == bit.0 || reasons.0 & bit.0 != 0)) ==> r == (
            status,
            reasons,
        ),
{
    match status {
        TaskStatus::Paused => {
            if reasons.0 == bit.0 {
                (TaskStatus::Pending, PauseReasons::none())
            } else if reasons.contains(bit) {
                (TaskStatus::Paused, reasons.without(bit))
            } else {
                (status, reasons)
            }
        },
        _ => (status, reasons),
    }
}

/// Add the group reason: pending tasks become paused, already-paused tasks
/// gain the reason, every other task is unchanged.
pub fn add_group_reason(status: TaskStatus, reasons: PauseReasons) -> (r: (TaskStatus, PauseReasons))
    ensures
        (status == TaskStatus::Pending || status == TaskStatus::Paused) ==> r == (
            TaskStatus::Paused,
            PauseReasons(reasons.0 | PAUSE_GROUP),
        ),
        !(status == TaskStatus::Pending || status == TaskStatus::Paused) ==> r == (status, reasons),
{
    match status {
        TaskStatus::Pending | TaskStatus::Paused => (TaskStatus::Paused, reasons.with(PauseReasons::group())),
        _ => (status, reasons),
    }
}

/// Add the module reason: pending and paused tasks become paused with it,
/// every other task is unchanged.
pub fn add_module_reason(status: TaskStatus, reasons: PauseReasons) -> (r: (TaskStatus, PauseReasons))
    ensures
        (status == TaskStatus::Pending || status == TaskStatus::Paused) ==> r == (
            TaskStatus::Paused,
            PauseReasons(reasons.0 | PAUSE_MODULE),
        ),
        !(status == TaskStatus::Pending || status == TaskStatus::Paused) ==> r == (status, reasons),
{
    match status {
        TaskStatus::Pending | TaskStatus::Paused => (TaskStatus::Paused, reasons.with(PauseReasons::module())),
        _ => (status, reasons),
    }
}

/// The state of a task just unblocked (its last dependency resolved): it
/// becomes pending, or paused for its group when the group is paused.
pub fn unblocked_state(reasons: PauseReasons, group_paused: bool) -> (r: (TaskStatus, PauseReasons))
    ensures
        group_paused ==> r == (TaskStatus::Paused, PauseReasons(reasons.0 | PAUSE_GROUP)),
        !group_paused ==> r == (TaskStatus::Pending, reasons),
{
    if group_paused {
        (TaskStatus::Paused, reasons.with(PauseReasons::group()))
    } else {
        (TaskStatus::Pending, reasons)
    }
}

/// A paused task held for a single reason resumes exactly when that reason
/// is its last one: after clearing it, the task is pending if and only if no
/// reason remains, and paused otherwise.
pub proof fn lemma_resume_only_when_no_reason_left(reasons: PauseReasons, bit: PauseReasons)
    requires
        single_reason(bit.0),
        reasons.0 & bit.0 != 0,
    ensures
        (reasons.0 & !bit.0 == 0) <==> reasons.0 == bit.0,
{
    let a = reasons.0;
    let b = bit.0;
    if b == 1 {
        assert((a & !1i64 == 0) <==> a == 1) by (bit_vector)
            requires
                a & 1 != 0,
        ;
    } else if b == 2 {
        assert((a & !2i64 == 0) <==> a == 2) by (bit_vector)
            requires
                a & 2 != 0,
        ;
    } else if b == 4 {
        assert((a & !4i64 == 0) <==> a == 4) by (bit_vector)
            requires
                a & 4 != 0,
        ;
    } else {
        assert((a & !8i64 == 0) <==> a == 8) by (bit_vector)
            requires
                a & 8 != 0,
        ;
    }
}

} // verus!
