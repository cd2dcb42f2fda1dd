//! Strongly-typed tasks: a payload type that names its task type and gives
//! its own scheduling settings, dedup key, label and tags.

use vstd::prelude::*;
use crate::priority::{Priority, NORMAL_VALUE};
use crate::task::io::IoBudget;
use crate::task::status::{DuplicateStrategy, TtlFrom};
use crate::task::submission::RecurringSchedule;
use crate::task::tags::TagMap;

verus! {

/// A strongly-typed task. The task type names it within its domain; the
/// other methods give per-type or payload-derived settings, each with a
/// default.
pub trait TypedTask {
    /// The task type, unique within the domain (without the domain prefix).
    fn task_type() -> &'static str;

    /// Scheduling priority. Default: normal.
    fn priority(&self) -> (p: Priority)
        default_ensures
            p.0 == NORMAL_VALUE,
    {
        Priority::normal()
    }

    /// Expected IO. Default: none.
    fn expected_io(&self) -> (b: IoBudget)
        default_ensures
            b == IoBudget::spec_zero(),
    {
        IoBudget::zero()
    }

    /// What a submission with an existing key does. Default: skip.
    fn on_duplicate(&self) -> (d: DuplicateStrategy)
        default_ensures
            d == DuplicateStrategy::Skip,
    {
        DuplicateStrategy::Skip
    }

    /// Time to live in milliseconds. Default: none.
    fn ttl(&self) -> (t: Option<u64>)
        default_ensures
            t is None,
    {
        None
    }

    /// When the TTL clock starts. Default: at submission.
    fn ttl_from(&self) -> (t: TtlFrom)
        default_ensures
            t == TtlFrom::Submission,
    {
        TtlFrom::Submission
    }

    /// Dedup key. Default: none (the key is then the hash of the payload).
    fn key(&self) -> (k: Option<String>)
        default_ensures
            k is None,
    {
        None
    }

    /// Human-readable label. Default: none (derived from key or task type).
    fn label(&self) -> (l: Option<String>)
        default_ensures
            l is None,
    {
        None
    }

    /// Group key for per-group concurrency limiting. Default: none.
    fn group_key(&self) -> (g: Option<String>)
        default_ensures
            g is None,
    {
        None
    }

    /// Delay before the task may run, in milliseconds. Default: none.
    fn run_after(&self) -> (d: Option<u64>)
        default_ensures
            d is None,
    {
        None
    }

    /// Recurring schedule. Default: none.
    fn recurring(&self) -> (r: Option<RecurringSchedule>)
        default_ensures
            r is None,
    {
        None
    }

    /// Metadata tags. Default: none.
    fn tags(&self) -> (t: TagMap)
        default_ensures
            t@ == Map::<Seq<char>, Seq<char>>::empty(),
    {
        TagMap::new()
    }
}

/// The settings a typed task gives for its submission.
#[derive(Debug)]
pub struct TypedSettings {
    pub priority: Priority,
    pub expected_io: IoBudget,
    pub on_duplicate: DuplicateStrategy,
    pub ttl_ms: Option<u64>,
    pub ttl_from: TtlFrom,
    pub key: Option<String>,
    pub label: Option<String>,
    pub group_key: Option<String>,
    /// Delay before the task may run, in milliseconds.
    pub run_after_ms: Option<u64>,
    pub recurring: Option<RecurringSchedule>,
    pub tags: TagMap,
}

/// The dispatch time the settings give at `now_ms`: the delay from now, else
/// the schedule's initial delay from now, else none.
pub open spec fn typed_run_after(st: TypedSettings, now_ms: i64) -> Option<i64> {
    match st.run_after_ms {
        Some(d) => Some((now_ms + d) as i64),
        None => match st.recurring {
            Some(r) => match r.initial_delay_ms {
                Some(d) => Some((now_ms + d) as i64),
                None => None,
            },
            None => None,
        },
    }
}

/// The delays of the settings lead to representable instants from `now_ms`.
pub open spec fn typed_delays_fit(st: TypedSettings, now_ms: i64) -> bool {
    &&& crate::clock::representable(now_ms as int)
    &&& st.run_after_ms matches Some(d) ==> crate::clock::representable(now_ms + d)
    &&& (st.run_after_ms is None && st.recurring is Some && st.recurring->0.initial_delay_ms is Some)
        ==> crate::clock::representable(now_ms + st.recurring->0.initial_delay_ms->0)
}

/// Whether the delays of the settings lead to representable instants.
pub fn delays_fit(st: &TypedSettings, now_ms: i64) -> (b: bool)
    ensures
        b == typed_delays_fit(*st, now_ms),
{
    if now_ms < crate::clock::MIN_EPOCH_MS || now_ms > crate::clock::MAX_EPOCH_MS {
        return false;
    }
    match st.run_after_ms {
        Some(d) => d <= (crate::clock::MAX_EPOCH_MS - now_ms) as u64,
        None => match st.recurring {
            Some(r) => match r.initial_delay_ms {
                Some(d) => d <= (crate::clock::MAX_EPOCH_MS - now_ms) as u64,
                None => true,
            },
            None => true,
        },
    }
}

/// `st` holds what the methods of `task` returned, one call each.
pub open spec fn reads_settings<T: TypedTask>(task: &T, st: TypedSettings) -> bool {
    &&& call_ensures(T::priority, (task,), st.priority)
    &&& call_ensures(T::expected_io, (task,), st.expected_io)
    &&& call_ensures(T::on_duplicate, (task,), st.on_duplicate)
    &&& call_ensures(T::ttl, (task,), st.ttl_ms)
    &&& call_ensures(T::ttl_from, (task,), st.ttl_from)
    &&& call_ensures(T::key, (task,), st.key)
    &&& call_ensures(T::label, (task,), st.label)
    &&& call_ensures(T::group_key, (task,), st.group_key)
    &&& call_ensures(T::run_after, (task,), st.run_after_ms)
    &&& call_ensures(T::recurring, (task,), st.recurring)
    &&& call_ensures(T::tags, (task,), st.tags)
}

/// Read all settings a typed task gives.
pub(crate) fn typed_settings<T: TypedTask>(task: &T) -> (st: TypedSettings)
    ensures
        reads_settings(task, st),
{
    TypedSettings {
        priority: task.priority(),
        expected_io: task.expected_io(),
        on_duplicate: task.on_duplicate(),
        ttl_ms: task.ttl(),
        ttl_from: task.ttl_from(),
        key: task.key(),
        label: task.label(),
        group_key: task.group_key(),
        run_after_ms: task.run_after(),
        recurring: task.recurring(),
        tags: task.tags(),
    }
}

} // verus!
