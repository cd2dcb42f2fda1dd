//! Task submissions: the parameters of a new task, batch defaults, and the
//! effective dedup key.

use vstd::prelude::*;
use crate::priority::{Priority, NORMAL_VALUE};
use crate::task::dedup::{dedup_input, generate_dedup_key, hex_lower, sha256_digest};
use crate::task::io::IoBudget;
use crate::task::status::{DependencyFailurePolicy, DuplicateStrategy, TtlFrom};
use crate::task::tags::TagMap;
use crate::task::typed::{
    delays_fit, reads_settings, typed_delays_fit, typed_run_after, typed_settings, TypedSettings, TypedTask,
};

verus! {

/// Configuration of a recurring schedule; durations in milliseconds.
#[derive(Debug, Clone, Copy, PartialEq, Eq, Structural)]
pub struct RecurringSchedule {
    /// Interval between consecutive executions.
    pub interval_ms: u64,
    /// Initial delay before the first execution; `None` starts immediately.
    pub initial_delay_ms: Option<u64>,
    /// Maximum number of executions; `None` runs indefinitely.
    pub max_executions: Option<u64>,
}

/// Parameters for submitting a new task. Durations are in milliseconds and
/// instants in milliseconds since the Unix epoch.
#[derive(Debug)]
pub struct TaskSubmission {
    pub task_type: String,
    /// Optional dedup key; when absent the payload is hashed instead.
    pub dedup_key: Option<String>,
    /// Human-readable label: the dedup key if set, else the task type.
    pub label: String,
    pub priority: Priority,
    pub payload: Option<Vec<u8>>,
    /// Expected IO budget for scheduling.
    pub expected_io: IoBudget,
    /// Parent task id for hierarchical tasks.
    pub parent_id: Option<i64>,
    /// Whether the first child failure fails the parent immediately.
    pub fail_fast: bool,
    /// Group key for per-group concurrency limiting.
    pub group_key: Option<String>,
    /// Strategy for duplicate dedup keys.
    pub on_duplicate: DuplicateStrategy,
    /// Time-to-live.
    pub ttl_ms: Option<u64>,
    /// When the TTL clock starts.
    pub ttl_from: TtlFrom,
    /// A payload serialization error deferred to submit time.
    pub payload_error: Option<String>,
    /// Not eligible for dispatch before this instant.
    pub run_after_ms: Option<i64>,
    /// Recurring schedule, if any.
    pub recurring: Option<RecurringSchedule>,
    /// Ids of the tasks this one depends on.
    pub dependencies: Vec<i64>,
    /// What happens when a dependency fails.
    pub on_dependency_failure: DependencyFailurePolicy,
    /// Metadata tags.
    pub tags: TagMap,
    /// Per-task retry limit; `None` uses the global default.
    pub max_retries: Option<i32>,
}

/// The dedup key a submission resolves to: the hash of the task type with
/// the explicit key if set, else with the payload.
pub open spec fn effective_key_text(sub: TaskSubmission) -> Seq<char> {
    hex_lower(
        sha256_digest(
            match sub.dedup_key {
                Some(k) => dedup_input(sub.task_type@, Some(vstd::utf8::encode_utf8(k@))),
                None => dedup_input(
                    sub.task_type@,
                    match sub.payload {
                        Some(p) => Some(p@),
                        None => None,
                    },
                ),
            },
        ),
    )
}

/// The settings every new submission starts with, apart from its type,
/// label, dedup key, payload and tags: normal priority, zero IO, no parent,
/// fail-fast, skip on duplicate, no TTL (clock from submission), no delay,
/// not recurring, no dependencies, cancel on dependency failure, no retry
/// limit, no payload error.
pub open spec fn has_default_settings(s: TaskSubmission) -> bool {
    &&& s.priority.0 == NORMAL_VALUE
    &&& s.expected_io == IoBudget::spec_zero()
    &&& s.parent_id is None
    &&& s.fail_fast
    &&& s.group_key is None
    &&& s.on_duplicate == DuplicateStrategy::Skip
    &&& s.ttl_ms is None
    &&& s.ttl_from == TtlFrom::Submission
    &&& s.payload_error is None
    &&& s.run_after_ms is None
    &&& s.recurring is None
    &&& s.dependencies@.len() == 0
    &&& s.on_dependency_failure == DependencyFailurePolicy::Cancel
    &&& s.max_retries is None
}

/// The settings a typed task does not give: no parent, fail-fast, no
/// dependencies, cancel on dependency failure, no retry limit, no payload
/// error.
pub open spec fn keeps_link_defaults(s: TaskSubmission) -> bool {
    &&& s.parent_id is None
    &&& s.fail_fast
    &&& s.dependencies@.len() == 0
    &&& s.on_dependency_failure == DependencyFailurePolicy::Cancel
    &&& s.max_retries is None
    &&& s.payload_error is None
}

/// `s` carries the settings `st` at the instant `now_ms`: each setting as
/// given, the label from the label, else the key, else the task type; the
/// dispatch time and schedule as the delays give them where those lead to
/// representable instants, and otherwise no dispatch time and no initial
/// delay.
pub open spec fn built_from_settings(s: TaskSubmission, st: TypedSettings, now_ms: i64) -> bool {
    &&& s.priority == st.priority
    &&& s.expected_io == st.expected_io
    &&& s.on_duplicate == st.on_duplicate
    &&& s.ttl_ms == st.ttl_ms
    &&& s.ttl_from == st.ttl_from
    &&& s.dedup_key == st.key
    &&& s.label@ == match st.label {
        Some(l) => l@,
        None => match st.key {
            Some(k) => k@,
            None => s.task_type@,
        },
    }
    &&& s.group_key == st.group_key
    &&& s.tags@ == st.tags@
    &&& if typed_delays_fit(st, now_ms) {
        &&& s.run_after_ms == typed_run_after(st, now_ms)
        &&& s.recurring == st.recurring
    } else {
        &&& s.run_after_ms is None
        &&& s.recurring == match st.recurring {
            Some(r) => Some((RecurringSchedule { initial_delay_ms: None, ..r })),
            None => None,
        }
    }
}

impl TaskSubmission {
    /// A submission with defaults: normal priority, no payload or key, zero
    /// IO, no parent, fail-fast, skip on duplicate, no TTL (clock from
    /// submission), no delay, not recurring, no dependencies, cancel on
    /// dependency failure, no tags; the label is the task type.
    pub fn new(task_type: &str) -> (s: TaskSubmission)
        ensures
            s.task_type@ == task_type@,
            s.label@ == task_type@,
            s.dedup_key is None,
            s.priority.0 == NORMAL_VALUE,
            s.payload is None,
            s.expected_io == IoBudget::spec_zero(),
            s.parent_id is None,
            s.fail_fast,
            s.group_key is None,
            s.on_duplicate == DuplicateStrategy::Skip,
            s.ttl_ms is None,
            s.ttl_from == TtlFrom::Submission,
            s.payload_error is None,
            s.run_after_ms is None,
            s.recurring is None,
            s.dependencies@.len() == 0,
            s.on_dependency_failure == DependencyFailurePolicy::Cancel,
            s.tags@ == Map::<Seq<char>, Seq<char>>::empty(),
            s.max_retries is None,
    {
        TaskSubmission {
            task_type: task_type.to_owned(),
            dedup_key: None,
            label: task_type.to_owned(),
            priority: Priority::normal(),
            payload: None,
            expected_io: IoBudget::zero(),
            parent_id: None,
            fail_fast: true,
            group_key: None,
            on_duplicate: DuplicateStrategy::default_value(),
            ttl_ms: None,
            ttl_from: TtlFrom::default_value(),
            payload_error: None,
            run_after_ms: None,
            recurring: None,
            dependencies: Vec::new(),
            on_dependency_failure: DependencyFailurePolicy::default_value(),
            tags: TagMap::new(),
            max_retries: None,
        }
    }

    /// The submission a typed task describes at the instant `now_ms`: its
    /// task type and serialized payload with the settings it gives. A key
    /// becomes the label unless the task gives its own label; a delay sets
    /// the dispatch time from now, and a recurring schedule's initial delay
    /// does so when no delay is given.
    pub fn from_typed_parts(task_type: &str, payload: Vec<u8>, st: TypedSettings, now_ms: i64) -> (s:
        TaskSubmission)
        requires
            typed_delays_fit(st, now_ms),
        ensures
            s.task_type@ == task_type@,
            s.payload == Some(payload),
            s.priority == st.priority,
            s.expected_io == st.expected_io,
            s.on_duplicate == st.on_duplicate,
            s.ttl_ms == st.ttl_ms,
            s.ttl_from == st.ttl_from,
            s.dedup_key == st.key,
            s.label@ == match st.label {
                Some(l) => l@,
                None => match st.key {
                    Some(k) => k@,
                    None => task_type@,
                },
            },
            s.group_key == st.group_key,
            s.run_after_ms == typed_run_after(st, now_ms),
            s.recurring == st.recurring,
            s.tags@ == st.tags@,
            keeps_link_defaults(s),
    {
        let ghost st0 = st;
        let TypedSettings {
            priority,
            expected_io,
            on_duplicate,
            ttl_ms,
            ttl_from,
            key,
            label,
            group_key,
            run_after_ms,
            recurring,
            tags,
        } = st;
        let mut s = TaskSubmission::new(task_type).priority(priority).payload_raw(payload).expected_io(
            expected_io,
        ).on_duplicate(on_duplicate).ttl_from(ttl_from);
        match ttl_ms {
            Some(t) => {
                s = s.ttl(t);
            },
            None => {},
        }
        match key {
            Some(k) => {
                s.label = k.clone();
                s.dedup_key = Some(k);
            },
            None => {},
        }
        match label {
            Some(l) => {
                s.label = l;
            },
            None => {},
        }
        s.group_key = group_key;
        match run_after_ms {
            Some(d) => {
                s = s.run_after(d, now_ms);
            },
            None => {},
        }
        match recurring {
            Some(r) => {
                s = s.recurring_schedule(r, now_ms);
            },
            None => {},
        }
        if !tags.is_empty() {
            s = s.tags(tags);
        }
        s
    }

    /// A submission from a typed task and its serialized payload at the
    /// instant `now_ms`, with the task type and settings the task gives.
    /// Where a delay would lead past the representable range, no dispatch
    /// time is set from it.
    pub fn from_typed<T: TypedTask>(task: &T, payload: Vec<u8>, now_ms: i64) -> (s: TaskSubmission)
        ensures
            exists|tt: &str| #[trigger] call_ensures(T::task_type, (), tt) && s.task_type@ == tt@,
            exists|st: TypedSettings| #[trigger] reads_settings(task, st) && built_from_settings(s, st, now_ms),
            call_ensures(T::priority, (task,), s.priority),
            call_ensures(T::expected_io, (task,), s.expected_io),
            call_ensures(T::on_duplicate, (task,), s.on_duplicate),
            call_ensures(T::ttl, (task,), s.ttl_ms),
            call_ensures(T::ttl_from, (task,), s.ttl_from),
            call_ensures(T::key, (task,), s.dedup_key),
            call_ensures(T::group_key, (task,), s.group_key),
            s.payload == Some(payload),
            keeps_link_defaults(s),
    {
        let st = typed_settings(task);
        let ghost st0 = st;
        let tt = T::task_type();
        if delays_fit(&st, now_ms) {
            let s = TaskSubmission::from_typed_parts(tt, payload, st, now_ms);
            proof {
                assert(built_from_settings(s, st0, now_ms));
                assert(reads_settings(task, st0));
            }
            s
        } else {
            let TypedSettings {
                priority,
                expected_io,
                on_duplicate,
                ttl_ms,
                ttl_from,
                key,
                label,
                group_key,
                run_after_ms: _,
                recurring,
                tags,
            } = st;
            let undelayed = TypedSettings {
                priority,
                expected_io,
                on_duplicate,
                ttl_ms,
                ttl_from,
                key,
                label,
                group_key,
                run_after_ms: None,
                recurring: match recurring {
                    Some(r) => Some(RecurringSchedule { initial_delay_ms: None, ..r }),
                    None => None,
                },
                tags,
            };
            let s = TaskSubmission::from_typed_parts(tt, payload, undelayed, 0);
            proof {
                assert(built_from_settings(s, st0, now_ms));
                assert(reads_settings(task, st0));
            }
            s
        }
    }

    /// Set an explicit dedup key; the label follows it.
    pub fn key(self, key: &str) -> (s: TaskSubmission)
        ensures
            s.dedup_key matches Some(k) && k@ == key@,
            s.label@ == key@,
            s == (TaskSubmission { dedup_key: s.dedup_key, label: s.label, ..self }),
    {
        let mut s = self;
        s.label = key.to_owned();
        s.dedup_key = Some(key.to_owned());
        s
    }

    /// Override the display label.
    pub fn label(self, label: &str) -> (s: TaskSubmission)
        ensures
            s.label@ == label@,
            s == (TaskSubmission { label: s.label, ..self }),
    {
        let mut s = self;
        s.label = label.to_owned();
        s
    }

    /// Set the scheduling priority.
    pub fn priority(self, priority: Priority) -> (s: TaskSubmission)
        ensures
            s == (TaskSubmission { priority, ..self }),
    {
        let mut s = self;
        s.priority = priority;
        s
    }

    /// Set the payload from raw bytes.
    pub fn payload_raw(self, data: Vec<u8>) -> (s: TaskSubmission)
        ensures
            s == (TaskSubmission { payload: Some(data), ..self }),
    {
        let mut s = self;
        s.payload = Some(data);
        s
    }

    /// Record a payload serialization failure, reported at submit time.
    pub fn payload_failed(self, error: String) -> (s: TaskSubmission)
        ensures
            s == (TaskSubmission { payload_error: Some(error), ..self }),
    {
        let mut s = self;
        s.payload_error = Some(error);
        s
    }

    /// Set the expected IO budget.
    pub fn expected_io(self, budget: IoBudget) -> (s: TaskSubmission)
        ensures
            s == (TaskSubmission { expected_io: budget, ..self }),
    {
        let mut s = self;
        s.expected_io = budget;
        s
    }

    /// Set the expected network IO (received and transmitted bytes).
    pub fn expected_net_io(self, rx_bytes: i64, tx_bytes: i64) -> (s: TaskSubmission)
        ensures
            s.expected_io == (IoBudget { net_rx: rx_bytes, net_tx: tx_bytes, ..self.expected_io }),
            s == (TaskSubmission { expected_io: s.expected_io, ..self }),
    {
        let mut s = self;
        s.expected_io.net_rx = rx_bytes;
        s.expected_io.net_tx = tx_bytes;
        s
    }

    /// Set the group key.
    pub fn group(self, group_key: &str) -> (s: TaskSubmission)
        ensures
            s.group_key matches Some(g) && g@ == group_key@,
            s == (TaskSubmission { group_key: s.group_key, ..self }),
    {
        let mut s = self;
        s.group_key = Some(group_key.to_owned());
        s
    }

    /// Set the fail-fast flag.
    pub fn fail_fast(self, fail_fast: bool) -> (s: TaskSubmission)
        ensures
            s == (TaskSubmission { fail_fast, ..self }),
    {
        let mut s = self;
        s.fail_fast = fail_fast;
        s
    }

    /// Set the duplicate-handling strategy.
    pub fn on_duplicate(self, strategy: DuplicateStrategy) -> (s: TaskSubmission)
        ensures
            s == (TaskSubmission { on_duplicate: strategy, ..self }),
    {
        let mut s = self;
        s.on_duplicate = strategy;
        s
    }

    /// Set the time-to-live.
    pub fn ttl(self, ttl_ms: u64) -> (s: TaskSubmission)
        ensures
            s == (TaskSubmission { ttl_ms: Some(ttl_ms), ..self }),
    {
        let mut s = self;
        s.ttl_ms = Some(ttl_ms);
        s
    }

    /// Set when the TTL clock starts.
    pub fn ttl_from(self, ttl_from: TtlFrom) -> (s: TaskSubmission)
        ensures
            s == (TaskSubmission { ttl_from, ..self }),
    {
        let mut s = self;
        s.ttl_from = ttl_from;
        s
    }

    /// Delay dispatch by `delay_ms` from the instant `now_ms` (the caller
    /// reads the clock).
    pub fn run_after(self, delay_ms: u64, now_ms: i64) -> (s: TaskSubmission)
        requires
            crate::clock::representable(now_ms as int),
            crate::clock::representable(now_ms + delay_ms),
        ensures
            s == (TaskSubmission { run_after_ms: Some((now_ms + delay_ms) as i64), ..self }),
    {
        let mut s = self;
        s.run_after_ms = Some(now_ms + delay_ms as i64);
        s
    }

    /// Schedule dispatch at a wall-clock instant.
    pub fn run_at(self, at_ms: i64) -> (s: TaskSubmission)
        ensures
            s == (TaskSubmission { run_after_ms: Some(at_ms), ..self }),
    {
        let mut s = self;
        s.run_after_ms = Some(at_ms);
        s
    }

    /// Recur every `interval_ms`, starting immediately, without limit.
    pub fn recurring(self, interval_ms: u64) -> (s: TaskSubmission)
        ensures
            s == (TaskSubmission {
                recurring: Some(
                    RecurringSchedule { interval_ms, initial_delay_ms: None, max_executions: None },
                ),
                ..self
            }),
    {
        let mut s = self;
        s.recurring = Some(RecurringSchedule { interval_ms, initial_delay_ms: None, max_executions: None });
        s
    }

    /// Recur with full schedule control, an initial delay counting from the
    /// instant `now_ms` unless a dispatch time is already set.
    pub fn recurring_schedule(self, schedule: RecurringSchedule, now_ms: i64) -> (s: TaskSubmission)
        requires
            schedule.initial_delay_ms is Some && self.run_after_ms is None ==> crate::clock::representable(
                now_ms as int,
            ) && crate::clock::representable(now_ms + schedule.initial_delay_ms->0),
        ensures
            s.recurring == Some(schedule),
            s.run_after_ms == match (schedule.initial_delay_ms, self.run_after_ms) {
                (Some(d), None) => Some((now_ms + d) as i64),
                _ => self.run_after_ms,
            },
            s == (TaskSubmission { recurring: s.recurring, run_after_ms: s.run_after_ms, ..self }),
    {
        let mut s = self;
        match schedule.initial_delay_ms {
            Some(d) => {
                if s.run_after_ms.is_none() {
                    s.run_after_ms = Some(now_ms + d as i64);
                }
            },
            None => {},
        }
        s.recurring = Some(schedule);
        s
    }

    /// Depend on another task.
    pub fn depends_on(self, task_id: i64) -> (s: TaskSubmission)
        ensures
            s.dependencies@ == self.dependencies@.push(task_id),
            s == (TaskSubmission { dependencies: s.dependencies, ..self }),
    {
        let mut s = self;
        let mut deps = s.dependencies;
        deps.push(task_id);
        s.dependencies = deps;
        s
    }

    /// Depend on several tasks.
    pub fn depends_on_all(self, task_ids: &Vec<i64>) -> (s: TaskSubmission)
        ensures
            s.dependencies@ == self.dependencies@ + task_ids@,
            s == (TaskSubmission { dependencies: s.dependencies, ..self }),
    {
        let mut s = self;
        let mut deps = s.dependencies;
        let ghost start = deps@;
        let mut i: usize = 0;
        while i < task_ids.len()
            invariant
                i <= task_ids@.len(),
                deps@ == start + task_ids@.take(i as int),
            decreases task_ids@.len() - i,
        {
            deps.push(task_ids[i]);
            proof {
                assert(deps@ =~= start + task_ids@.take(i as int + 1));
            }
            i = i + 1;
        }
        proof {
            assert(task_ids@.take(task_ids@.len() as int) =~= task_ids@);
        }
        s.dependencies = deps;
        s
    }

    /// Set the dependency-failure policy.
    pub fn on_dependency_failure(self, policy: DependencyFailurePolicy) -> (s: TaskSubmission)
        ensures
            s == (TaskSubmission { on_dependency_failure: policy, ..self }),
    {
        let mut s = self;
        s.on_dependency_failure = policy;
        s
    }

    /// Add one tag, replacing a previous value of the same key.
    pub fn tag(self, key: String, value: String) -> (s: TaskSubmission)
        ensures
            s.tags@ == self.tags@.insert(key@, value@),
            s == (TaskSubmission { tags: s.tags, ..self }),
    {
        let mut s = self;
        let mut tags = s.tags;
        tags.insert(key, value);
        s.tags = tags;
        s
    }

    /// Replace all tags.
    pub fn tags(self, tags: TagMap) -> (s: TaskSubmission)
        ensures
            s == (TaskSubmission { tags, ..self }),
    {
        let mut s = self;
        s.tags = tags;
        s
    }

    /// The dedup key: the hash of the task type with the explicit key if
    /// set, else with the payload.
    pub fn effective_key(&self) -> (k: String)
        ensures
            k@ == effective_key_text(*self),
            k@.len() == 64,
    {
        match &self.dedup_key {
            Some(k) => generate_dedup_key(self.task_type.as_str(), Some(k.as_str().as_bytes())),
            None => match &self.payload {
                Some(p) => generate_dedup_key(self.task_type.as_str(), Some(p.as_slice())),
                None => generate_dedup_key(self.task_type.as_str(), None),
            },
        }
    }
}

/// Batch builder: defaults for group, priority, TTL and tags applied to
/// every task that lacks its own.
#[derive(Debug)]
pub struct BatchSubmission {
    pub default_group: Option<String>,
    pub default_priority: Option<Priority>,
    pub default_ttl_ms: Option<u64>,
    pub default_tags: TagMap,
    pub tasks: Vec<TaskSubmission>,
}

/// A task after the batch defaults (tags aside): a missing group takes the
/// default group, a normal priority takes the default priority, a missing
/// TTL takes the default TTL.
pub open spec fn with_batch_defaults(
    t: TaskSubmission,
    group: Option<String>,
    priority: Option<Priority>,
    ttl_ms: Option<u64>,
    tags: TagMap,
) -> TaskSubmission {
    TaskSubmission {
        group_key: if t.group_key is None && group is Some {
            group
        } else {
            t.group_key
        },
        priority: if t.priority.0 == NORMAL_VALUE && priority is Some {
            priority->0
        } else {
            t.priority
        },
        ttl_ms: if t.ttl_ms is None && ttl_ms is Some {
            ttl_ms
        } else {
            t.ttl_ms
        },
        tags,
        ..t
    }
}

impl Default for BatchSubmission {
    /// An empty batch with no defaults.
    fn default() -> (b: BatchSubmission)
        ensures
            b.default_group is None,
            b.default_priority is None,
            b.default_ttl_ms is None,
            b.default_tags@ == Map::<Seq<char>, Seq<char>>::empty(),
            b.tasks@.len() == 0,
    {
        BatchSubmission::new()
    }
}

impl BatchSubmission {
    /// An empty batch with no defaults.
    pub fn new() -> (b: BatchSubmission)
        ensures
            b.default_group is None,
            b.default_priority is None,
            b.default_ttl_ms is None,
            b.default_tags@ == Map::<Seq<char>, Seq<char>>::empty(),
            b.tasks@.len() == 0,
    {
        BatchSubmission {
            default_group: None,
            default_priority: None,
            default_ttl_ms: None,
            default_tags: TagMap::new(),
            tasks: Vec::new(),
        }
    }

    /// Default group for tasks without one.
    pub fn default_group(self, group: &str) -> (b: BatchSubmission)
        ensures
            b.default_group matches Some(g) && g@ == group@,
            b == (BatchSubmission { default_group: b.default_group, ..self }),
    {
        let mut b = self;
        b.default_group = Some(group.to_owned());
        b
    }

    /// Default TTL for tasks without one.
    pub fn default_ttl(self, ttl_ms: u64) -> (b: BatchSubmission)
        ensures
            b == (BatchSubmission { default_ttl_ms: Some(ttl_ms), ..self }),
    {
        let mut b = self;
        b.default_ttl_ms = Some(ttl_ms);
        b
    }

    /// Default priority for tasks still at normal priority.
    pub fn default_priority(self, priority: Priority) -> (b: BatchSubmission)
        ensures
            b == (BatchSubmission { default_priority: Some(priority), ..self }),
    {
        let mut b = self;
        b.default_priority = Some(priority);
        b
    }

    /// Default tag for tasks without that key.
    pub fn default_tag(self, key: String, value: String) -> (b: BatchSubmission)
        ensures
            b.default_tags@ == self.default_tags@.insert(key@, value@),
            b == (BatchSubmission { default_tags: b.default_tags, ..self }),
    {
        let mut b = self;
        let mut tags = b.default_tags;
        tags.insert(key, value);
        b.default_tags = tags;
        b
    }

    /// Add a task.
    pub fn task(self, sub: TaskSubmission) -> (b: BatchSubmission)
        ensures
            b.tasks@ == self.tasks@.push(sub),
            b == (BatchSubmission { tasks: b.tasks, ..self }),
    {
        let mut b = self;
        let mut tasks = b.tasks;
        tasks.push(sub);
        b.tasks = tasks;
        b
    }

    /// Add several tasks.
    pub fn tasks(self, subs: Vec<TaskSubmission>) -> (b: BatchSubmission)
        ensures
            b.tasks@ == self.tasks@ + subs@,
            b == (BatchSubmission { tasks: b.tasks, ..self }),
    {
        let mut b = self;
        let mut tasks = b.tasks;
        let mut subs = subs;
        tasks.append(&mut subs);
        b.tasks = tasks;
        b
    }

    fn apply_defaults(
        t: TaskSubmission,
        group: &Option<String>,
        priority: Option<Priority>,
        ttl_ms: Option<u64>,
        default_tags: &TagMap,
    ) -> (r: TaskSubmission)
        ensures
            r == with_batch_defaults(t, *group, priority, ttl_ms, r.tags),
            r.tags@ == default_tags@.union_prefer_right(t.tags@),
    {
        let mut t = t;
        if t.group_key.is_none() {
            match group {
                Some(g) => {
                    t.group_key = Some(g.clone());
                },
                None => {},
            }
        }
        if t.priority.0 == NORMAL_VALUE {
            match priority {
                Some(p) => {
                    t.priority = p;
                },
                None => {},
            }
        }
        if t.ttl_ms.is_none() {
            match ttl_ms {
                Some(d) => {
                    t.ttl_ms = Some(d);
                },
                None => {},
            }
        }
        let mut tags = t.tags;
        let ghost own = tags@;
        let n = default_tags.len();
        proof {
            default_tags.lemma_prefix_full();
            assert(default_tags.entry_seq_map_prefix(0).union_prefer_right(own) =~= own);
        }
        let mut i: usize = 0;
        while i < n
            invariant
                n == default_tags.entry_seq().len(),
                n == default_tags@.len(),
                i <= n,
                default_tags.entry_seq_map_prefix(i as int).union_prefer_right(own) == tags@,
            decreases n - i,
        {
            let (k, v) = default_tags.entry_at(i);
            proof {
                default_tags.lemma_prefix_step(i as int);
            }
            tags.insert_if_absent(k.clone(), v.clone());
            proof {
                let pre = default_tags.entry_seq_map_prefix(i as int);
                let post = default_tags.entry_seq_map_prefix(i as int + 1);
                assert(!pre.contains_key(k@));
                assert(post.union_prefer_right(own) =~= tags@);
            }
            i = i + 1;
        }
        proof {
            default_tags.lemma_prefix_full();
        }
        t.tags = tags;
        t
    }

    /// Apply the defaults and return the submissions in order.
    pub fn build(self) -> (r: Vec<TaskSubmission>)
        ensures
            r@.len() == self.tasks@.len(),
            forall|i: int|
                0 <= i < r@.len() ==> #[trigger] r@[i] == with_batch_defaults(
                    self.tasks@[i],
                    self.default_group,
                    self.default_priority,
                    self.default_ttl_ms,
                    r@[i].tags,
                ) && r@[i].tags@ == self.default_tags@.union_prefer_right(self.tasks@[i].tags@),
    {
        let BatchSubmission { default_group, default_priority, default_ttl_ms, default_tags, tasks } =
            self;
        let ghost orig = tasks@;
        let mut rest = tasks;
        let mut reversed: Vec<TaskSubmission> = Vec::new();
        while rest.len() > 0
            invariant
                rest@.len() + reversed@.len() == orig.len(),
                rest@ == orig.take(rest@.len() as int),
                forall|k: int| 0 <= k < reversed@.len() ==> #[trigger] reversed@[k] == orig[orig.len() - 1 - k],
            decreases rest@.len(),
        {
            let t = rest.pop().unwrap();
            reversed.push(t);
            proof {
                assert(rest@ =~= orig.take(rest@.len() as int));
            }
        }
        let mut out: Vec<TaskSubmission> = Vec::new();
        while reversed.len() > 0
            invariant
                out@.len() + reversed@.len() == orig.len(),
                forall|k: int| 0 <= k < reversed@.len() ==> #[trigger] reversed@[k] == orig[orig.len() - 1 - k],
                forall|k: int|
                    0 <= k < out@.len() ==> #[trigger] out@[k] == with_batch_defaults(
                        orig[k],
                        default_group,
                        default_priority,
                        default_ttl_ms,
                        out@[k].tags,
                    ) && out@[k].tags@ == default_tags@.union_prefer_right(orig[k].tags@),
            decreases reversed@.len(),
        {
            let t = reversed.pop().unwrap();
            let r = BatchSubmission::apply_defaults(t, &default_group, default_priority, default_ttl_ms, &default_tags);
            out.push(r);
        }
        out
    }
}

} // verus!
