//! Resolution of a submission through layers of defaults: per-call
//! overrides, module defaults, typed-task defaults, and the parent's TTL and
//! tags.

use vstd::prelude::*;
use vstd::string::*;
use crate::priority::{Priority, NORMAL_VALUE};
use crate::task::record::{ttl_left, TaskRecord};
use crate::task::status::{DependencyFailurePolicy, TtlFrom};
use crate::task::submission::TaskSubmission;
use crate::task::tags::TagMap;

verus! {

/// Defaults applied to every submission made through a module.
#[derive(Debug)]
pub struct ModuleSubmitDefaults {
    pub priority: Option<Priority>,
    pub group: Option<String>,
    pub ttl_ms: Option<u64>,
    /// Merged into every submission; the submission's own tags win.
    pub tags: TagMap,
}

impl ModuleSubmitDefaults {
    /// No module defaults.
    pub fn empty() -> (d: ModuleSubmitDefaults)
        ensures
            d.priority is None,
            d.group is None,
            d.ttl_ms is None,
            d.tags@.len() == 0,
    {
        ModuleSubmitDefaults { priority: None, group: None, ttl_ms: None, tags: TagMap::new() }
    }
}

/// The values a typed task declares, below module defaults in precedence.
#[derive(Debug)]
pub struct TypedTaskDefaults {
    pub priority: Priority,
    pub group: Option<String>,
    pub ttl_ms: Option<u64>,
    pub tags: TagMap,
}

/// A submission with module defaults and per-call overrides, resolved into
/// the final submission by [`SubmitBuilder::resolve`].
#[derive(Debug)]
pub struct SubmitBuilder {
    pub submission: TaskSubmission,
    /// Prefix of the task type; empty for none.
    pub module_name: String,
    pub module_defaults: ModuleSubmitDefaults,
    /// Present on the typed path: module defaults then override these.
    pub typed_defaults: Option<TypedTaskDefaults>,
    pub override_priority: Option<Priority>,
    pub override_group: Option<String>,
    pub override_key: Option<String>,
    pub override_run_after_ms: Option<i64>,
    pub override_ttl_ms: Option<u64>,
    pub override_depends_on: Vec<i64>,
    pub override_on_dependency_failure: Option<DependencyFailurePolicy>,
    pub override_tags: TagMap,
    pub override_parent_id: Option<i64>,
    pub override_fail_fast: Option<bool>,
}

/// The task type after prefixing with the module name.
pub open spec fn prefixed_type(module: Seq<char>, task_type: Seq<char>) -> Seq<char> {
    if module.len() == 0 {
        task_type
    } else {
        module + "::"@ + task_type
    }
}

/// The priority after the default layers.
pub open spec fn layered_priority(sub: TaskSubmission, md: ModuleSubmitDefaults, td: Option<TypedTaskDefaults>) -> Priority {
    match td {
        Some(td) => match md.priority {
            Some(p) => p,
            None => td.priority,
        },
        None => match md.priority {
            Some(p) => if sub.priority.0 == NORMAL_VALUE {
                p
            } else {
                sub.priority
            },
            None => sub.priority,
        },
    }
}

/// The group after the default layers.
pub open spec fn layered_group(sub: TaskSubmission, md: ModuleSubmitDefaults, td: Option<TypedTaskDefaults>) -> Option<Seq<char>> {
    let own = match td {
        Some(td) => td.group,
        None => sub.group_key,
    };
    let own_view = match own {
        Some(g) => Some(g@),
        None => None,
    };
    match md.group {
        Some(g) => if td is Some || own is None {
            Some(g@)
        } else {
            own_view
        },
        None => own_view,
    }
}

/// The TTL after the default layers.
pub open spec fn layered_ttl(sub: TaskSubmission, md: ModuleSubmitDefaults, td: Option<TypedTaskDefaults>) -> Option<u64> {
    let own = match td {
        Some(td) => td.ttl_ms,
        None => sub.ttl_ms,
    };
    match md.ttl_ms {
        Some(t) => if td is Some || own is None {
            Some(t)
        } else {
            own
        },
        None => own,
    }
}

/// The tags after the default layers: module tags fill in keys the
/// submission (or typed task) lacks.
pub open spec fn layered_tags(sub: TaskSubmission, md: ModuleSubmitDefaults, td: Option<TypedTaskDefaults>) -> Map<Seq<char>, Seq<char>> {
    let own = match td {
        Some(td) => td.tags@,
        None => sub.tags@,
    };
    md.tags@.union_prefer_right(own)
}

/// The resolution order of the default layers. On the typed path a module
/// default beats the typed task's value; on the untyped path a value set on
/// the submission beats the module default, which only fills in where the
/// submission is at its zero value (normal priority, no group, no TTL).
/// Tags: the submission's (or typed task's) own tags win on conflicting
/// keys, and module tags fill in the rest.
pub proof fn lemma_resolution_order(sub: TaskSubmission, md: ModuleSubmitDefaults, td: Option<TypedTaskDefaults>)
    ensures
        td matches Some(t) ==> layered_priority(sub, md, td) == match md.priority {
            Some(p) => p,
            None => t.priority,
        },
        td is None && sub.priority.0 != NORMAL_VALUE ==> layered_priority(sub, md, td) == sub.priority,
        td is None && sub.priority.0 == NORMAL_VALUE && md.priority is Some ==> layered_priority(sub, md, td)
            == md.priority->0,
        td is None && sub.group_key is Some ==> layered_group(sub, md, td) == Some(sub.group_key->0@),
        td is None && sub.group_key is None && md.group is Some ==> layered_group(sub, md, td) == Some(
            md.group->0@,
        ),
        td is None && sub.group_key is None && md.group is None ==> layered_group(sub, md, td) is None,
        td is Some && md.group is Some ==> layered_group(sub, md, td) == Some(md.group->0@),
        td is Some && md.group is None ==> layered_group(sub, md, td) == match td->0.group {
            Some(g) => Some(g@),
            None => None,
        },
        td is None && sub.ttl_ms is Some ==> layered_ttl(sub, md, td) == sub.ttl_ms,
        td is None && sub.ttl_ms is None ==> layered_ttl(sub, md, td) == md.ttl_ms,
        td is Some && md.ttl_ms is Some ==> layered_ttl(sub, md, td) == md.ttl_ms,
        td is Some && md.ttl_ms is None ==> layered_ttl(sub, md, td) == td->0.ttl_ms,
        ({
            let own = match td {
                Some(t) => t.tags@,
                None => sub.tags@,
            };
            &&& forall|k: Seq<char>| #[trigger] own.contains_key(k) ==> layered_tags(sub, md, td)[k] == own[k]
            &&& forall|k: Seq<char>|
                #[trigger] md.tags@.contains_key(k) && !own.contains_key(k) ==> layered_tags(sub, md, td)[k]
                    == md.tags@[k]
            &&& layered_tags(sub, md, td).dom() == own.dom().union(md.tags@.dom())
        }),
{
    let own = match td {
        Some(t) => t.tags@,
        None => sub.tags@,
    };
    assert(layered_tags(sub, md, td).dom() =~= own.dom().union(md.tags@.dom()));
}

fn merge_missing(tags: &mut TagMap, defaults: &TagMap)
    ensures
        final(tags)@ == defaults@.union_prefer_right(old(tags)@),
{
    let ghost own = tags@;
    let n = defaults.len();
    proof {
        defaults.lemma_prefix_full();
        assert(defaults.entry_seq_map_prefix(0).union_prefer_right(own) =~= own);
    }
    let mut i: usize = 0;
    while i < n
        invariant
            n == defaults.entry_seq().len(),
            n == defaults@.len(),
            i <= n,
            defaults.entry_seq_map_prefix(i as int).union_prefer_right(own) == tags@,
        decreases n - i,
    {
        let (k, v) = defaults.entry_at(i);
        proof {
            defaults.lemma_prefix_step(i as int);
        }
        tags.insert_if_absent(k.clone(), v.clone());
        proof {
            let post = defaults.entry_seq_map_prefix(i as int + 1);
            assert(post.union_prefer_right(own) =~= tags@);
        }
        i = i + 1;
    }
    proof {
        defaults.lemma_prefix_full();
    }
}

fn overwrite_all(tags: &mut TagMap, overrides: &TagMap)
    ensures
        final(tags)@ == old(tags)@.union_prefer_right(overrides@),
{
    let ghost own = tags@;
    let n = overrides.len();
    proof {
        overrides.lemma_prefix_full();
        assert(own.union_prefer_right(overrides.entry_seq_map_prefix(0)) =~= own);
    }
    let mut i: usize = 0;
    while i < n
        invariant
            n == overrides.entry_seq().len(),
            n == overrides@.len(),
            i <= n,
            own.union_prefer_right(overrides.entry_seq_map_prefix(i as int)) == tags@,
        decreases n - i,
    {
        let (k, v) = overrides.entry_at(i);
        proof {
            overrides.lemma_prefix_step(i as int);
        }
        tags.insert(k.clone(), v.clone());
        proof {
            let post = overrides.entry_seq_map_prefix(i as int + 1);
            assert(own.union_prefer_right(post) =~= tags@);
        }
        i = i + 1;
    }
    proof {
        overrides.lemma_prefix_full();
    }
}

impl SubmitBuilder {
    /// A builder for `submission` through the module `module_name`.
    pub fn new(submission: TaskSubmission, module_name: String, module_defaults: ModuleSubmitDefaults) -> (b:
        SubmitBuilder)
        ensures
            b.submission == submission,
            b.module_name == module_name,
            b.module_defaults == module_defaults,
            b.typed_defaults is None,
            b.override_priority is None,
            b.override_group is None,
            b.override_key is None,
            b.override_run_after_ms is None,
            b.override_ttl_ms is None,
            b.override_depends_on@.len() == 0,
            b.override_on_dependency_failure is None,
            b.override_tags@.len() == 0,
            b.override_parent_id is None,
            b.override_fail_fast is None,
    {
        SubmitBuilder {
            submission,
            module_name,
            module_defaults,
            typed_defaults: None,
            override_priority: None,
            override_group: None,
            override_key: None,
            override_run_after_ms: None,
            override_ttl_ms: None,
            override_depends_on: Vec::new(),
            override_on_dependency_failure: None,
            override_tags: TagMap::new(),
            override_parent_id: None,
            override_fail_fast: None,
        }
    }

    /// Take the typed-task values as the baseline below module defaults.
    pub fn with_typed_defaults(self, td: TypedTaskDefaults) -> (b: SubmitBuilder)
        ensures
            b == (SubmitBuilder { typed_defaults: Some(td), ..self }),
    {
        let mut b = self;
        b.typed_defaults = Some(td);
        b
    }

    /// Override the priority.
    pub fn priority(self, priority: Priority) -> (b: SubmitBuilder)
        ensures
            b == (SubmitBuilder { override_priority: Some(priority), ..self }),
    {
        let mut b = self;
        b.override_priority = Some(priority);
        b
    }

    /// Override the group.
    pub fn group(self, group: String) -> (b: SubmitBuilder)
        ensures
            b == (SubmitBuilder { override_group: Some(group), ..self }),
    {
        let mut b = self;
        b.override_group = Some(group);
        b
    }

    /// Override the dedup key (and label).
    pub fn key(self, key: String) -> (b: SubmitBuilder)
        ensures
            b == (SubmitBuilder { override_key: Some(key), ..self }),
    {
        let mut b = self;
        b.override_key = Some(key);
        b
    }

    /// Delay dispatch by `delay_ms` from the instant `now_ms` (the caller
    /// reads the clock).
    pub fn run_after(self, delay_ms: u64, now_ms: i64) -> (b: SubmitBuilder)
        requires
            crate::clock::representable(now_ms as int),
            crate::clock::representable(now_ms + delay_ms),
        ensures
            b == (SubmitBuilder { override_run_after_ms: Some((now_ms + delay_ms) as i64), ..self }),
    {
        let mut b = self;
        b.override_run_after_ms = Some(now_ms + delay_ms as i64);
        b
    }

    /// Override the TTL.
    pub fn ttl(self, ttl_ms: u64) -> (b: SubmitBuilder)
        ensures
            b == (SubmitBuilder { override_ttl_ms: Some(ttl_ms), ..self }),
    {
        let mut b = self;
        b.override_ttl_ms = Some(ttl_ms);
        b
    }

    /// Add a dependency (merged with the submission's).
    pub fn depends_on(self, task_id: i64) -> (b: SubmitBuilder)
        ensures
            b.override_depends_on@ == self.override_depends_on@.push(task_id),
            b == (SubmitBuilder { override_depends_on: b.override_depends_on, ..self }),
    {
        let mut b = self;
        let mut d = b.override_depends_on;
        d.push(task_id);
        b.override_depends_on = d;
        b
    }

    /// Add several dependencies (merged with the submission's).
    pub fn depends_on_all(self, ids: Vec<i64>) -> (b: SubmitBuilder)
        ensures
            b.override_depends_on@ == self.override_depends_on@ + ids@,
            b == (SubmitBuilder { override_depends_on: b.override_depends_on, ..self }),
    {
        let mut b = self;
        let mut d = b.override_depends_on;
        let mut ids = ids;
        d.append(&mut ids);
        b.override_depends_on = d;
        b
    }

    /// Override the dependency-failure policy.
    pub fn on_dependency_failure(self, policy: DependencyFailurePolicy) -> (b: SubmitBuilder)
        ensures
            b == (SubmitBuilder { override_on_dependency_failure: Some(policy), ..self }),
    {
        let mut b = self;
        b.override_on_dependency_failure = Some(policy);
        b
    }

    /// Add a tag that wins over submission and module tags.
    pub fn tag(self, key: String, value: String) -> (b: SubmitBuilder)
        ensures
            b.override_tags@ == self.override_tags@.insert(key@, value@),
            b == (SubmitBuilder { override_tags: b.override_tags, ..self }),
    {
        let mut b = self;
        let mut t = b.override_tags;
        t.insert(key, value);
        b.override_tags = t;
        b
    }

    /// Override the fail-fast flag.
    pub fn fail_fast(self, fail_fast: bool) -> (b: SubmitBuilder)
        ensures
            b == (SubmitBuilder { override_fail_fast: Some(fail_fast), ..self }),
    {
        let mut b = self;
        b.override_fail_fast = Some(fail_fast);
        b
    }

    /// Set the parent task (no dependency is implied).
    pub fn parent(self, parent_id: i64) -> (b: SubmitBuilder)
        ensures
            b == (SubmitBuilder { override_parent_id: Some(parent_id), ..self }),
    {
        let mut b = self;
        b.override_parent_id = Some(parent_id);
        b
    }

    /// Resolve the final submission. Precedence, highest first: per-call
    /// overrides; on the typed path module defaults then typed-task values,
    /// on the plain path the submission's own values then module defaults
    /// filling what it lacks (a normal priority counts as unset). The task
    /// type is prefixed with the module name, and a label equal to the old
    /// type follows it.
    pub fn resolve(self) -> (s: TaskSubmission)
        ensures
            s.task_type@ == prefixed_type(self.module_name@, self.submission.task_type@),
            s.label@ == match self.override_key {
                Some(k) => k@,
                None => if self.module_name@.len() > 0 && self.submission.label@ == self.submission.task_type@ {
                    prefixed_type(self.module_name@, self.submission.task_type@)
                } else {
                    self.submission.label@
                },
            },
            s.dedup_key == match self.override_key {
                Some(k) => Some(k),
                None => self.submission.dedup_key,
            },
            s.priority == match self.override_priority {
                Some(p) => p,
                None => layered_priority(self.submission, self.module_defaults, self.typed_defaults),
            },
            match s.group_key {
                Some(g) => (match self.override_group {
                    Some(o) => Some(o@),
                    None => layered_group(self.submission, self.module_defaults, self.typed_defaults),
                }) == Some(g@),
                None => self.override_group is None && layered_group(
                    self.submission,
                    self.module_defaults,
                    self.typed_defaults,
                ) is None,
            },
            s.ttl_ms == match self.override_ttl_ms {
                Some(t) => Some(t),
                None => layered_ttl(self.submission, self.module_defaults, self.typed_defaults),
            },
            s.run_after_ms == match self.override_run_after_ms {
                Some(r) => Some(r),
                None => self.submission.run_after_ms,
            },
            s.dependencies@ == self.submission.dependencies@ + self.override_depends_on@,
            s.on_dependency_failure == match self.override_on_dependency_failure {
                Some(p) => p,
                None => self.submission.on_dependency_failure,
            },
            s.tags@ == layered_tags(self.submission, self.module_defaults, self.typed_defaults).union_prefer_right(
                self.override_tags@,
            ),
            s.parent_id == match self.override_parent_id {
                Some(p) => Some(p),
                None => self.submission.parent_id,
            },
            s.fail_fast == match self.override_fail_fast {
                Some(f) => f,
                None => self.submission.fail_fast,
            },
            s.payload == self.submission.payload,
            s.payload_error == self.submission.payload_error,
            s.expected_io == self.submission.expected_io,
            s.on_duplicate == self.submission.on_duplicate,
            s.ttl_from == self.submission.ttl_from,
            s.recurring == self.submission.recurring,
            s.max_retries == self.submission.max_retries,
    {
        let SubmitBuilder {
            submission,
            module_name,
            module_defaults,
            typed_defaults,
            override_priority,
            override_group,
            override_key,
            override_run_after_ms,
            override_ttl_ms,
            override_depends_on,
            override_on_dependency_failure,
            override_tags,
            override_parent_id,
            override_fail_fast,
        } = self;
        let sub = apply_prefix(submission, &module_name);
        let sub = apply_defaults(sub, module_defaults, typed_defaults);
        let overrides = SubmitOverrides {
            priority: override_priority,
            group: override_group,
            key: override_key,
            run_after_ms: override_run_after_ms,
            ttl_ms: override_ttl_ms,
            depends_on: override_depends_on,
            on_dependency_failure: override_on_dependency_failure,
            tags: override_tags,
            parent_id: override_parent_id,
            fail_fast: override_fail_fast,
        };
        apply_overrides(sub, overrides)
    }
}

/// The per-call overrides of a builder.
#[derive(Debug)]
pub struct SubmitOverrides {
    pub priority: Option<Priority>,
    pub group: Option<String>,
    pub key: Option<String>,
    pub run_after_ms: Option<i64>,
    pub ttl_ms: Option<u64>,
    pub depends_on: Vec<i64>,
    pub on_dependency_failure: Option<DependencyFailurePolicy>,
    pub tags: TagMap,
    pub parent_id: Option<i64>,
    pub fail_fast: Option<bool>,
}

/// Prefix the task type with the module name (when one is given); a label
/// equal to the old type follows it.
fn apply_prefix(sub: TaskSubmission, module_name: &String) -> (s: TaskSubmission)
    ensures
        s.task_type@ == prefixed_type(module_name@, sub.task_type@),
        s.label@ == if module_name@.len() > 0 && sub.label@ == sub.task_type@ {
            prefixed_type(module_name@, sub.task_type@)
        } else {
            sub.label@
        },
        s == (TaskSubmission { task_type: s.task_type, label: s.label, ..sub }),
{
    let mut sub = sub;
    if module_name.as_str().unicode_len() > 0 {
        let old_type = sub.task_type.clone();
        let mut t = module_name.as_str().to_owned();
        t.append("::");
        t.append(old_type.as_str());
        if sub.label == old_type {
            sub.label = t.clone();
        }
        sub.task_type = t;
    }
    proof {
        reveal_strlit("::");
    }
    sub
}

/// Apply the typed-task and module default layers.
fn apply_defaults(sub: TaskSubmission, md: ModuleSubmitDefaults, td: Option<TypedTaskDefaults>) -> (s: TaskSubmission)
    ensures
        s.priority == layered_priority(sub, md, td),
        match s.group_key {
            Some(g) => layered_group(sub, md, td) == Some(g@),
            None => layered_group(sub, md, td) is None,
        },
        s.ttl_ms == layered_ttl(sub, md, td),
        s.tags@ == layered_tags(sub, md, td),
        s == (TaskSubmission { priority: s.priority, group_key: s.group_key, ttl_ms: s.ttl_ms, tags: s.tags, ..sub }),
{
    let ghost sub0 = sub;
    let ghost md0 = md;
    let ghost td0 = td;
    let mut sub = sub;
    let ModuleSubmitDefaults { priority: m_priority, group: m_group, ttl_ms: m_ttl, tags: m_tags } = md;
    match td {
        Some(td) => {
            let TypedTaskDefaults { priority, group, ttl_ms, tags } = td;
            sub.priority = priority;
            sub.group_key = group;
            sub.ttl_ms = ttl_ms;
            let mut merged = tags;
            merge_missing(&mut merged, &m_tags);
            sub.tags = merged;
            sub = apply_module_scalar_defaults(sub, m_priority, m_group, m_ttl, true);
        },
        None => {
            sub = apply_module_scalar_defaults(sub, m_priority, m_group, m_ttl, false);
            let mut merged = sub.tags;
            merge_missing(&mut merged, &m_tags);
            sub.tags = merged;
        },
    }
    sub
}

/// Apply the module's scalar defaults (priority, group, TTL). When
/// `unconditional`, each one that is set replaces the submission's value;
/// otherwise it fills in only where the submission is at its zero value
/// (normal priority, no group, no TTL).
fn apply_module_scalar_defaults(
    sub: TaskSubmission,
    m_priority: Option<Priority>,
    m_group: Option<String>,
    m_ttl: Option<u64>,
    unconditional: bool,
) -> (s: TaskSubmission)
    ensures
        s.priority == match m_priority {
            Some(p) => if unconditional || sub.priority.0 == NORMAL_VALUE { p } else { sub.priority },
            None => sub.priority,
        },
        s.group_key == match m_group {
            Some(g) => if unconditional || sub.group_key is None { Some(g) } else { sub.group_key },
            None => sub.group_key,
        },
        s.ttl_ms == match m_ttl {
            Some(t) => if unconditional || sub.ttl_ms is None { Some(t) } else { sub.ttl_ms },
            None => sub.ttl_ms,
        },
        s == (TaskSubmission { priority: s.priority, group_key: s.group_key, ttl_ms: s.ttl_ms, ..sub }),
{
    let mut sub = sub;
    match m_priority {
        Some(p) => {
            if unconditional || sub.priority.0 == NORMAL_VALUE {
                sub.priority = p;
            }
        },
        None => {},
    }
    match m_group {
        Some(g) => {
            if unconditional || sub.group_key.is_none() {
                sub.group_key = Some(g);
            }
        },
        None => {},
    }
    match m_ttl {
        Some(t) => {
            if unconditional || sub.ttl_ms.is_none() {
                sub.ttl_ms = Some(t);
            }
        },
        None => {},
    }
    sub
}

/// Apply the per-call overrides: each one set replaces the value; the key
/// also becomes the label; dependencies are appended; override tags win.
fn apply_overrides(sub: TaskSubmission, o: SubmitOverrides) -> (s: TaskSubmission)
    ensures
        s.priority == match o.priority {
            Some(p) => p,
            None => sub.priority,
        },
        s.group_key == match o.group {
            Some(g) => Some(g),
            None => sub.group_key,
        },
        s.label@ == match o.key {
            Some(k) => k@,
            None => sub.label@,
        },
        s.dedup_key == match o.key {
            Some(k) => Some(k),
            None => sub.dedup_key,
        },
        s.run_after_ms == match o.run_after_ms {
            Some(r) => Some(r),
            None => sub.run_after_ms,
        },
        s.ttl_ms == match o.ttl_ms {
            Some(t) => Some(t),
            None => sub.ttl_ms,
        },
        s.dependencies@ == sub.dependencies@ + o.depends_on@,
        s.on_dependency_failure == match o.on_dependency_failure {
            Some(p) => p,
            None => sub.on_dependency_failure,
        },
        s.tags@ == sub.tags@.union_prefer_right(o.tags@),
        s.parent_id == match o.parent_id {
            Some(p) => Some(p),
            None => sub.parent_id,
        },
        s.fail_fast == match o.fail_fast {
            Some(f) => f,
            None => sub.fail_fast,
        },
        s.task_type == sub.task_type,
        s.payload == sub.payload,
        s.payload_error == sub.payload_error,
        s.expected_io == sub.expected_io,
        s.on_duplicate == sub.on_duplicate,
        s.ttl_from == sub.ttl_from,
        s.recurring == sub.recurring,
        s.max_retries == sub.max_retries,
{
    let SubmitOverrides {
        priority,
        group,
        key,
        run_after_ms,
        ttl_ms,
        depends_on,
        on_dependency_failure,
        tags,
        parent_id,
        fail_fast,
    } = o;
    let mut sub = sub;
    match priority {
        Some(p) => {
            sub.priority = p;
        },
        None => {},
    }
    match group {
        Some(g) => {
            sub.group_key = Some(g);
        },
        None => {},
    }
    match key {
        Some(k) => {
            sub.label = k.clone();
            sub.dedup_key = Some(k);
        },
        None => {},
    }
    match run_after_ms {
        Some(r) => {
            sub.run_after_ms = Some(r);
        },
        None => {},
    }
    match ttl_ms {
        Some(t) => {
            sub.ttl_ms = Some(t);
        },
        None => {},
    }
    let mut deps = sub.dependencies;
    let mut extra = depends_on;
    deps.append(&mut extra);
    sub.dependencies = deps;
    match on_dependency_failure {
        Some(p) => {
            sub.on_dependency_failure = p;
        },
        None => {},
    }
    let mut t = sub.tags;
    overwrite_all(&mut t, &tags);
    sub.tags = t;
    match parent_id {
        Some(p) => {
            sub.parent_id = Some(p);
        },
        None => {},
    }
    match fail_fast {
        Some(f) => {
            sub.fail_fast = f;
        },
        None => {},
    }
    sub
}

/// A child submitted with a parent inherits the parent's remaining TTL (as a
/// TTL from now) when no layer set one, and the parent's tags for keys it
/// lacks. An inherited TTL must fit the millisecond field; one that does not
/// reaches far past the instants a submission can be stored with.
pub fn inherit_from_parent(sub: TaskSubmission, parent: &TaskRecord, now_ms: i64) -> (s: TaskSubmission)
    requires
        sub.ttl_ms is None ==> (ttl_left(
            parent.ttl_seconds,
            parent.ttl_from,
            parent.created_at_ms,
            parent.started_at_ms,
            now_ms,
        ) matches Some(left) ==> left <= u64::MAX),
    ensures
        ({
            let left = ttl_left(parent.ttl_seconds, parent.ttl_from, parent.created_at_ms, parent.started_at_ms, now_ms);
            if sub.ttl_ms is None && left is Some {
                s.ttl_ms == Some(left->0 as u64) && s.ttl_from == TtlFrom::Submission
            } else {
                s.ttl_ms == sub.ttl_ms && s.ttl_from == sub.ttl_from
            }
        }),
        s.tags@ == parent.tags@.union_prefer_right(sub.tags@),
        s == (TaskSubmission { ttl_ms: s.ttl_ms, ttl_from: s.ttl_from, tags: s.tags, ..sub }),
{
    let mut s = sub;
    if s.ttl_ms.is_none() {
        match parent.remaining_ttl(now_ms) {
            Some(left) => {
                s.ttl_ms = Some(left as u64);
                s.ttl_from = TtlFrom::Submission;
            },
            None => {},
        }
    }
    let mut tags = s.tags;
    merge_missing(&mut tags, &parent.tags);
    s.tags = tags;
    s
}

} // verus!
