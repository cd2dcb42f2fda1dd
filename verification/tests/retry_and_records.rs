use taskmill::priority::Priority;
use taskmill::task::builder::{inherit_from_parent, ModuleSubmitDefaults, SubmitBuilder, TypedTaskDefaults};
use taskmill::task::io::IoBudget;
use taskmill::task::pause::PauseReasons;
use taskmill::task::record::{lookup_result, TaskLookup, TaskRecord};
use taskmill::task::retry::{full_jitter_ms, linear_delay_nanos};
use taskmill::task::status::{DependencyFailurePolicy, TaskStatus, TtlFrom};
use taskmill::task::submission::TaskSubmission;
use taskmill::task::tags::TagMap;

const SEC: u128 = 1_000_000_000;

#[test]
fn linear_increases_by_increment() {
    assert_eq!(linear_delay_nanos(SEC, 2 * SEC, 20 * SEC, 0), SEC);
    assert_eq!(linear_delay_nanos(SEC, 2 * SEC, 20 * SEC, 1), 3 * SEC);
    assert_eq!(linear_delay_nanos(SEC, 2 * SEC, 20 * SEC, 5), 11 * SEC);
}

#[test]
fn linear_clamps_at_max() {
    // retry_count=10 -> 1 + 2*10 = 21, clamped to 10
    assert_eq!(linear_delay_nanos(SEC, 2 * SEC, 10 * SEC, 10), 10 * SEC);
}

#[test]
fn jitter_within_bounds() {
    for _ in 0..100 {
        assert!(full_jitter_ms(1_000) <= 1_000);
        assert!(full_jitter_ms(32_000) <= 32_000);
    }
    assert_eq!(full_jitter_ms(0), 0);
}

#[test]
fn jitter_is_not_the_base() {
    // Over many draws from 0..=1_000_000 at least one differs from the base.
    let differs = (0..50).any(|_| full_jitter_ms(1_000_000) != 1_000_000);
    assert!(differs);
}

fn record(task_type: &str) -> TaskRecord {
    TaskRecord {
        id: 42,
        task_type: task_type.into(),
        key: "abc".into(),
        label: "Test task".into(),
        priority: Priority::normal(),
        status: TaskStatus::Running,
        payload: None,
        expected_io: IoBudget::default(),
        retry_count: 0,
        last_error: None,
        created_at_ms: 1_000_000,
        started_at_ms: Some(1_010_000),
        requeue: false,
        requeue_priority: None,
        parent_id: None,
        fail_fast: true,
        group_key: None,
        ttl_seconds: Some(60),
        ttl_from: TtlFrom::Submission,
        expires_at_ms: None,
        run_after_ms: None,
        recurring_interval_secs: None,
        recurring_max_executions: None,
        recurring_execution_count: 0,
        recurring_paused: false,
        dependencies: Vec::new(),
        on_dependency_failure: DependencyFailurePolicy::Cancel,
        tags: TagMap::new(),
        max_retries: None,
        memo: None,
        pause_reasons: PauseReasons::none(),
        pause_duration_ms: 0,
        paused_at_ms: None,
    }
}

#[test]
fn record_module_name() {
    assert_eq!(record("media::thumbnail").module_name(), Some("media"));
    assert_eq!(record("a::b::c").module_name(), Some("a"));
    assert_eq!(record("plain").module_name(), None);
}

#[test]
fn remaining_ttl_counts_from_start() {
    let r = record("t");
    // 60 s TTL from creation at 1_000_000 ms; 15 s later 45 s remain.
    assert_eq!(r.remaining_ttl(1_015_000), Some(45_000));
    assert_eq!(r.remaining_ttl(1_060_000), None);
    assert_eq!(r.remaining_ttl(900_000), Some(60_000));
    let mut r2 = record("t");
    r2.ttl_from = TtlFrom::FirstAttempt;
    assert_eq!(r2.remaining_ttl(1_015_000), Some(55_000));
    r2.started_at_ms = None;
    assert_eq!(r2.remaining_ttl(1_015_000), None);
    let mut r3 = record("t");
    r3.ttl_seconds = None;
    assert_eq!(r3.remaining_ttl(1_015_000), None);
}

#[test]
fn builder_layers_and_prefix() {
    let sub = TaskSubmission::new("thumbnail");
    let mut md = ModuleSubmitDefaults::empty();
    md.priority = Some(Priority::high());
    md.group = Some("g".into());
    let b = SubmitBuilder::new(sub, "media".into(), md).ttl(5_000).tag("k".into(), "v".into());
    let s = b.resolve();
    assert_eq!(s.task_type, "media::thumbnail");
    assert_eq!(s.label, "media::thumbnail");
    assert_eq!(s.priority, Priority::high());
    assert_eq!(s.group_key.as_deref(), Some("g"));
    assert_eq!(s.ttl_ms, Some(5_000));
    assert_eq!(s.tags.get("k").map(|v| v.as_str()), Some("v"));
}

#[test]
fn builder_explicit_priority_beats_module_default_on_untyped_path() {
    let sub = TaskSubmission::new("t").priority(Priority::realtime());
    let mut md = ModuleSubmitDefaults::empty();
    md.priority = Some(Priority::background());
    let s = SubmitBuilder::new(sub, String::new(), md).resolve();
    assert_eq!(s.priority, Priority::realtime());
    assert_eq!(s.task_type, "t");
}

#[test]
fn builder_typed_path_module_wins() {
    let sub = TaskSubmission::new("t");
    let mut md = ModuleSubmitDefaults::empty();
    md.priority = Some(Priority::background());
    let td = TypedTaskDefaults {
        priority: Priority::realtime(),
        group: Some("typed".into()),
        ttl_ms: None,
        tags: TagMap::new(),
    };
    let s = SubmitBuilder::new(sub, String::new(), md).with_typed_defaults(td).resolve();
    assert_eq!(s.priority, Priority::background());
    assert_eq!(s.group_key.as_deref(), Some("typed"));
}

#[test]
fn builder_overrides_win() {
    let sub = TaskSubmission::new("t").group("sub");
    let b = SubmitBuilder::new(sub, String::new(), ModuleSubmitDefaults::empty())
        .priority(Priority::idle())
        .group("over".into())
        .key("k".into())
        .run_after(10, 1_000)
        .depends_on(3)
        .parent(9)
        .fail_fast(false);
    let s = b.resolve();
    assert_eq!(s.priority, Priority::idle());
    assert_eq!(s.group_key.as_deref(), Some("over"));
    assert_eq!(s.dedup_key.as_deref(), Some("k"));
    assert_eq!(s.label, "k");
    assert_eq!(s.run_after_ms, Some(1_010));
    assert_eq!(s.dependencies, vec![3]);
    assert_eq!(s.parent_id, Some(9));
    assert!(!s.fail_fast);
}

#[test]
fn child_inherits_parent_ttl_and_tags() {
    let mut parent = record("p");
    parent.tags.insert("env".into(), "prod".into());
    parent.tags.insert("owner".into(), "alice".into());
    let child = TaskSubmission::new("c").tag("env".into(), "dev".into());
    let s = inherit_from_parent(child, &parent, 1_015_000);
    assert_eq!(s.ttl_ms, Some(45_000));
    assert_eq!(s.ttl_from, TtlFrom::Submission);
    assert_eq!(s.tags.get("env").map(|v| v.as_str()), Some("dev"));
    assert_eq!(s.tags.get("owner").map(|v| v.as_str()), Some("alice"));
    // A TTL set on the child is kept.
    let child = TaskSubmission::new("c").ttl(1_000);
    let s = inherit_from_parent(child, &parent, 1_015_000);
    assert_eq!(s.ttl_ms, Some(1_000));
}

#[test]
fn lookup_prefers_active_task() {
    match lookup_result(Some(record("t")), None) {
        TaskLookup::Active(r) => assert_eq!(r.id, 42),
        other => panic!("expected active, got {other:?}"),
    }
    assert!(matches!(lookup_result(None, None), TaskLookup::NotFound));
}

#[test]
fn recurring_schedule_info_from_record() {
    let mut r = record("media::sync");
    r.recurring_interval_secs = Some(300);
    r.recurring_execution_count = 4;
    r.recurring_max_executions = Some(10);
    r.run_after_ms = Some(5_000);
    let info = r.schedule_info();
    assert_eq!(info.task_id, 42);
    assert_eq!(info.task_type, "media::sync");
    assert_eq!(info.interval_secs, 300);
    assert_eq!(info.next_run_ms, Some(5_000));
    assert_eq!(info.execution_count, 4);
    assert_eq!(info.max_executions, Some(10));
    assert!(!info.paused);
    assert_eq!(record("x").schedule_info().interval_secs, 0);
}

#[test]
fn submission_expected_net_io() {
    let sub = TaskSubmission::new("upload").expected_net_io(5000, 10000);
    assert_eq!(sub.expected_io.net_rx, 5000);
    assert_eq!(sub.expected_io.net_tx, 10000);
    assert_eq!(sub.expected_io.disk_read, 0);
}
