use taskmill::priority::Priority;
use taskmill::task::dedup::{generate_dedup_key, to_hex};
use taskmill::task::error::TaskError;
use taskmill::task::io::IoBudget;
use taskmill::task::outcome::{BatchOutcome, SubmitOutcome};
use taskmill::task::pause::{
    add_group_reason, add_module_reason, clear_pause_reason, pause_with_reason, resume_unconditionally,
    unblocked_state, PauseReasons, PAUSE_GROUP, PAUSE_MODULE, PAUSE_PREEMPTION,
};
use taskmill::task::status::{
    DependencyFailurePolicy, DuplicateStrategy, HistoryStatus, TaskStatus, TtlFrom,
};
use taskmill::task::submission::{BatchSubmission, RecurringSchedule, TaskSubmission};
use taskmill::task::tags::{validate_tags, TagMap};
use taskmill::task::typed::{TypedSettings, TypedTask};
use taskmill::store::error::StoreError;

fn tags_of(pairs: &[(&str, &str)]) -> TagMap {
    let mut t = TagMap::new();
    for (k, v) in pairs {
        t.insert(k.to_string(), v.to_string());
    }
    t
}

// ── Status names ────────────────────────────────────────────────────

#[test]
fn task_status_names_round_trip() {
    for s in [
        TaskStatus::Pending,
        TaskStatus::Running,
        TaskStatus::Paused,
        TaskStatus::Waiting,
        TaskStatus::Blocked,
    ] {
        assert_eq!(TaskStatus::from_str(s.as_str()), Ok(s));
    }
    assert_eq!(TaskStatus::Pending.as_str(), "pending");
    assert_eq!(TaskStatus::Blocked.as_str(), "blocked");
}

#[test]
fn task_status_unknown_name_is_error() {
    assert_eq!(
        TaskStatus::from_str("sleeping"),
        Err("unknown TaskStatus: sleeping".to_string())
    );
}

#[test]
fn history_status_names_round_trip() {
    for s in [
        HistoryStatus::Completed,
        HistoryStatus::Failed,
        HistoryStatus::Cancelled,
        HistoryStatus::Superseded,
        HistoryStatus::Expired,
        HistoryStatus::DependencyFailed,
        HistoryStatus::DeadLetter,
    ] {
        assert_eq!(HistoryStatus::from_str(s.as_str()), Ok(s));
    }
    assert_eq!(HistoryStatus::DeadLetter.as_str(), "dead_letter");
    assert_eq!(HistoryStatus::DependencyFailed.as_str(), "dependency_failed");
    assert_eq!(
        HistoryStatus::from_str("gone"),
        Err("unknown HistoryStatus: gone".to_string())
    );
}

#[test]
fn history_status_retry_increments() {
    assert!(HistoryStatus::Failed.increments_retries());
    assert!(HistoryStatus::DeadLetter.increments_retries());
    assert!(!HistoryStatus::Completed.increments_retries());
    assert!(!HistoryStatus::Cancelled.increments_retries());
}

#[test]
fn ttl_from_and_policy_names_round_trip() {
    assert_eq!(TtlFrom::from_str("submission"), Ok(TtlFrom::Submission));
    assert_eq!(TtlFrom::from_str("first_attempt"), Ok(TtlFrom::FirstAttempt));
    assert_eq!(TtlFrom::FirstAttempt.as_str(), "first_attempt");
    assert_eq!(
        TtlFrom::from_str("later"),
        Err("unknown TtlFrom: later".to_string())
    );
    for p in [
        DependencyFailurePolicy::Cancel,
        DependencyFailurePolicy::Fail,
        DependencyFailurePolicy::Ignore,
    ] {
        assert_eq!(DependencyFailurePolicy::from_str(p.as_str()), Ok(p));
    }
    assert_eq!(TtlFrom::default_value(), TtlFrom::Submission);
    assert_eq!(
        DependencyFailurePolicy::default_value(),
        DependencyFailurePolicy::Cancel
    );
    assert_eq!(DuplicateStrategy::default_value(), DuplicateStrategy::Skip);
}

// ── Pause reasons ───────────────────────────────────────────────────

#[test]
fn pause_reasons_with_and_without() {
    let r = PauseReasons::none().with(PauseReasons::group());
    assert!(r.contains(PauseReasons::group()));
    assert!(!r.contains(PauseReasons::module()));
    assert_eq!(r.bits(), PAUSE_GROUP);
    let r = r.with(PauseReasons::module());
    assert_eq!(r.bits(), PAUSE_GROUP | PAUSE_MODULE);
    let r = r.without(PauseReasons::group());
    assert_eq!(r.bits(), PAUSE_MODULE);
    assert!(r.without(PauseReasons::module()).is_empty());
    assert_eq!(PauseReasons::from_bits(5).bits(), 5);
}

#[test]
fn pause_transitions() {
    let (s, r) = pause_with_reason(PauseReasons::none(), PauseReasons::preemption());
    assert_eq!(s, TaskStatus::Paused);
    assert_eq!(r.bits(), PAUSE_PREEMPTION);

    // Clearing one of two reasons keeps the task paused.
    let both = PauseReasons::from_bits(PAUSE_PREEMPTION | PAUSE_GROUP);
    let (s, r) = clear_pause_reason(TaskStatus::Paused, both, PauseReasons::group());
    assert_eq!(s, TaskStatus::Paused);
    assert_eq!(r.bits(), PAUSE_PREEMPTION);

    // Clearing the last reason resumes it.
    let (s, r) = clear_pause_reason(TaskStatus::Paused, r, PauseReasons::preemption());
    assert_eq!(s, TaskStatus::Pending);
    assert!(r.is_empty());

    let (s, r) = resume_unconditionally(TaskStatus::Paused, both);
    assert_eq!(s, TaskStatus::Pending);
    assert!(r.is_empty());
}

#[test]
fn group_and_module_reasons() {
    let (s, r) = add_group_reason(TaskStatus::Pending, PauseReasons::none());
    assert_eq!(s, TaskStatus::Paused);
    assert_eq!(r.bits(), PAUSE_GROUP);
    let (s, r) = add_module_reason(TaskStatus::Pending, PauseReasons::none());
    assert_eq!(s, TaskStatus::Paused);
    assert_eq!(r.bits(), PAUSE_MODULE);
    let (s, r) = unblocked_state(PauseReasons::none(), true);
    assert_eq!(s, TaskStatus::Paused);
    assert!(r.contains(PauseReasons::group()));
    let (s, _) = unblocked_state(PauseReasons::none(), false);
    assert_eq!(s, TaskStatus::Pending);
}

// ── IO budgets and errors ───────────────────────────────────────────

#[test]
fn io_budget_constructors() {
    let d = IoBudget::disk(4096, 1024);
    assert_eq!((d.disk_read, d.disk_write, d.net_rx, d.net_tx), (4096, 1024, 0, 0));
    let n = IoBudget::net(0, 10_000_000);
    assert_eq!(n.net_tx, 10_000_000);
    assert_eq!(n.net_rx, 0);
    assert_eq!(IoBudget::default(), IoBudget::zero());
}

#[test]
fn task_error_kinds() {
    let e = TaskError::new("boom");
    assert_eq!(e.message, "boom");
    assert!(!e.retryable);
    assert!(!e.is_cancelled());
    let e = TaskError::retryable("later").retry_after(1500);
    assert!(e.retryable);
    assert_eq!(e.retry_delay(), Some(1500));
    let e = TaskError::cancelled();
    assert!(e.is_cancelled());
    assert_eq!(e.to_message(), "task cancelled");
    let e = TaskError::permanent("no");
    assert!(!e.retryable);
    let e: TaskError = String::from("owned").into();
    assert_eq!(e.message, "owned");
    assert!(!e.retryable);
}

// ── Outcomes ────────────────────────────────────────────────────────

#[test]
fn submit_outcome_ids() {
    assert_eq!(SubmitOutcome::Inserted(7).id(), Some(7));
    assert!(SubmitOutcome::Inserted(7).is_inserted());
    assert_eq!(SubmitOutcome::Upgraded(3).id(), Some(3));
    assert_eq!(SubmitOutcome::Duplicate.id(), None);
    assert_eq!(SubmitOutcome::Rejected.id(), None);
    assert_eq!(
        SubmitOutcome::Superseded { new_task_id: 9, replaced_task_id: 2 }.id(),
        Some(9)
    );
    assert!(!SubmitOutcome::Requeued(1).is_inserted());
}

#[test]
fn batch_outcome_categories() {
    let b = BatchOutcome {
        outcomes: vec![
            SubmitOutcome::Inserted(1),
            SubmitOutcome::Duplicate,
            SubmitOutcome::Upgraded(2),
            SubmitOutcome::Inserted(3),
            SubmitOutcome::Requeued(4),
            SubmitOutcome::Superseded { new_task_id: 5, replaced_task_id: 6 },
            SubmitOutcome::Rejected,
            SubmitOutcome::Duplicate,
        ],
    };
    assert_eq!(b.inserted(), vec![1, 3]);
    assert_eq!(b.upgraded(), vec![2]);
    assert_eq!(b.requeued(), vec![4]);
    assert_eq!(b.superseded(), vec![5]);
    assert_eq!(b.rejected_count(), 1);
    assert_eq!(b.duplicated_count(), 2);
    assert_eq!(b.len(), 8);
    assert!(!b.is_empty());
    assert_eq!(b.iter().count(), 8);
    let total = b.inserted().len()
        + b.upgraded().len()
        + b.requeued().len()
        + b.superseded().len()
        + b.rejected_count()
        + b.duplicated_count();
    assert_eq!(total, b.len());
}

// ── Tags ────────────────────────────────────────────────────────────

#[test]
fn tag_map_insert_replaces() {
    let mut t = TagMap::new();
    assert!(t.is_empty());
    t.insert("env".into(), "dev".into());
    t.insert("env".into(), "prod".into());
    t.insert("owner".into(), "alice".into());
    assert_eq!(t.len(), 2);
    assert_eq!(t.get("env").map(|s| s.as_str()), Some("prod"));
    assert!(t.contains_key("owner"));
    assert!(t.get("missing").is_none());
    t.insert_if_absent("env".into(), "test".into());
    assert_eq!(t.get("env").map(|s| s.as_str()), Some("prod"));
    let c = t.clone();
    assert_eq!(c.len(), 2);
}

#[test]
fn validate_tags_limits() {
    assert_eq!(validate_tags(&tags_of(&[("a", "b")])), Ok(()));

    let mut many = TagMap::new();
    for i in 0..33 {
        many.insert(format!("k{i}"), "v".into());
    }
    assert_eq!(
        validate_tags(&many),
        Err(StoreError::InvalidTag("too many tags: 33 > 32".into()))
    );

    let long_key = "k".repeat(65);
    assert_eq!(
        validate_tags(&tags_of(&[(long_key.as_str(), "v")])),
        Err(StoreError::InvalidTag("tag key too long: 65 > 64".into()))
    );
    let long_value = "v".repeat(257);
    assert_eq!(
        validate_tags(&tags_of(&[("k", long_value.as_str())])),
        Err(StoreError::InvalidTag("tag value too long: 257 > 256".into()))
    );
    // Exactly at the limits is fine.
    let key64 = "k".repeat(64);
    let val256 = "v".repeat(256);
    assert_eq!(
        validate_tags(&tags_of(&[(key64.as_str(), val256.as_str())])),
        Ok(())
    );
}

// ── Dedup keys ──────────────────────────────────────────────────────

#[test]
fn dedup_key_is_sha256_hex() {
    assert_eq!(
        generate_dedup_key("test", None),
        "5aff61a9e847bc2ad1dd16e20f0ef038069d101f512bb47bf5a594b5f0209928"
    );
    assert_eq!(
        generate_dedup_key("test", Some(b"abc")),
        "df22f3d63722e9e70996ac3d71518d4355d17efe29f69e0081f013e98dd81895"
    );
    assert_eq!(to_hex(&vec![0x00, 0xab, 0x0f]), "00ab0f");
}

#[test]
fn dedup_key_separates_task_types() {
    let a = generate_dedup_key("resize", Some(b"x"));
    let b = generate_dedup_key("upload", Some(b"x"));
    assert_ne!(a, b);
    assert_eq!(a, generate_dedup_key("resize", Some(b"x")));
}

#[test]
fn effective_key_prefers_explicit_key() {
    let sub = TaskSubmission::new("test").key("abc").payload_raw(b"ignored".to_vec());
    assert_eq!(sub.effective_key(), generate_dedup_key("test", Some(b"abc")));
    let sub = TaskSubmission::new("test").payload_raw(b"abc".to_vec());
    assert_eq!(sub.effective_key(), generate_dedup_key("test", Some(b"abc")));
    let sub = TaskSubmission::new("test");
    assert_eq!(sub.effective_key(), generate_dedup_key("test", None));
}

// ── Submissions ─────────────────────────────────────────────────────

#[test]
fn submission_defaults() {
    let sub = TaskSubmission::new("thumbnail");
    assert_eq!(sub.task_type, "thumbnail");
    assert_eq!(sub.label, "thumbnail");
    assert_eq!(sub.priority, Priority::normal());
    assert!(sub.dedup_key.is_none());
    assert!(sub.fail_fast);
    assert_eq!(sub.on_duplicate, DuplicateStrategy::Skip);
    assert_eq!(sub.ttl_from, TtlFrom::Submission);
    assert_eq!(sub.on_dependency_failure, DependencyFailurePolicy::Cancel);
    assert_eq!(sub.expected_io, IoBudget::default());
    assert!(sub.tags.is_empty());
}

#[test]
fn submission_key_sets_label() {
    let sub = TaskSubmission::new("t").key("k1");
    assert_eq!(sub.dedup_key.as_deref(), Some("k1"));
    assert_eq!(sub.label, "k1");
    let sub = sub.label("Readable");
    assert_eq!(sub.label, "Readable");
}

#[test]
fn submission_builder_io_and_group() {
    let sub = TaskSubmission::new("upload")
        .expected_io(IoBudget {
            net_rx: 5000,
            net_tx: 10000,
            ..Default::default()
        })
        .group("s3://bucket-a");
    assert_eq!(sub.expected_io.net_rx, 5000);
    assert_eq!(sub.expected_io.net_tx, 10000);
    assert_eq!(sub.group_key.as_deref(), Some("s3://bucket-a"));
}

#[test]
fn submission_builder_net_io_and_group() {
    let sub = TaskSubmission::new("upload")
        .expected_io(IoBudget::net(5000, 10000))
        .group("s3://bucket-a");
    assert_eq!(sub.expected_io.net_rx, 5000);
    assert_eq!(sub.expected_io.net_tx, 10000);
    assert_eq!(sub.group_key.as_deref(), Some("s3://bucket-a"));
}

#[test]
fn submission_run_after_at_and_recurring() {
    let sub = TaskSubmission::new("t").run_after(5_000, 1_000_000);
    assert_eq!(sub.run_after_ms, Some(1_005_000));
    let sched = RecurringSchedule {
        interval_ms: 60_000,
        initial_delay_ms: Some(2_000),
        max_executions: Some(3),
    };
    let sub = TaskSubmission::new("t").recurring_schedule(sched, 1_000);
    assert_eq!(sub.run_after_ms, Some(3_000));
    assert_eq!(sub.recurring, Some(sched));
    // An explicit dispatch time is kept.
    let sub = TaskSubmission::new("t").run_at(50).recurring_schedule(sched, 1_000);
    assert_eq!(sub.run_after_ms, Some(50));
    let sub = TaskSubmission::new("t").recurring(30_000);
    assert_eq!(sub.recurring.unwrap().interval_ms, 30_000);
}

#[test]
fn submission_run_after_counts_from_given_instant() {
    let sub = TaskSubmission::new("t").run_after(0, 42);
    assert_eq!(sub.run_after_ms, Some(42));
}

#[test]
fn submission_dependencies_and_tags() {
    let sub = TaskSubmission::new("t")
        .depends_on(1)
        .depends_on_all(&vec![2, 3])
        .tag("env".into(), "prod".into())
        .on_dependency_failure(DependencyFailurePolicy::Ignore);
    assert_eq!(sub.dependencies, vec![1, 2, 3]);
    assert_eq!(sub.tags.get("env").map(|s| s.as_str()), Some("prod"));
    assert_eq!(sub.on_dependency_failure, DependencyFailurePolicy::Ignore);
}

#[test]
fn batch_submission_builder_defaults() {
    let subs = BatchSubmission::new()
        .default_group("g1")
        .default_priority(Priority::high())
        .task(TaskSubmission::new("test").key("a"))
        .task(TaskSubmission::new("test").key("b").priority(Priority::realtime()))
        .task(TaskSubmission::new("test").key("c").group("custom-group"))
        .build();

    assert_eq!(subs.len(), 3);

    // Task without explicit group/priority gets defaults.
    assert_eq!(subs[0].group_key.as_deref(), Some("g1"));
    assert_eq!(subs[0].priority, Priority::high());

    // Task with explicit priority (non-NORMAL) keeps its own.
    assert_eq!(subs[1].group_key.as_deref(), Some("g1"));
    assert_eq!(subs[1].priority, Priority::realtime());

    // Task with explicit group keeps its own.
    assert_eq!(subs[2].group_key.as_deref(), Some("custom-group"));
    assert_eq!(subs[2].priority, Priority::high());
}

#[test]
fn batch_submission_builder_no_defaults() {
    let subs = BatchSubmission::new()
        .task(TaskSubmission::new("test").key("a"))
        .build();

    assert_eq!(subs.len(), 1);
    assert!(subs[0].group_key.is_none());
    assert_eq!(subs[0].priority, Priority::normal());
}

#[test]
fn batch_submission_ttl_and_tag_defaults() {
    let subs = BatchSubmission::new()
        .default_ttl(60_000)
        .default_tag("env".into(), "prod".into())
        .tasks(vec![
            TaskSubmission::new("a"),
            TaskSubmission::new("b").ttl(5_000).tag("env".into(), "dev".into()),
        ])
        .build();
    assert_eq!(subs[0].ttl_ms, Some(60_000));
    assert_eq!(subs[0].tags.get("env").map(|s| s.as_str()), Some("prod"));
    assert_eq!(subs[1].ttl_ms, Some(5_000));
    assert_eq!(subs[1].tags.get("env").map(|s| s.as_str()), Some("dev"));
}

// ── Typed tasks ─────────────────────────────────────────────────────

const NOW: i64 = 1_700_000_000_000;

struct Thumbnail {
    path: String,
    size: u32,
}

impl Thumbnail {
    fn to_json(&self) -> Vec<u8> {
        format!("{{\"path\":\"{}\",\"size\":{}}}", self.path, self.size).into_bytes()
    }
}

impl TypedTask for Thumbnail {
    fn task_type() -> &'static str {
        "thumbnail"
    }

    fn expected_io(&self) -> IoBudget {
        IoBudget::disk(4096, 1024)
    }
}

#[test]
fn typed_task_to_submission() {
    let task = Thumbnail {
        path: "/photos/a.jpg".into(),
        size: 256,
    };
    let sub = TaskSubmission::from_typed(&task, task.to_json(), NOW);

    assert_eq!(sub.task_type, "thumbnail");
    assert_eq!(sub.expected_io.disk_read, 4096);
    assert_eq!(sub.expected_io.disk_write, 1024);
    assert!(sub.dedup_key.is_none());

    // The payload is the task's serialized form.
    assert_eq!(sub.payload.as_deref(), Some(task.to_json().as_slice()));
}

#[test]
fn typed_task_custom_priority() {
    struct Urgent {
        id: u64,
    }

    impl TypedTask for Urgent {
        fn task_type() -> &'static str {
            "urgent"
        }

        fn priority(&self) -> Priority {
            Priority::high()
        }
    }

    let task = Urgent { id: 42 };
    let sub = TaskSubmission::from_typed(&task, format!("{{\"id\":{}}}", task.id).into_bytes(), NOW);
    assert_eq!(sub.priority, Priority::high());
    assert_eq!(sub.task_type, "urgent");
}

#[test]
fn typed_task_defaults() {
    struct Minimal;
    impl TypedTask for Minimal {
        fn task_type() -> &'static str {
            "minimal"
        }
    }

    let sub = TaskSubmission::from_typed(&Minimal, b"null".to_vec(), NOW);
    assert_eq!(sub.expected_io, IoBudget::default());
    assert_eq!(sub.priority, Priority::normal());
    assert!(sub.group_key.is_none());
    assert_eq!(sub.label, "minimal");
    assert_eq!(sub.on_duplicate, DuplicateStrategy::Skip);
    assert!(sub.run_after_ms.is_none());
}

#[test]
fn typed_task_with_network_and_group() {
    struct S3Upload {
        bucket: String,
        size: i64,
    }

    impl TypedTask for S3Upload {
        fn task_type() -> &'static str {
            "s3-upload"
        }

        fn expected_io(&self) -> IoBudget {
            IoBudget::net(0, self.size)
        }

        fn group_key(&self) -> Option<String> {
            Some(format!("s3://{}", self.bucket))
        }
    }

    let task = S3Upload {
        bucket: "my-bucket".into(),
        size: 10_000_000,
    };
    let sub = TaskSubmission::from_typed(&task, b"{}".to_vec(), NOW);
    assert_eq!(sub.expected_io.net_tx, 10_000_000);
    assert_eq!(sub.expected_io.net_rx, 0);
    assert_eq!(sub.group_key.as_deref(), Some("s3://my-bucket"));
}

#[test]
fn typed_task_key_and_label() {
    struct FileTask {
        path: String,
    }

    impl TypedTask for FileTask {
        fn task_type() -> &'static str {
            "file-task"
        }

        fn key(&self) -> Option<String> {
            Some(self.path.clone())
        }

        fn label(&self) -> Option<String> {
            Some(format!("Process {}", self.path))
        }
    }

    let task = FileTask {
        path: "/a.txt".into(),
    };
    let sub = TaskSubmission::from_typed(&task, b"{}".to_vec(), NOW);
    assert_eq!(sub.dedup_key.as_deref(), Some("/a.txt"));
    assert_eq!(sub.label, "Process /a.txt");
}

#[test]
fn typed_task_with_tags() {
    struct TaggedTask {
        profile: String,
    }

    impl TypedTask for TaggedTask {
        fn task_type() -> &'static str {
            "tagged"
        }

        fn tags(&self) -> TagMap {
            let mut t = TagMap::new();
            t.insert("profile".into(), self.profile.clone());
            t
        }
    }

    let task = TaggedTask {
        profile: "default".into(),
    };
    let sub = TaskSubmission::from_typed(&task, b"{}".to_vec(), NOW);
    assert_eq!(sub.tags.get("profile").unwrap(), "default");
}

#[test]
fn typed_task_schedule_settings() {
    struct Nightly;

    impl TypedTask for Nightly {
        fn task_type() -> &'static str {
            "nightly"
        }

        fn ttl(&self) -> Option<u64> {
            Some(60_000)
        }

        fn ttl_from(&self) -> TtlFrom {
            TtlFrom::FirstAttempt
        }

        fn on_duplicate(&self) -> DuplicateStrategy {
            DuplicateStrategy::Supersede
        }

        fn recurring(&self) -> Option<RecurringSchedule> {
            Some(RecurringSchedule {
                interval_ms: 86_400_000,
                initial_delay_ms: Some(5_000),
                max_executions: None,
            })
        }
    }

    let sub = TaskSubmission::from_typed(&Nightly, b"{}".to_vec(), NOW);
    assert_eq!(sub.ttl_ms, Some(60_000));
    assert_eq!(sub.ttl_from, TtlFrom::FirstAttempt);
    assert_eq!(sub.on_duplicate, DuplicateStrategy::Supersede);
    assert_eq!(sub.run_after_ms, Some(NOW + 5_000));
    assert_eq!(sub.recurring.unwrap().interval_ms, 86_400_000);
}

#[test]
fn typed_task_delay_wins_over_initial_delay() {
    struct Delayed;

    impl TypedTask for Delayed {
        fn task_type() -> &'static str {
            "delayed"
        }

        fn run_after(&self) -> Option<u64> {
            Some(1_000)
        }

        fn recurring(&self) -> Option<RecurringSchedule> {
            Some(RecurringSchedule {
                interval_ms: 10_000,
                initial_delay_ms: Some(5_000),
                max_executions: Some(2),
            })
        }
    }

    let sub = TaskSubmission::from_typed(&Delayed, b"{}".to_vec(), NOW);
    assert_eq!(sub.run_after_ms, Some(NOW + 1_000));
}

#[test]
fn typed_parts_key_becomes_label() {
    let st = TypedSettings {
        priority: Priority::normal(),
        expected_io: IoBudget::zero(),
        on_duplicate: DuplicateStrategy::Skip,
        ttl_ms: None,
        ttl_from: TtlFrom::Submission,
        key: Some("k".into()),
        label: None,
        group_key: None,
        run_after_ms: None,
        recurring: None,
        tags: TagMap::new(),
    };
    let sub = TaskSubmission::from_typed_parts("t", vec![1], st, NOW);
    assert_eq!(sub.label, "k");
    assert_eq!(sub.dedup_key.as_deref(), Some("k"));
    assert_eq!(sub.payload, Some(vec![1]));
}

#[test]
fn pause_reasons_default_is_none() {
    assert_eq!(PauseReasons::default(), PauseReasons::from_bits(0));
    assert!(PauseReasons::default().is_empty());
    assert_eq!(TtlFrom::default(), TtlFrom::Submission);
    assert_eq!(DependencyFailurePolicy::default(), DependencyFailurePolicy::Cancel);
    assert_eq!(DuplicateStrategy::default(), DuplicateStrategy::Skip);
    let b = BatchSubmission::default();
    assert!(b.tasks.is_empty());
    assert!(b.default_group.is_none());
}

#[test]
fn dedup_key_has_sixty_four_hex_digits() {
    let k = generate_dedup_key("anything", Some(b"payload"));
    assert_eq!(k.len(), 64);
    assert!(k.chars().all(|c| c.is_ascii_hexdigit() && !c.is_ascii_uppercase()));
    assert_eq!(generate_dedup_key("t", None), generate_dedup_key("t", Some(b"")));
}
