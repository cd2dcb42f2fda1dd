use taskmill::priority::Priority;
use taskmill::store::deps::{
    dependency_failure_cascade, detect_cycle, failure_cause, resolve_dependents_batch, resolve_dependency_edges, resolve_dependents,
    upstream_tasks, DependentTask,
};
use taskmill::store::dispatch::{claim_expiry, is_dispatchable, select_for_dispatch, DispatchCandidate};
use taskmill::store::error::{should_prune, RetentionPolicy, StoreConfig, StoreError, MAX_PAYLOAD_BYTES};
use taskmill::store::lifecycle::{
    child_expires_with_parent, elapsed_ms, expired_by_sweep, expired_single, fail_action,
    history_retry_count, partition_children, recovered_status, recurring_next,
    requeue_priority_after_completion, resolve_parent, retry_run_after, FailAction,
};
use taskmill::store::like::{escape_like_prefix, prefix_pattern};
use taskmill::store::submit::{
    batch_dedup_mask, check_submission_row, duplicate_handling, initial_state, last_occurrence_mask,
    precheck_batch, precheck_submission, skip_existing, submission_columns, supersede_mode,
    DuplicateHandling, ExistingTask, SkipAction, SupersedeMode, BATCH_CHUNK_SIZE,
};
use taskmill::store::tag_rows::{tags_by_task, tags_for};
use taskmill::task::outcome::{ParentResolution, SubmitOutcome};
use taskmill::task::pause::PAUSE_GROUP;
use taskmill::task::status::{
    DependencyFailurePolicy, DuplicateStrategy, HistoryStatus, TaskStatus, TtlFrom,
};
use taskmill::task::submission::{RecurringSchedule, TaskSubmission};

// ── Errors and configuration ────────────────────────────────────────

#[test]
fn store_error_messages() {
    assert_eq!(
        StoreError::PayloadTooLarge.message(),
        "payload exceeds maximum size of 1048576 bytes"
    );
    assert_eq!(
        StoreError::InvalidDependency(42).message(),
        "dependency task 42 does not exist"
    );
    assert_eq!(
        StoreError::DependencyFailed(-3).message(),
        "dependency task -3 has already failed"
    );
    assert_eq!(StoreError::CyclicDependency.message(), "circular dependency detected");
    assert_eq!(
        StoreError::InvalidTag("x".into()).message(),
        "invalid tag: x"
    );
    assert_eq!(
        StoreError::Database("locked".into()).message(),
        "database error: locked"
    );
    assert_eq!(
        StoreError::Serialization("bad".into()).message(),
        "serialization error: bad"
    );
    assert_eq!(StoreError::NotFound("t".into()).message(), "not found: t");
    assert_eq!(
        StoreError::InvalidState("s".into()).message(),
        "invalid state: s"
    );
}

#[test]
fn store_config_defaults_and_pruning() {
    let c = StoreConfig::default();
    assert_eq!(c.max_connections, 16);
    assert_eq!(c.retention_policy, Some(RetentionPolicy::MaxCount(10_000)));
    assert_eq!(c.prune_interval, 100);
    assert!(should_prune(c.retention_policy, 0, 100));
    assert!(!should_prune(c.retention_policy, 99, 100));
    assert!(should_prune(c.retention_policy, 200, 100));
    assert!(!should_prune(None, 200, 100));
    assert!(should_prune(Some(RetentionPolicy::MaxAgeDays(7)), 5, 5));
}

// ── Submission checks ───────────────────────────────────────────────

#[test]
fn precheck_rejects_large_payload_and_serialization_errors() {
    let big = TaskSubmission::new("t").payload_raw(vec![0u8; MAX_PAYLOAD_BYTES + 1]);
    assert_eq!(precheck_submission(&big), Err(StoreError::PayloadTooLarge));
    let exact = TaskSubmission::new("t").payload_raw(vec![0u8; MAX_PAYLOAD_BYTES]);
    assert_eq!(precheck_submission(&exact), Ok(()));
    let failed = TaskSubmission::new("t").payload_failed("no json".into());
    assert_eq!(
        precheck_submission(&failed),
        Err(StoreError::Serialization("no json".into()))
    );
    let long_key = "k".repeat(65);
    let bad_tag = TaskSubmission::new("t").tag(long_key, "v".into());
    assert_eq!(
        precheck_submission(&bad_tag),
        Err(StoreError::InvalidTag("tag key too long: 65 > 64".into()))
    );
}

#[test]
fn recurring_child_is_rejected() {
    let sub = TaskSubmission::new("t").recurring(1_000);
    assert_eq!(check_submission_row(&sub), Ok(()));
    let mut child = TaskSubmission::new("t").recurring(1_000);
    child.parent_id = Some(7);
    assert_eq!(
        check_submission_row(&child),
        Err(StoreError::Database(
            "recurring tasks cannot be children (parent_id must be None)".into()
        ))
    );
}

#[test]
fn precheck_batch_reports_first_failure() {
    let ok = TaskSubmission::new("a");
    let big = TaskSubmission::new("b").payload_raw(vec![0u8; MAX_PAYLOAD_BYTES + 1]);
    let long_value = "v".repeat(300);
    let bad_tag = TaskSubmission::new("c").tag("k".into(), long_value);
    assert_eq!(precheck_batch(&vec![ok]), Ok(()));
    let ok = TaskSubmission::new("a");
    assert_eq!(
        precheck_batch(&vec![ok, bad_tag, big]),
        Err(StoreError::InvalidTag("tag value too long: 300 > 256".into()))
    );
}

#[test]
fn submission_columns_from_submission() {
    let sub = TaskSubmission::new("t")
        .ttl(90_500)
        .run_at(5_000)
        .recurring_schedule(
            RecurringSchedule {
                interval_ms: 60_000,
                initial_delay_ms: None,
                max_executions: Some(4),
            },
            0,
        );
    let c = submission_columns(&sub, 1_000_000);
    assert_eq!(c.ttl_seconds, Some(90));
    assert_eq!(c.expires_at_ms, Some(1_090_500));
    assert_eq!(c.run_after_ms, Some(5_000));
    assert_eq!(c.recurring_interval_secs, Some(60));
    assert_eq!(c.recurring_max_executions, Some(4));

    let sub = TaskSubmission::new("t").ttl(10_000).ttl_from(TtlFrom::FirstAttempt);
    let c = submission_columns(&sub, 1_000_000);
    assert_eq!(c.ttl_seconds, Some(10));
    assert_eq!(c.expires_at_ms, None);
}

// ── Duplicate handling ──────────────────────────────────────────────

fn existing(status: TaskStatus, priority: u8) -> ExistingTask {
    ExistingTask {
        id: 11,
        status,
        priority: Priority::new(priority),
        requeue: false,
        requeue_priority: None,
    }
}

#[test]
fn skip_upgrades_waiting_task_priority() {
    let (a, o) = skip_existing(Some(existing(TaskStatus::Pending, 128)), Priority::high(), false);
    assert_eq!(a, SkipAction::UpgradePriority { id: 11, priority: Priority::high() });
    assert_eq!(o, SubmitOutcome::Upgraded(11));
    // A less urgent duplicate changes nothing.
    let (a, o) = skip_existing(Some(existing(TaskStatus::Pending, 64)), Priority::normal(), false);
    assert_eq!(a, SkipAction::NoChange);
    assert_eq!(o, SubmitOutcome::Duplicate);
}

#[test]
fn skip_marks_running_task_for_requeue() {
    let (a, o) = skip_existing(Some(existing(TaskStatus::Running, 128)), Priority::normal(), false);
    assert_eq!(a, SkipAction::MarkRequeue { id: 11, priority: Priority::normal() });
    assert_eq!(o, SubmitOutcome::Requeued(11));
    // Nothing can be running: no requeue.
    let (a, _) = skip_existing(Some(existing(TaskStatus::Running, 128)), Priority::normal(), true);
    assert_eq!(a, SkipAction::NoChange);
    // Already marked at an equal priority: nothing changes.
    let mut e = existing(TaskStatus::Running, 128);
    e.requeue = true;
    e.requeue_priority = Some(Priority::normal());
    let (a, o) = skip_existing(Some(e), Priority::normal(), false);
    assert_eq!(a, SkipAction::NoChange);
    assert_eq!(o, SubmitOutcome::Duplicate);
    // Marked, but the new one is more urgent.
    let (a, _) = skip_existing(Some(e), Priority::high(), false);
    assert_eq!(a, SkipAction::MarkRequeue { id: 11, priority: Priority::high() });
    let (a, o) = skip_existing(None, Priority::high(), false);
    assert_eq!((a, o), (SkipAction::NoChange, SubmitOutcome::Duplicate));
}

#[test]
fn supersede_and_strategies() {
    assert_eq!(supersede_mode(TaskStatus::Pending), SupersedeMode::InPlace);
    assert_eq!(supersede_mode(TaskStatus::Blocked), SupersedeMode::InPlace);
    assert_eq!(supersede_mode(TaskStatus::Running), SupersedeMode::Replace);
    assert_eq!(supersede_mode(TaskStatus::Waiting), SupersedeMode::Replace);
    assert_eq!(duplicate_handling(DuplicateStrategy::Reject), DuplicateHandling::Rejected);
    assert_eq!(duplicate_handling(DuplicateStrategy::Supersede), DuplicateHandling::Supersede);
    assert_eq!(duplicate_handling(DuplicateStrategy::Skip), DuplicateHandling::Skip);
}

#[test]
fn initial_states() {
    let (s, r) = initial_state(true, true);
    assert_eq!(s, TaskStatus::Blocked);
    assert_eq!(r.bits(), 0);
    let (s, r) = initial_state(false, true);
    assert_eq!(s, TaskStatus::Paused);
    assert_eq!(r.bits(), PAUSE_GROUP);
    let (s, r) = initial_state(false, false);
    assert_eq!(s, TaskStatus::Pending);
    assert_eq!(r.bits(), 0);
}

#[test]
fn intra_batch_dedup_last_wins() {
    let keys: Vec<String> = vec!["a".into(), "b".into(), "a".into(), "c".into(), "b".into()];
    assert_eq!(
        last_occurrence_mask(&keys),
        vec![false, false, true, true, true]
    );
    let subs = vec![
        TaskSubmission::new("t").key("x"),
        TaskSubmission::new("t").key("y"),
        TaskSubmission::new("t").key("x"),
        TaskSubmission::new("u").key("x"),
    ];
    assert_eq!(batch_dedup_mask(&subs), vec![false, true, true, true]);
    assert!(BATCH_CHUNK_SIZE == 10_000);
}

// ── Dependencies ────────────────────────────────────────────────────

#[test]
fn dependency_edges_skip_completed_dependencies() {
    let history = vec![(1, HistoryStatus::Completed)];
    let r = resolve_dependency_edges(&vec![1, 2], &history, &vec![2], DependencyFailurePolicy::Cancel);
    assert_eq!(r, Ok((vec![2], TaskStatus::Blocked)));
    let r = resolve_dependency_edges(&vec![1], &history, &vec![], DependencyFailurePolicy::Cancel);
    assert_eq!(r, Ok((vec![], TaskStatus::Pending)));
}

#[test]
fn dependency_edges_errors() {
    let history = vec![(1, HistoryStatus::Failed), (3, HistoryStatus::Completed)];
    let r = resolve_dependency_edges(&vec![3, 1], &history, &vec![], DependencyFailurePolicy::Cancel);
    assert_eq!(r, Err(StoreError::DependencyFailed(1)));
    // Ignoring failures: the failed dependency still must exist somewhere
    // active to become an edge.
    let r = resolve_dependency_edges(&vec![9], &history, &vec![], DependencyFailurePolicy::Ignore);
    assert_eq!(r, Err(StoreError::InvalidDependency(9)));
}

#[test]
fn cycle_detection() {
    // 2 depends on 1; a new task 1 depending on 2 closes a cycle.
    let edges = vec![(2, 1)];
    assert_eq!(detect_cycle(&edges, 1, &vec![2]), Err(StoreError::CyclicDependency));
    assert_eq!(detect_cycle(&edges, 3, &vec![2]), Ok(()));
    assert_eq!(detect_cycle(&edges, 1, &vec![]), Ok(()));
    let mut up = upstream_tasks(&vec![(2, 1), (3, 2)], &vec![3]);
    up.sort();
    assert_eq!(up, vec![1, 2, 3]);
}

#[test]
fn completion_unblocks_dependents() {
    // 5 waits on 1 and 2; 6 waits on 1.
    let edges = vec![(5, 1), (5, 2), (6, 1)];
    let (remaining, unblocked) = resolve_dependents(&edges, 1, &vec![5, 6]);
    assert_eq!(remaining, vec![(5, 2)]);
    assert_eq!(unblocked, vec![6]);
    let (remaining, unblocked) = resolve_dependents(&remaining, 2, &vec![5]);
    assert!(remaining.is_empty());
    assert_eq!(unblocked, vec![5]);
}

#[test]
fn batch_completion_unblocks_dependents() {
    // 5 waits on 1 and 2; 6 waits on 1; 7 waits on 3.
    let edges = vec![(5, 1), (5, 2), (6, 1), (7, 3)];
    let (remaining, mut unblocked) = resolve_dependents_batch(&edges, &vec![1, 2], &vec![5, 6, 7]);
    assert_eq!(remaining, vec![(7, 3)]);
    unblocked.sort();
    assert_eq!(unblocked, vec![5, 6]);
    let (remaining, unblocked) = resolve_dependents_batch(&edges, &vec![1], &vec![5, 6, 7]);
    assert_eq!(remaining, vec![(5, 2), (7, 3)]);
    assert_eq!(unblocked, vec![6]);
}

#[test]
fn batch_completion_matches_one_at_a_time() {
    // 5 waits on 1 and 2; 6 waits on 1; 7 waits on 3; 8 waits on 2 and 4.
    let edges = vec![(5, 1), (5, 2), (6, 1), (7, 3), (8, 2), (8, 4)];
    let blocked = vec![5, 6, 7, 8];
    let completed = vec![2, 1, 2];
    let (batch_remaining, mut batch_unblocked) = resolve_dependents_batch(&edges, &completed, &blocked);
    let mut remaining = edges.clone();
    let mut unblocked: Vec<i64> = Vec::new();
    for c in &completed {
        let (next, mut freed) = resolve_dependents(&remaining, *c, &blocked);
        remaining = next;
        unblocked.append(&mut freed);
    }
    assert_eq!(remaining, batch_remaining);
    assert_eq!(remaining, vec![(7, 3), (8, 4)]);
    batch_unblocked.sort();
    unblocked.sort();
    assert_eq!(unblocked, batch_unblocked);
    assert_eq!(unblocked, vec![5, 6]);
}

#[test]
fn failure_cascades_by_policy() {
    // 2 and 3 depend on 1; 4 depends on 2.
    let edges = vec![(2, 1), (3, 1), (4, 2)];
    let tasks = vec![
        DependentTask { id: 2, status: TaskStatus::Blocked, policy: DependencyFailurePolicy::Cancel },
        DependentTask { id: 3, status: TaskStatus::Blocked, policy: DependencyFailurePolicy::Ignore },
        DependentTask { id: 4, status: TaskStatus::Blocked, policy: DependencyFailurePolicy::Fail },
    ];
    let r = dependency_failure_cascade(&edges, &tasks, 1);
    let mut failed = r.failed.clone();
    failed.sort();
    assert_eq!(failed, vec![2, 4]);
    assert_eq!(r.unblocked, vec![3]);
    assert!(r.remaining_edges.is_empty());
    // 4 failed through 2, 2 through the root.
    assert_eq!(failure_cause(&edges, &r.failed, 1, 4), Some(2));
    assert_eq!(failure_cause(&edges, &r.failed, 1, 2), Some(1));
    assert_eq!(failure_cause(&edges, &r.failed, 1, 3), Some(1));
    assert_eq!(failure_cause(&edges, &r.failed, 1, 9), None);
}

// ── Lifecycle ───────────────────────────────────────────────────────

#[test]
fn history_retry_counts() {
    assert_eq!(history_retry_count(2, HistoryStatus::Failed), 3);
    assert_eq!(history_retry_count(2, HistoryStatus::DeadLetter), 3);
    assert_eq!(history_retry_count(2, HistoryStatus::Completed), 2);
    assert_eq!(recovered_status(TaskStatus::Running), TaskStatus::Pending);
    assert_eq!(recovered_status(TaskStatus::Waiting), TaskStatus::Waiting);
    assert_eq!(elapsed_ms(Some(1_000), 4_500), Some(3_500));
    assert_eq!(elapsed_ms(None, 4_500), None);
}

#[test]
fn failure_retries_then_dead_letters() {
    assert_eq!(
        fail_action(0, true, 3, None, None, 1_000),
        FailAction::Retry { run_after_ms: None }
    );
    assert_eq!(
        fail_action(1, true, 3, Some(2_000), Some(5_000_000_000), 1_000),
        FailAction::Retry { run_after_ms: Some(3_000) }
    );
    assert_eq!(
        fail_action(1, true, 3, None, Some(5_000_000_000), 1_000),
        FailAction::Retry { run_after_ms: Some(6_000) }
    );
    assert_eq!(
        fail_action(3, true, 3, None, None, 1_000),
        FailAction::MoveToHistory(HistoryStatus::DeadLetter)
    );
    assert_eq!(
        fail_action(0, false, 3, None, None, 1_000),
        FailAction::MoveToHistory(HistoryStatus::Failed)
    );
    assert_eq!(retry_run_after(1_000, 0), None);
    assert_eq!(retry_run_after(1_000, 2_500_000), Some(1_002));
}

#[test]
fn recurring_next_instance() {
    let n = recurring_next(Some(60), false, 0, Some(3), Some(30), TtlFrom::Submission, false, 1_000);
    let n = n.expect("another run");
    assert_eq!(n.run_after_ms, 61_000);
    assert_eq!(n.execution_count, 1);
    assert_eq!(n.expires_at_ms, Some(31_000));
    // The limit stops it.
    assert!(recurring_next(Some(60), false, 2, Some(3), None, TtlFrom::Submission, false, 1_000).is_none());
    assert!(recurring_next(Some(60), true, 0, None, None, TtlFrom::Submission, false, 1_000).is_none());
    assert!(recurring_next(Some(60), false, 0, None, None, TtlFrom::Submission, true, 1_000).is_none());
    assert!(recurring_next(None, false, 0, None, None, TtlFrom::Submission, false, 1_000).is_none());
    let n = recurring_next(Some(1), false, 5, None, Some(30), TtlFrom::FirstAttempt, false, 0).unwrap();
    assert_eq!(n.expires_at_ms, None);
    assert_eq!(
        requeue_priority_after_completion(Priority::normal(), Some(Priority::high())),
        Priority::high()
    );
    assert_eq!(
        requeue_priority_after_completion(Priority::normal(), None),
        Priority::normal()
    );
}

#[test]
fn parent_resolution() {
    assert_eq!(resolve_parent(None, 0, 0), None);
    assert_eq!(resolve_parent(Some(TaskStatus::Running), 0, 0), None);
    assert_eq!(
        resolve_parent(Some(TaskStatus::Waiting), 2, 1),
        Some(ParentResolution::StillWaiting)
    );
    assert_eq!(
        resolve_parent(Some(TaskStatus::Waiting), 0, 2),
        Some(ParentResolution::Failed("2 child task(s) failed".into()))
    );
    assert_eq!(
        resolve_parent(Some(TaskStatus::Waiting), 0, 0),
        Some(ParentResolution::ReadyToFinalize)
    );
}

#[test]
fn expiry_rules() {
    assert!(expired_by_sweep(TaskStatus::Blocked, Some(10), 10));
    assert!(!expired_by_sweep(TaskStatus::Running, Some(10), 20));
    assert!(!expired_by_sweep(TaskStatus::Pending, Some(11), 10));
    assert!(!expired_by_sweep(TaskStatus::Pending, None, 10));
    assert!(expired_single(TaskStatus::Paused, Some(5), 10));
    assert!(!expired_single(TaskStatus::Blocked, Some(5), 10));
    assert!(child_expires_with_parent(TaskStatus::Pending));
    assert!(!child_expires_with_parent(TaskStatus::Running));
}

#[test]
fn children_split_for_cancellation() {
    let children = vec![
        (1, TaskStatus::Pending),
        (2, TaskStatus::Running),
        (3, TaskStatus::Paused),
        (4, TaskStatus::Waiting),
        (5, TaskStatus::Blocked),
    ];
    let (signal, cancel) = partition_children(&children);
    assert_eq!(signal, vec![2, 4]);
    assert_eq!(cancel, vec![1, 3]);
}

// ── Dispatch ────────────────────────────────────────────────────────

fn cand(id: i64, priority: u8, status: TaskStatus, run_after_ms: Option<i64>) -> DispatchCandidate {
    DispatchCandidate {
        id,
        priority: Priority::new(priority),
        status,
        run_after_ms,
        expires_at_ms: None,
    }
}

#[test]
fn dispatch_takes_most_urgent_first() {
    let cands = vec![
        cand(1, 128, TaskStatus::Pending, None),
        cand(2, 0, TaskStatus::Pending, None),
        cand(3, 128, TaskStatus::Running, None),
        cand(4, 64, TaskStatus::Pending, Some(500)),
        cand(5, 64, TaskStatus::Pending, Some(50)),
        cand(6, 128, TaskStatus::Pending, None),
    ];
    let picked = select_for_dispatch(&cands, 100, true, 3);
    let ids: Vec<i64> = picked.iter().map(|&i| cands[i].id).collect();
    assert_eq!(ids, vec![2, 5, 1]);
    let all = select_for_dispatch(&cands, 100, true, 10);
    let ids: Vec<i64> = all.iter().map(|&i| cands[i].id).collect();
    assert_eq!(ids, vec![2, 5, 1, 6]);
    assert!(select_for_dispatch(&cands, 100, true, 0).is_empty());
}

#[test]
fn repeated_peek_selects_same_task() {
    let cands = vec![
        cand(7, 64, TaskStatus::Pending, None),
        cand(3, 64, TaskStatus::Pending, None),
        cand(9, 0, TaskStatus::Running, None),
    ];
    let first = select_for_dispatch(&cands, 100, false, 1);
    let second = select_for_dispatch(&cands, 100, false, 1);
    assert_eq!(first, second);
    assert_eq!(cands[first[0]].id, 3);
}

#[test]
fn dispatch_respects_expiry() {
    let mut c = cand(1, 128, TaskStatus::Pending, None);
    c.expires_at_ms = Some(100);
    assert!(!is_dispatchable(&c, 100, true));
    assert!(is_dispatchable(&c, 100, false));
    assert!(is_dispatchable(&c, 99, true));
    assert_eq!(claim_expiry(TtlFrom::FirstAttempt, Some(30), None, 1_000), Some(31_000));
    assert_eq!(claim_expiry(TtlFrom::FirstAttempt, Some(30), Some(5), 1_000), Some(5));
    assert_eq!(claim_expiry(TtlFrom::Submission, Some(30), None, 1_000), None);
}

// ── LIKE patterns and tag rows ──────────────────────────────────────

#[test]
fn like_prefix_escapes_wildcards() {
    assert_eq!(escape_like_prefix("a%b."), "a\\%b.%");
    assert_eq!(escape_like_prefix("x_y\\z"), "x\\_y\\\\z%");
    assert_eq!(escape_like_prefix("plain"), "plain%");
    assert_eq!(escape_like_prefix("a_b."), r"a\_b.%");
    assert_eq!(escape_like_prefix(""), "%");
    assert_eq!(prefix_pattern("media::"), "media::%");
}

#[test]
fn tag_rows_grouped_per_task() {
    let rows: Vec<(i64, String, String)> = vec![
        (1, "env".into(), "dev".into()),
        (2, "owner".into(), "bob".into()),
        (1, "env".into(), "prod".into()),
        (1, "team".into(), "x".into()),
    ];
    let t1 = tags_for(1, &rows).expect("tags for 1");
    assert_eq!(t1.len(), 2);
    assert_eq!(t1.get("env").map(|s| s.as_str()), Some("prod"));
    assert!(tags_for(3, &rows).is_none());
    let per = tags_by_task(&vec![2, 3, 1, 2], &rows);
    assert_eq!(per.len(), 4);
    assert_eq!(per[0].as_ref().unwrap().get("owner").map(|s| s.as_str()), Some("bob"));
    assert!(per[1].is_none());
    assert_eq!(per[2].as_ref().unwrap().len(), 2);
    assert!(per[3].is_none());
}
