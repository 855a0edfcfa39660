use pbhub::api::QueueResponse;
use pbhub::queue_state::MeetingsQueue;
use pbhub::worker::QueueTask;
use pbhub::worker::TaskStatus;
use pbhub::worker::WorkerError;
use pbhub::worker::task_completed_update;
use pbhub::worker::task_failed_update;
use pbhub::worker::task_started_update;

#[test]
fn add_assigns_dense_positions() {
    let mut q = MeetingsQueue::new();
    let m1 = q.add_meeting(1, "alice".to_string(), "standup".to_string());
    let m2 = q.add_meeting(2, "bob".to_string(), "planning".to_string());
    assert_eq!(m1.position, 1);
    assert_eq!(m2.position, 2);
    assert_eq!(q.len(), 2);

    let snapshot = q.snapshot();
    assert_eq!(snapshot.len(), 2);
    assert_eq!(snapshot[0].user_id, "alice");
    assert_eq!(snapshot[1].user_id, "bob");
    assert_eq!(snapshot[0].position, 1);
    assert_eq!(snapshot[1].position, 2);
}

#[test]
fn remove_renumbers_remaining_positions() {
    let mut q = MeetingsQueue::new();
    q.add_meeting(1, "alice".to_string(), "standup".to_string());
    q.add_meeting(2, "bob".to_string(), "planning".to_string());
    q.add_meeting(3, "carol".to_string(), "retro".to_string());

    let (removed, former_position) = q.remove_meeting(2).unwrap();
    assert_eq!(removed.user_id, "bob");
    assert_eq!(former_position, 2);

    let snapshot = q.snapshot();
    assert_eq!(snapshot.len(), 2);
    assert_eq!(snapshot[0].user_id, "alice");
    assert_eq!(snapshot[0].position, 1);
    assert_eq!(snapshot[1].user_id, "carol");
    assert_eq!(snapshot[1].position, 2);
}

#[test]
fn remove_unknown_meeting_changes_nothing() {
    let mut q = MeetingsQueue::new();
    q.add_meeting(1, "alice".to_string(), "standup".to_string());
    assert!(q.remove_meeting(9).is_none());
    assert_eq!(q.len(), 1);
}

#[test]
fn queue_responses_carry_their_messages() {
    let mut q = MeetingsQueue::new();
    q.add_meeting(1, "alice".to_string(), "standup".to_string());
    let snapshot = q.snapshot();

    let added = QueueResponse::added(q.snapshot());
    assert!(added.success);
    assert_eq!(added.message, "Meeting added to queue");
    assert_eq!(added.data.as_ref().unwrap().len(), snapshot.len());

    let removed = QueueResponse::removed(q.snapshot());
    assert!(removed.success);
    assert_eq!(removed.message, "Meeting removed from queue");

    let missing = QueueResponse::not_found(q.snapshot());
    assert!(!missing.success);
    assert_eq!(missing.message, "Meeting not found");

    let current = QueueResponse::current(q.snapshot());
    assert!(current.success);
    assert_eq!(current.message, "Current queue");
}

#[test]
fn fresh_task_has_stock_retry_budget() {
    let task = QueueTask::fresh(77, 1_000);
    assert_eq!(task.id, 77);
    assert_eq!(task.user_id, "");
    assert_eq!(task.meeting_id, "");
    assert_eq!(task.topic, "");
    assert_eq!(task.status, TaskStatus::Pending);
    assert_eq!(task.created_at, 1_000);
    assert_eq!(task.updated_at, 1_000);
    assert_eq!(task.retry_count, 0);
    assert_eq!(task.max_retries, 3);
    assert!(task.error_message.is_none());
}

#[test]
fn task_lifecycle_updates_name_the_user() {
    let mut task = QueueTask::fresh(5, 100);
    task.user_id = "alice".to_string();

    let started = task_started_update(&task, 101);
    assert!(matches!(started.update_type, pbhub::broadcast::QueueUpdateType::TaskStarted));
    assert_eq!(started.affected_user_id.as_deref(), Some("alice"));
    assert_eq!(started.task_id, Some(5));
    assert_eq!(started.timestamp, 101);
    assert!(started.global_position.is_none());

    let completed = task_completed_update(&task, 102);
    assert!(matches!(completed.update_type, pbhub::broadcast::QueueUpdateType::TaskCompleted));
    assert_eq!(completed.task_id, Some(5));

    let failed = task_failed_update(&task, 103);
    assert!(matches!(failed.update_type, pbhub::broadcast::QueueUpdateType::TaskFailed));
    assert_eq!(failed.timestamp, 103);
}

#[test]
fn retry_policy_by_error_kind() {
    assert!(WorkerError::Network("timeout".to_string()).is_retryable());
    assert!(WorkerError::Queue("busy".to_string()).is_retryable());
    assert!(WorkerError::Fathom("api".to_string()).is_retryable());
    assert!(WorkerError::Loom("api".to_string()).is_retryable());
    assert!(WorkerError::PocketBase("down".to_string()).is_retryable());
    assert!(WorkerError::Email("smtp".to_string()).is_retryable());
    assert!(WorkerError::Io("disk".to_string()).is_retryable());
    assert!(!WorkerError::Video("codec".to_string()).is_retryable());
    assert!(!WorkerError::Serde("json".to_string()).is_retryable());
    assert!(!WorkerError::Config("bad".to_string()).is_retryable());
    assert!(!WorkerError::Internal("bug".to_string()).is_retryable());
}
