use pbhub::broadcast::BroadcastService;
use pbhub::broadcast::BroadcastServiceFactory;
use pbhub::connection::OutboundAction;
use pbhub::connection::WebSocketManager;
use pbhub::connection::WebSocketQuery;
use pbhub::connection::heartbeat_reply;
use pbhub::connection::queue_outbound_action;
use pbhub::connection::progress_outbound_action;
use pbhub::connection::resolve_ws_identity;
use pbhub::connection::should_deliver_queue_update;
use pbhub::events::ProgressType;
use pbhub::events::ProgressUpdate;
use pbhub::events::QueueUpdate;
use pbhub::events::QueueUpdateType;
use pbhub::events::WebSocketMessage;
use pbhub::events::map_external_update;
use pbhub::hub::RecvOutcome;

fn queue_event(kind: QueueUpdateType, affected: Option<&str>, position: Option<usize>) -> QueueUpdate {
    QueueUpdate {
        update_type: kind,
        queue: Vec::new(),
        affected_user_id: affected.map(|s| s.to_string()),
        global_position: position,
        timestamp: 42,
    }
}

#[test]
fn broadcast_fairness_two_subscribers() {
    // With subscribers that never overflow their buffers, every
    // subscriber receives exactly the published events in order.
    let mut svc = BroadcastService::new(16);
    let s1 = svc.subscribe();
    let s2 = svc.subscribe();
    for i in 0..3u64 {
        svc.broadcast(pbhub::broadcast::QueueUpdate {
            update_type: pbhub::broadcast::QueueUpdateType::PositionUpdated,
            affected_user_id: None,
            global_position: Some(i as usize),
            task_id: None,
            timestamp: i,
        });
    }
    for sub in [s1, s2] {
        for i in 0..3u64 {
            match svc.recv(sub) {
                RecvOutcome::Received(u) => {
                    assert_eq!(u.timestamp, i);
                    assert_eq!(u.global_position, Some(i as usize));
                }
                other => panic!("expected event, got {:?}", describe(&other)),
            }
        }
        assert!(matches!(svc.recv(sub), RecvOutcome::Empty));
    }
}

fn describe<T>(r: &RecvOutcome<T>) -> &'static str {
    match r {
        RecvOutcome::Received(_) => "received",
        RecvOutcome::Lagged(_) => "lagged",
        RecvOutcome::Empty => "empty",
    }
}

#[test]
fn lag_is_signaled_then_stream_resumes() {
    // A subscriber whose buffer (capacity 2) fills with 3 events before
    // it reads sees a lag indicator first, then the retained events in
    // order — never a silent catch-up.
    let mut svc = BroadcastService::new(2);
    let sub = svc.subscribe();
    for i in 0..3u64 {
        svc.broadcast(pbhub::broadcast::QueueUpdate {
            update_type: pbhub::broadcast::QueueUpdateType::TaskStarted,
            affected_user_id: None,
            global_position: None,
            task_id: Some(i as u128),
            timestamp: i,
        });
    }
    match svc.recv(sub) {
        RecvOutcome::Lagged(n) => assert_eq!(n, 1),
        other => panic!("expected lag, got {:?}", describe(&other)),
    }
    for i in 1..3u64 {
        match svc.recv(sub) {
            RecvOutcome::Received(u) => assert_eq!(u.timestamp, i),
            other => panic!("expected event, got {:?}", describe(&other)),
        }
    }
    assert!(matches!(svc.recv(sub), RecvOutcome::Empty));
}

#[test]
fn subscriber_joining_late_sees_nothing_earlier() {
    let mut svc = BroadcastService::new(8);
    svc.broadcast(pbhub::broadcast::QueueUpdate {
        update_type: pbhub::broadcast::QueueUpdateType::QueueCleared,
        affected_user_id: None,
        global_position: None,
        task_id: None,
        timestamp: 1,
    });
    let sub = svc.subscribe();
    assert!(matches!(svc.recv(sub), RecvOutcome::Empty));
    assert_eq!(svc.subscriber_count(), 1);
}

#[test]
fn factory_creates_shared_service() {
    let shared = BroadcastServiceFactory::create_shared(1000);
    assert_eq!(shared.subscriber_count(), 0);
}

#[test]
fn recipient_filtering_scenario() {
    // Connection A ("alice") and connection B ("admin") are both
    // subscribed; a removal affecting "bob" reaches B only.
    let mut ws = WebSocketManager::new();
    let (alice_q, _alice_p) = ws.register_connection("conn-a".to_string(), "alice".to_string(), 1);
    let (admin_q, _admin_p) = ws.register_connection("conn-b".to_string(), "admin".to_string(), 2);
    assert_eq!(ws.connection_count(), 2);

    ws.broadcast_queue_update(queue_event(QueueUpdateType::MeetingRemoved, Some("bob"), Some(2)));

    let to_alice = queue_outbound_action("alice", ws.recv_queue_update(alice_q));
    assert!(matches!(to_alice, OutboundAction::Nothing));

    let to_admin = queue_outbound_action("admin", ws.recv_queue_update(admin_q));
    match to_admin {
        OutboundAction::Send(WebSocketMessage::QueueUpdate(u)) => {
            assert_eq!(u.affected_user_id.as_deref(), Some("bob"));
            assert_eq!(u.global_position, Some(2));
        }
        _ => panic!("admin should receive the update"),
    }
}

#[test]
fn global_broadcast_scenario() {
    // An update with no affected user is delivered to everyone.
    let mut ws = WebSocketManager::new();
    let (alice_q, _) = ws.register_connection("conn-a".to_string(), "alice".to_string(), 1);
    let (admin_q, _) = ws.register_connection("conn-b".to_string(), "admin".to_string(), 2);

    ws.broadcast_queue_update(queue_event(QueueUpdateType::QueueCleared, None, None));

    for (identity, sub) in [("alice", alice_q), ("admin", admin_q)] {
        match queue_outbound_action(identity, ws.recv_queue_update(sub)) {
            OutboundAction::Send(WebSocketMessage::QueueUpdate(u)) => {
                assert!(matches!(u.update_type, QueueUpdateType::QueueCleared));
            }
            _ => panic!("{} should receive the global update", identity),
        }
    }
}

#[test]
fn own_updates_are_delivered() {
    let update = queue_event(QueueUpdateType::MeetingAdded, Some("alice"), Some(1));
    assert!(should_deliver_queue_update("alice", &update));
    assert!(should_deliver_queue_update("admin", &update));
    assert!(!should_deliver_queue_update("bob", &update));
}

#[test]
fn progress_updates_are_unfiltered() {
    let mut ws = WebSocketManager::new();
    let (_aq, alice_p) = ws.register_connection("conn-a".to_string(), "alice".to_string(), 1);
    let (_bq, bob_p) = ws.register_connection("conn-b".to_string(), "bob".to_string(), 2);

    ws.broadcast_progress_update(ProgressUpdate {
        meeting_id: 7,
        progress_type: ProgressType::Processing,
        details: "transcribing".to_string(),
        timestamp: 3,
    });

    for sub in [alice_p, bob_p] {
        match progress_outbound_action(ws.recv_progress_update(sub)) {
            OutboundAction::Send(WebSocketMessage::ProgressUpdate(u)) => {
                assert_eq!(u.meeting_id, 7);
                assert_eq!(u.details, "transcribing");
            }
            _ => panic!("progress updates go to every connection"),
        }
    }
}

#[test]
fn lag_is_noted_not_forwarded() {
    match queue_outbound_action("alice", RecvOutcome::Lagged(4)) {
        OutboundAction::NoteLag(n) => assert_eq!(n, 4),
        _ => panic!("lag must be noted, not sent"),
    }
    match progress_outbound_action(RecvOutcome::Lagged(2)) {
        OutboundAction::NoteLag(n) => assert_eq!(n, 2),
        _ => panic!("lag must be noted, not sent"),
    }
}

#[test]
fn cleanup_removes_connection() {
    let mut ws = WebSocketManager::new();
    ws.register_connection("conn-a".to_string(), "alice".to_string(), 1);
    ws.register_connection("conn-b".to_string(), "bob".to_string(), 2);
    assert_eq!(ws.connection_count(), 2);
    ws.cleanup_connection("conn-a");
    assert_eq!(ws.connection_count(), 1);
    // Cleaning up again, or an unknown id, changes nothing.
    ws.cleanup_connection("conn-a");
    assert_eq!(ws.connection_count(), 1);
}

#[test]
fn heartbeat_gets_pong() {
    assert_eq!(heartbeat_reply("ping"), Some("pong".to_string()));
    assert_eq!(heartbeat_reply("pong"), None);
    assert_eq!(heartbeat_reply(""), None);
}

#[test]
fn identity_resolution() {
    let explicit = resolve_ws_identity(WebSocketQuery {
        user_id: Some("alice".to_string()),
        token: Some("tok".to_string()),
    });
    assert_eq!(explicit, "alice");

    let from_token = resolve_ws_identity(WebSocketQuery {
        user_id: None,
        token: Some("abcdefghijklmnop".to_string()),
    });
    assert_eq!(from_token, "user_from_token_abcdefgh");

    let anonymous = resolve_ws_identity(WebSocketQuery { user_id: None, token: None });
    assert_eq!(anonymous, "anonymous");
}

#[test]
fn external_updates_map_to_client_kinds() {
    let external = pbhub::broadcast::QueueUpdate {
        update_type: pbhub::broadcast::QueueUpdateType::TaskCompleted,
        affected_user_id: Some("alice".to_string()),
        global_position: Some(3),
        task_id: Some(9),
        timestamp: 5,
    };
    let mapped = map_external_update(external);
    assert!(matches!(mapped.update_type, QueueUpdateType::MeetingRemoved));
    assert_eq!(mapped.affected_user_id.as_deref(), Some("alice"));
    assert_eq!(mapped.global_position, Some(3));
    assert_eq!(mapped.timestamp, 5);
    assert!(mapped.queue.is_empty());

    let cleared = map_external_update(pbhub::broadcast::QueueUpdate {
        update_type: pbhub::broadcast::QueueUpdateType::QueueCleared,
        affected_user_id: None,
        global_position: None,
        task_id: None,
        timestamp: 6,
    });
    assert!(matches!(cleared.update_type, QueueUpdateType::QueueCleared));

    let retried = map_external_update(pbhub::broadcast::QueueUpdate {
        update_type: pbhub::broadcast::QueueUpdateType::TaskRetried,
        affected_user_id: None,
        global_position: None,
        task_id: None,
        timestamp: 7,
    });
    assert!(matches!(retried.update_type, QueueUpdateType::PositionUpdated));
}

#[test]
fn broadcast_without_subscribers_is_not_an_error() {
    let mut svc = BroadcastService::new(4);
    svc.broadcast(pbhub::broadcast::QueueUpdate {
        update_type: pbhub::broadcast::QueueUpdateType::TaskStarted,
        affected_user_id: None,
        global_position: None,
        task_id: None,
        timestamp: 0,
    });
    assert_eq!(svc.subscriber_count(), 0);
}
