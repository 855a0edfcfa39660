use pbhub::instance::InstanceStatus;
use pbhub::instance::PocketBaseError;
use pbhub::manager::PocketBaseManager;
use pbhub::ports::PortAllocator;

fn fresh_manager() -> PocketBaseManager {
    PocketBaseManager::new("/tmp/user_dbs".to_string(), 9000, "pocketbase".to_string())
}

#[test]
fn allocate_gives_distinct_ports() {
    // No double allocation: claims that both succeed while unreleased
    // never share a port.
    let mut alloc = PortAllocator::new(9000);
    let external = Vec::new();
    let p1 = alloc.allocate("alice", &external).unwrap();
    let p2 = alloc.allocate("bob", &external).unwrap();
    let p3 = alloc.allocate("carol", &external).unwrap();
    assert_ne!(p1, p2);
    assert_ne!(p1, p3);
    assert_ne!(p2, p3);
}

#[test]
fn allocate_same_user_twice_scans_forward() {
    // The second claim for the same preferred port falls back to the scan
    // and still returns a fresh port.
    let mut alloc = PortAllocator::new(9000);
    let external = Vec::new();
    let p1 = alloc.allocate("alice", &external).unwrap();
    let p2 = alloc.allocate("alice", &external).unwrap();
    assert_ne!(p1, p2);
}

#[test]
fn allocate_skips_externally_bound_port() {
    let mut alloc = PortAllocator::new(9000);
    let preferred = {
        let mut probe = PortAllocator::new(9000);
        probe.allocate("alice", &Vec::new()).unwrap()
    };
    let external = vec![preferred];
    let p = alloc.allocate("alice", &external).unwrap();
    assert_ne!(p, preferred);
}

#[test]
fn allocate_exhaustion_reports_no_ports() {
    let mut alloc = PortAllocator::new(9000);
    let external = Vec::new();
    for i in 0..1000 {
        let user = format!("user-{}", i);
        assert!(alloc.allocate(&user, &external).is_ok());
    }
    match alloc.allocate("one-more", &external) {
        Err(PocketBaseError::NoPortsAvailable) => {}
        other => panic!("expected NoPortsAvailable, got {:?}", other),
    }
}

#[test]
fn release_enables_reuse() {
    // Release-on-stop-always: a released port may be claimed again.
    let mut alloc = PortAllocator::new(9000);
    let external = Vec::new();
    let p1 = alloc.allocate("alice", &external).unwrap();
    alloc.release(p1);
    let p2 = alloc.allocate("alice", &external).unwrap();
    assert_eq!(p1, p2);
}

#[test]
fn init_flow_reaches_running() {
    let mut mgr = fresh_manager();
    let external = Vec::new();
    let starting = mgr.begin_init(&"alice".to_string(), &external, 1_000).unwrap();
    assert_eq!(starting.status, InstanceStatus::Starting);
    assert_eq!(starting.user_id, "alice");
    assert_eq!(starting.db_path, "/tmp/user_dbs/pb_user_alice.db");
    assert_eq!(starting.url, format!("http://localhost:{}", starting.port));
    assert!(starting.last_health_check.is_none());

    let running = mgr.complete_init(starting, Ok(())).unwrap();
    assert_eq!(running.status, InstanceStatus::Running);
    assert!(mgr.has_process_mark("alice"));
    let found = mgr.get_user_instance("alice").unwrap();
    assert_eq!(found.status, InstanceStatus::Running);
    assert_eq!(found.port, running.port);
}

#[test]
fn init_is_idempotent_while_running() {
    // Idempotent init: a second init while Running returns the same port
    // and never spawns a second process.
    let mut mgr = fresh_manager();
    let external = Vec::new();
    let starting = mgr.begin_init(&"alice".to_string(), &external, 1_000).unwrap();
    let port = starting.port;
    mgr.complete_init(starting, Ok(())).unwrap();

    let again = mgr.begin_init(&"alice".to_string(), &external, 2_000).unwrap();
    assert_eq!(again.status, InstanceStatus::Running);
    assert_eq!(again.port, port);
    let third = mgr.begin_init(&"alice".to_string(), &external, 3_000).unwrap();
    assert_eq!(third.port, port);
    assert_eq!(mgr.get_all_instances().len(), 1);
}

#[test]
fn failed_spawn_releases_port_and_registers_nothing() {
    let mut mgr = fresh_manager();
    let external = Vec::new();
    let starting = mgr.begin_init(&"alice".to_string(), &external, 1_000).unwrap();
    let port = starting.port;
    let err = mgr
        .complete_init(starting, Err(PocketBaseError::ProcessError("spawn failed".to_string())))
        .unwrap_err();
    match err {
        PocketBaseError::ProcessError(detail) => assert_eq!(detail, "spawn failed"),
        other => panic!("unexpected error {:?}", other),
    }
    assert!(mgr.get_user_instance("alice").is_none());
    assert!(!mgr.has_process_mark("alice"));

    // The port was released: a new init for the same user gets it again.
    let retry = mgr.begin_init(&"alice".to_string(), &external, 2_000).unwrap();
    assert_eq!(retry.port, port);
}

#[test]
fn stop_releases_port_even_when_kill_fails() {
    // Release-on-stop-always: stopping with a failed kill still reaches
    // Stopped and frees the port for any later allocation.
    let mut mgr = fresh_manager();
    let external = Vec::new();
    let starting = mgr.begin_init(&"alice".to_string(), &external, 1_000).unwrap();
    let port = starting.port;
    mgr.complete_init(starting, Ok(())).unwrap();

    assert!(mgr.stop_user_instance("alice", false).is_ok());
    let stopped = mgr.get_user_instance("alice").unwrap();
    assert_eq!(stopped.status, InstanceStatus::Stopped);
    assert!(!mgr.has_process_mark("alice"));

    let fresh = mgr.begin_init(&"alice".to_string(), &external, 2_000).unwrap();
    assert_eq!(fresh.port, port);
}

#[test]
fn stop_unknown_user_is_ok() {
    let mut mgr = fresh_manager();
    assert!(mgr.stop_user_instance("nobody", true).is_ok());
    assert!(mgr.get_user_instance("nobody").is_none());
}

#[test]
fn health_transition_scenario() {
    // A Running instance whose process exited becomes Failed on the next
    // tick and is not restarted; a later forced init yields a fresh
    // Running instance, reusing the released port.
    let mut mgr = fresh_manager();
    let external = Vec::new();
    let starting = mgr.begin_init(&"alice".to_string(), &external, 1_000).unwrap();
    let port = starting.port;
    mgr.complete_init(starting, Ok(())).unwrap();

    mgr.health_tick("alice", false, false, 2_000);
    let failed = mgr.get_user_instance("alice").unwrap();
    assert_eq!(failed.status, InstanceStatus::Failed);
    // No auto-restart: the process set is untouched by the health loop.
    assert!(mgr.has_process_mark("alice"));

    // Manual re-init with force restart: stop, then init again.
    assert!(mgr.stop_user_instance("alice", true).is_ok());
    let restarted = mgr.begin_init(&"alice".to_string(), &external, 3_000).unwrap();
    assert_eq!(restarted.status, InstanceStatus::Starting);
    assert_eq!(restarted.port, port);
    let running = mgr.complete_init(restarted, Ok(())).unwrap();
    assert_eq!(running.status, InstanceStatus::Running);
    assert_eq!(running.created_at, 3_000);
}

#[test]
fn health_probe_success_promotes_and_stamps() {
    let mut mgr = fresh_manager();
    let external = Vec::new();
    let starting = mgr.begin_init(&"alice".to_string(), &external, 1_000).unwrap();
    mgr.complete_init(starting, Ok(())).unwrap();

    mgr.health_tick("alice", false, false, 2_000);
    assert_eq!(mgr.get_user_instance("alice").unwrap().status, InstanceStatus::Failed);

    // Process alive again and probe healthy: promoted back to Running
    // with the probe time recorded.
    mgr.health_tick("alice", true, true, 3_000);
    let healthy = mgr.get_user_instance("alice").unwrap();
    assert_eq!(healthy.status, InstanceStatus::Running);
    assert_eq!(healthy.last_health_check, Some(3_000));

    // A failed probe changes nothing.
    mgr.health_tick("alice", true, false, 4_000);
    let same = mgr.get_user_instance("alice").unwrap();
    assert_eq!(same.status, InstanceStatus::Running);
    assert_eq!(same.last_health_check, Some(3_000));
}

#[test]
fn count_running_counts_only_running() {
    let mut mgr = fresh_manager();
    let external = Vec::new();
    let a = mgr.begin_init(&"alice".to_string(), &external, 1).unwrap();
    mgr.complete_init(a, Ok(())).unwrap();
    let b = mgr.begin_init(&"bob".to_string(), &external, 2).unwrap();
    mgr.complete_init(b, Ok(())).unwrap();
    assert_eq!(mgr.count_running(), 2);
    mgr.stop_user_instance("bob", true).unwrap();
    assert_eq!(mgr.count_running(), 1);
    assert_eq!(mgr.get_all_instances().len(), 2);
    assert_eq!(mgr.user_ids(), vec!["alice".to_string(), "bob".to_string()]);
}

#[test]
fn pocketbase_error_messages() {
    assert_eq!(
        PocketBaseError::IoError("disk full".to_string()).message(),
        "IO error: disk full"
    );
    assert_eq!(
        PocketBaseError::ProcessError("exited".to_string()).message(),
        "Process error: exited"
    );
    assert_eq!(
        PocketBaseError::NoPortsAvailable.message(),
        "No ports available in the allocated range"
    );
    assert_eq!(
        PocketBaseError::InstanceNotFound("alice".to_string()).message(),
        "Instance not found for user: alice"
    );
    assert_eq!(PocketBaseError::HealthCheckFailed.message(), "Health check failed");
}
