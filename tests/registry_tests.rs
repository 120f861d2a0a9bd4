use zooming_kittens::config::RegistryConfig;
use zooming_kittens::pool::ConnectionPool;
use zooming_kittens::registry::KittyRegistry;
use zooming_kittens::retry::{
    is_auth_error, retry_delay_ms, step_adjustment, FontCommandRun, KittyConnectionStatus, RunAction, RunPhase,
    ZoomingResult,
};
use zooming_kittens::zoom::{AdjustOp, FontAdjustment};

fn config(max_connections: usize, max_retries: u32) -> RegistryConfig {
    RegistryConfig {
        socket_timeout_ms: 2000,
        max_retries,
        max_connections,
        idle_timeout_ms: 100,
        reap_interval_ms: 1000,
        verbose: false,
    }
}

#[test]
fn pool_never_exceeds_its_limit() {
    let mut pool: ConnectionPool<u32> = ConnectionPool::new(2);
    for (i, pid) in [5, 6, 7, 8, 9, 5, 6].iter().enumerate() {
        pool.insert(*pid, 0, i as u64);
        assert!(pool.len() <= 2);
    }
    assert_eq!(pool.len(), 2);
}

#[test]
fn eviction_removes_least_recently_used() {
    let mut pool: ConnectionPool<u32> = ConnectionPool::new(2);
    assert!(pool.insert(1, 100, 10).is_none());
    assert!(pool.insert(2, 200, 20).is_none());
    assert!(pool.touch(1, 30));
    let evicted = pool.insert(3, 300, 40).unwrap();
    assert_eq!(evicted.pid, 2);
    assert_eq!(evicted.session, 200);
    assert_eq!(pool.pids(), vec![1, 3]);
    assert_eq!(pool.session(3), Some(&300));
    assert_eq!(pool.session(2), None);
}

#[test]
fn insert_for_a_held_pid_replaces_its_session() {
    let mut pool: ConnectionPool<u32> = ConnectionPool::new(1);
    pool.insert(4, 1, 0);
    let old = pool.insert(4, 2, 5).unwrap();
    assert_eq!((old.pid, old.session), (4, 1));
    assert_eq!(pool.session(4), Some(&2));
    assert_eq!(pool.len(), 1);
}

#[test]
fn a_zero_connection_limit_is_rejected() {
    assert_eq!(config(0, 3).validate(), Err("max_connections must be at least 1".to_string()));
    assert_eq!(config(1, 3).validate(), Ok(()));
}

#[test]
fn reaper_removes_dead_or_idle_only() {
    let mut pool: ConnectionPool<u32> = ConnectionPool::new(5);
    pool.insert(1, 0, 0);
    pool.insert(2, 0, 100);
    pool.insert(3, 0, 50);
    pool.insert(4, 0, 180);
    // At 200 with a limit of 120: pid 1 idle 200, pid 3 idle exactly 150,
    // pid 2 idle 100 but dead, pid 4 idle 20 and alive.
    let removed = pool.reap(200, Some(120), &vec![2]);
    let removed_pids: Vec<i32> = removed.iter().map(|e| e.pid).collect();
    assert_eq!(removed_pids, vec![1, 2, 3]);
    assert_eq!(pool.pids(), vec![4]);
}

#[test]
fn idle_means_strictly_longer_than_the_timeout() {
    let mut pool: ConnectionPool<u32> = ConnectionPool::new(5);
    pool.insert(1, 0, 100);
    assert!(pool.reap(220, Some(120), &vec![]).is_empty());
    assert_eq!(pool.reap(221, Some(120), &vec![]).len(), 1);
}

#[test]
fn missing_credential_is_not_configured_without_attempts() {
    let run = FontCommandRun::new(42, Some(7), false, true, true, 3);
    assert_eq!(run.next_action(), RunAction::Finish);
    assert_eq!(run.outcome(), Some(ZoomingResult::NotConfigured));
    assert_eq!(run.status(), Some(KittyConnectionStatus::NotConfigured));
    assert_eq!(run.attempts(), 0);
}

#[test]
fn missing_socket_is_not_configured_without_attempts() {
    let run = FontCommandRun::new(42, Some(7), true, false, true, 3);
    assert_eq!(run.next_action(), RunAction::Finish);
    assert_eq!(run.outcome(), Some(ZoomingResult::NotConfigured));
    assert_eq!(run.status(), Some(KittyConnectionStatus::NoSocket));
    assert_eq!(run.attempts(), 0);
}

#[test]
fn unresolved_terminal_is_not_configured() {
    let run = FontCommandRun::new(42, None, true, true, false, 3);
    assert_eq!(run.outcome(), Some(ZoomingResult::NotConfigured));
    assert_eq!(run.status(), Some(KittyConnectionStatus::NoSocket));
}

#[test]
fn success_after_three_adjustments() {
    let mut run = FontCommandRun::new(42, Some(7), true, true, false, 3);
    assert_eq!(run.next_action(), RunAction::Connect { pid: 7, delay_ms: 0 });
    run.on_connect_result(Ok(()));
    let mut sends = 0;
    while let RunAction::Send { pid, adjustment } = run.next_action() {
        assert_eq!((pid, adjustment), (7, step_adjustment(false)));
        sends += 1;
        run.on_command_result(Ok(()));
    }
    assert_eq!(sends, 3);
    assert_eq!(run.phase(), RunPhase::Finished);
    assert_eq!(run.outcome(), Some(ZoomingResult::Success { pid: 42, font_adjustment: "-3".to_string() }));
    assert_eq!(run.status(), Some(KittyConnectionStatus::Ready));
}

#[test]
fn attempts_are_bounded_by_retries() {
    let mut run = FontCommandRun::new(1, Some(2), true, true, true, 3);
    let mut connects = 0;
    let mut delays = Vec::new();
    loop {
        match run.next_action() {
            RunAction::Connect { delay_ms, .. } => {
                connects += 1;
                delays.push(delay_ms);
                run.on_connect_result(Ok(()));
            }
            RunAction::Send { .. } => run.on_command_result(Err("timed out".to_string())),
            RunAction::Finish => break,
        }
    }
    assert_eq!(connects, 3);
    assert_eq!(delays, vec![0, 0, 100]);
    assert_eq!(run.outcome(), Some(ZoomingResult::ConnectionFailed));
    assert_eq!(run.status(), Some(KittyConnectionStatus::Failed));
}

#[test]
fn authentication_errors_are_told_apart() {
    let mut run = FontCommandRun::new(1, Some(2), true, true, true, 2);
    run.on_connect_result(Err("refused".to_string()));
    assert_eq!(run.phase(), RunPhase::Connecting);
    run.on_connect_result(Err("bad password given".to_string()));
    assert_eq!(run.outcome(), Some(ZoomingResult::AuthFailed));
    assert!(is_auth_error("authentication required"));
    assert!(!is_auth_error("connection refused"));
}

#[test]
fn zero_retries_fail_at_once() {
    let run = FontCommandRun::new(1, Some(2), true, true, true, 0);
    assert_eq!(run.outcome(), Some(ZoomingResult::ConnectionFailed));
    assert_eq!(run.attempts(), 0);
}

#[test]
fn retry_delays_follow_the_fixed_schedule() {
    assert_eq!(
        (0..6).map(retry_delay_ms).collect::<Vec<u64>>(),
        vec![0, 0, 100, 200, 200, 200]
    );
}

#[test]
fn registry_statuses_follow_evictions_and_shutdown() {
    let mut reg: KittyRegistry<u32> = KittyRegistry::new(config(1, 3));
    reg.set_status(10, KittyConnectionStatus::Ready);
    assert!(reg.add_session(10, 1, 0).is_none());
    assert!(reg.make_room().is_some());
    assert_eq!(reg.get_status(10), None);
    reg.add_session(11, 2, 5);
    reg.set_status(11, KittyConnectionStatus::Ready);
    let closed = reg.shutdown();
    assert_eq!(closed.len(), 1);
    assert_eq!(reg.get_status(11), None);
    assert_eq!(reg.connection_count(), 0);
}

#[test]
fn registry_records_outcome_and_reuses_sessions() {
    let mut reg: KittyRegistry<u32> = KittyRegistry::new(config(4, 3));
    assert_eq!(reg.cached_master_pid(100), None);
    reg.remember_master_pid(100, 7);
    assert_eq!(reg.cached_master_pid(100), Some(7));
    assert!(reg.reuse_session(7, 1).is_none());
    reg.add_session(7, 70, 1);
    assert_eq!(reg.reuse_session(7, 2), Some(&70));
    let mut run = FontCommandRun::new(100, Some(7), true, true, true, 3);
    run.on_connect_result(Ok(()));
    for _ in 0..3 {
        run.on_command_result(Ok(()));
    }
    assert!(reg.record_outcome(&run, 50).is_empty());
    assert_eq!(reg.get_status(100), Some(KittyConnectionStatus::Ready));
    // Last used at 50: idle for 100 at 150 is not more than the timeout.
    assert!(reg.reap(150, &vec![]).is_empty());
    assert_eq!(reg.reap(151, &vec![]).len(), 1);
}

#[test]
fn cleanup_removes_dead_processes_and_their_statuses() {
    let mut reg: KittyRegistry<u32> = KittyRegistry::with_defaults();
    reg.add_session(1, 0, 0);
    reg.add_session(2, 0, 0);
    reg.set_status(2, KittyConnectionStatus::Ready);
    let removed = reg.cleanup_dead_connections(&vec![2, 9]);
    assert_eq!(removed.len(), 1);
    assert_eq!(reg.connected_pids(), vec![1]);
    assert_eq!(reg.get_status(2), None);
    assert!(!reg.verbose());
}

#[test]
fn failed_status_never_coexists_with_a_session() {
    let mut reg: KittyRegistry<u32> = KittyRegistry::new(config(4, 1));
    reg.add_session(5, 50, 0);
    let mut run = FontCommandRun::new(5, Some(5), true, true, true, 1);
    run.on_connect_result(Ok(()));
    run.on_command_result(Err("broken pipe".to_string()));
    assert_eq!(run.phase(), RunPhase::Finished);
    let dropped = reg.record_outcome(&run, 10);
    assert_eq!(dropped.len(), 1);
    assert_eq!(dropped[0].session, 50);
    assert_eq!(reg.get_status(5), Some(KittyConnectionStatus::Failed));
    assert_eq!(reg.connection_count(), 0);
}

#[test]
fn terminal_status_drops_the_session_and_a_new_session_clears_it() {
    let mut reg: KittyRegistry<u32> = KittyRegistry::new(config(4, 3));
    reg.add_session(8, 80, 0);
    assert!(reg.set_status(8, KittyConnectionStatus::Ready).is_none());
    assert_eq!(reg.connection_count(), 1);
    let dropped = reg.set_status(8, KittyConnectionStatus::NoSocket).unwrap();
    assert_eq!(dropped.pid, 8);
    assert_eq!(reg.connection_count(), 0);
    reg.add_session(8, 81, 5);
    assert_eq!(reg.get_status(8), None);
    reg.set_status(8, KittyConnectionStatus::Ready);
    reg.add_session(8, 82, 6);
    assert_eq!(reg.get_status(8), Some(KittyConnectionStatus::Ready));
}

#[test]
fn adjustment_runs_send_the_planned_command_once() {
    let adj = FontAdjustment { op: AdjustOp::Multiply, numerator: 3, denominator: 2 };
    let mut run = FontCommandRun::for_adjustment(9, Some(4), true, true, adj, 2);
    run.on_connect_result(Ok(()));
    assert_eq!(run.next_action(), RunAction::Send { pid: 4, adjustment: adj });
    run.on_command_result(Ok(()));
    assert_eq!(run.outcome(), Some(ZoomingResult::Success { pid: 9, font_adjustment: "*".to_string() }));
    let missing = FontCommandRun::for_adjustment(9, Some(4), false, true, adj, 2);
    assert_eq!(missing.outcome(), Some(ZoomingResult::NotConfigured));
    assert_eq!(missing.status(), Some(KittyConnectionStatus::NotConfigured));
}

#[test]
fn font_command_steps_are_one_point_each() {
    assert_eq!(step_adjustment(true), FontAdjustment { op: AdjustOp::Increase, numerator: 1, denominator: 1 });
    assert_eq!(step_adjustment(false), FontAdjustment { op: AdjustOp::Decrease, numerator: 1, denominator: 1 });
}
