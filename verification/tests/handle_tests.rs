use hotstuff_core::handle::{
    retain_delivered, wait_to_connect_step, NetworkNodeHandleError, HandleState, WaitDecision,
};

#[test]
fn only_one_handler_registration_succeeds() {
    let mut h = HandleState::new();
    assert!(h.register_handler());
    // A second registration is a programming error and is refused.
    assert!(!h.register_handler());
}

#[test]
fn recv_fails_with_killed_after_kill_signal() {
    let mut h = HandleState::new();
    assert_eq!(h.recv_allowed(), Ok(()));
    h.on_kill_signal();
    assert_eq!(h.recv_allowed(), Err(NetworkNodeHandleError::Killed));
    // Idempotent.
    h.on_kill_signal();
    assert_eq!(h.recv_allowed(), Err(NetworkNodeHandleError::Killed));
}

#[test]
fn shutdown_consumes_the_kill_switch_once() {
    let mut h = HandleState::new();
    // The first shutdown sends the kill signal.
    assert!(h.shutdown_step());
    // A second shutdown finds the switch consumed: log and continue.
    assert!(!h.shutdown_step());
}

#[test]
fn handler_loop_takes_the_recv_kill_endpoint_once() {
    let mut h = HandleState::new();
    assert!(h.take_recv_kill());
    assert!(!h.take_recv_kill());
}

#[test]
fn wait_to_connect_checks_deadline_first() {
    // The deadline wins even when enough peers are connected.
    assert_eq!(wait_to_connect_step(10, 5, 7000, 7000), WaitDecision::TimedOut);
    assert_eq!(wait_to_connect_step(10, 5, 1000, 7000), WaitDecision::Connected);
    assert_eq!(wait_to_connect_step(3, 5, 1000, 7000), WaitDecision::Poll);
    assert_eq!(wait_to_connect_step(0, 0, 0, 7000), WaitDecision::Connected);
}

#[test]
fn listener_collection_keeps_only_reachable_ones() {
    let ids = vec![10, 11, 12, 13, 14];
    let delivered = vec![true, false, true, false, true];
    assert_eq!(retain_delivered(&ids, &delivered), vec![10, 12, 14]);
    let none_reachable = vec![false, false, false, false, false];
    assert_eq!(retain_delivered(&ids, &none_reachable), Vec::<u64>::new());
    let all_reachable = vec![true, true, true, true, true];
    assert_eq!(retain_delivered(&ids, &all_reachable), ids);
}
