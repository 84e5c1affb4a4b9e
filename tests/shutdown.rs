use chat::thread_helper::{shutdown_verdict, ThreadError, ThreadState};

#[test]
fn second_shutdown_observes_already_shutting_down() {
    let state = ThreadState::new();
    assert!(!state.is_shuttingdown());
    assert_eq!(state.shutdown_start(), Ok(()));
    assert!(state.is_shuttingdown());
    assert_eq!(state.shutdown_start(), Err(ThreadError::AlreadyShuttingDown));
    assert_eq!(state.shutdown_start(), Err(ThreadError::AlreadyShuttingDown));
    assert!(state.is_shuttingdown());
}

#[test]
fn shutdown_verdict_by_previous_flag() {
    assert_eq!(shutdown_verdict(false), Ok(()));
    assert_eq!(shutdown_verdict(true), Err(ThreadError::AlreadyShuttingDown));
}
