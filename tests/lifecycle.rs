use net_listener::{Lifecycle, Phase, StartError};

#[test]
fn new_handle_is_connected_without_worker() {
    let c = Lifecycle::new();
    assert_eq!(c.phase(), Phase::Connected);
    assert!(!c.has_worker());
}

#[test]
fn interrupt_before_start_is_a_no_op() {
    let c = Lifecycle::new();
    assert!(!c.interrupt());
    assert_eq!(c.phase(), Phase::Connected);
    assert!(!c.interrupt());
}

#[test]
fn start_spawns_one_worker() {
    let mut c = Lifecycle::new();
    assert_eq!(c.start(), Ok(()));
    assert_eq!(c.phase(), Phase::Listening);
    assert!(c.has_worker());
}

#[test]
fn second_start_is_refused() {
    let mut c = Lifecycle::new();
    assert_eq!(c.start(), Ok(()));
    assert_eq!(c.start(), Err(StartError::AlreadyStarted));
    assert_eq!(c.phase(), Phase::Listening);
}

#[test]
fn start_after_close_is_refused() {
    let mut c = Lifecycle::new();
    assert!(!c.close());
    assert_eq!(c.start(), Err(StartError::Closed));
    assert_eq!(c.phase(), Phase::Closed);
}

#[test]
fn interrupt_while_listening_shuts_down() {
    let mut c = Lifecycle::new();
    c.start().unwrap();
    assert!(c.interrupt());
    assert!(c.interrupt());
    assert_eq!(c.phase(), Phase::Listening);
}

#[test]
fn close_of_started_handle_joins_worker() {
    let mut c = Lifecycle::new();
    c.start().unwrap();
    assert!(c.close());
    assert_eq!(c.phase(), Phase::Closed);
    assert!(!c.has_worker());
    assert!(!c.interrupt());
}

#[test]
fn close_of_unstarted_handle_joins_nothing() {
    let mut c = Lifecycle::new();
    assert!(!c.close());
    assert_eq!(c.phase(), Phase::Closed);
}

#[test]
fn close_twice_joins_once() {
    let mut c = Lifecycle::new();
    c.start().unwrap();
    assert!(c.close());
    assert!(!c.close());
}
