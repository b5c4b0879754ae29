//! Tests of the id allocator and the worker registry.

use polldaddy_spam::atomic_id_gen::AtomicIdGen;
use polldaddy_spam::error::PollError;
use polldaddy_spam::worker_manager::WorkerManager;

#[test]
fn distinct_ids_without_free() {
    let mut g = AtomicIdGen::new();
    let a = g.get_id();
    let b = g.get_id();
    let c = g.get_id();
    assert_ne!(a, b);
    assert_ne!(b, c);
    assert_ne!(a, c);
}

#[test]
fn freed_id_reused_before_counter_advances() {
    let mut g = AtomicIdGen::new();
    let a = g.get_id();
    assert_eq!(a, 0);
    g.free_id(a);
    let b = g.get_id();
    assert_eq!(b, 0);
    let c = g.get_id();
    assert_eq!(c, 1);
}

#[test]
fn live_ids_never_reissued() {
    let mut wm = WorkerManager::new();
    let w0 = wm.spawn(String::from("http://10.0.0.1:8080"));
    let w1 = wm.spawn(String::from("http://10.0.0.2:8080"));
    assert_ne!(w0.id(), w1.id());
    wm.cleanup_worker(w0.id());
    wm.release_id(w0.id());
    let w2 = wm.spawn(String::from("http://10.0.0.3:8080"));
    assert_ne!(w2.id(), w1.id());
    assert_eq!(w2.id(), w0.id());
}

#[test]
fn wake_signals_only_pending_wait() {
    let mut wm = WorkerManager::new();
    let w = wm.spawn(String::from("http://10.0.0.1:8080"));
    assert!(!w.should_exit(&wm));
    assert!(!w.wake(&mut wm));
    w.begin_sleep(&mut wm);
    assert!(w.wake(&mut wm));
    assert!(!w.wake(&mut wm));
    w.begin_sleep(&mut wm);
    assert!(w.request_shutdown(&mut wm));
    assert!(w.should_exit(&wm));
}

#[test]
fn message_queue_keeps_producer_order() {
    let mut wm = WorkerManager::new();
    let w = wm.spawn(String::from("http://10.0.0.1:8080"));
    w.send_message(&mut wm, Err(PollError::Network));
    w.send_message(&mut wm, Err(PollError::InvalidBody));
    let m1 = wm.read_message().unwrap();
    let m2 = wm.read_message().unwrap();
    assert_eq!(m1.id, w.id());
    assert_eq!(m2.id, w.id());
    assert!(matches!(m1.data, Err(PollError::Network)));
    assert!(matches!(m2.data, Err(PollError::InvalidBody)));
    assert!(wm.read_message().is_none());
}

#[test]
fn shutdown_requests_exit_and_drains() {
    let mut wm = WorkerManager::new();
    let w0 = wm.spawn(String::from("http://10.0.0.1:8080"));
    let w1 = wm.spawn(String::from("http://10.0.0.2:8080"));
    w0.send_message(&mut wm, Err(PollError::Network));
    wm.shutdown();
    assert!(w0.should_exit(&wm));
    assert!(w1.should_exit(&wm));
    assert!(wm.read_message().is_none());
    assert_eq!(wm.len(), 2);
}

#[test]
fn shutdown_worker_reports_membership() {
    let mut wm = WorkerManager::new();
    let w = wm.spawn(String::from("http://10.0.0.1:8080"));
    assert!(wm.shutdown_worker(w.id()).is_some());
    assert!(w.should_exit(&wm));
    assert!(wm.shutdown_worker(w.id().wrapping_add(1)).is_none());
    assert!(wm.exit_requested(w.id()) == Some(true));
    assert!(wm.exit_requested(w.id().wrapping_add(1)).is_none());
}
