use moraya_core::engine::{ReadEvent, ReadLimits};
use moraya_core::errors::ErrorKind;
use moraya_core::registry::Supervisor;

fn limits() -> ReadLimits {
    ReadLimits { max_line_bytes: 64 * 1024, max_iterations: 100 }
}

#[test]
fn connected_worker_is_listed_with_pid() {
    let mut sup = Supervisor::new();
    sup.connect_commit("srv-a", 4242, 1);
    assert!(sup.contains_worker("srv-a"));
    let ids = sup.list_active_worker_ids();
    assert!(ids.iter().any(|s| s == "srv-a"));
    assert!(!sup.contains_worker("srv-b"));
}

#[test]
fn reconnect_replaces_entry() {
    let mut sup = Supervisor::new();
    sup.connect_commit("srv", 100, 1);
    sup.connect_commit("srv", 200, 2);
    let ids = sup.list_active_worker_ids();
    assert_eq!(ids.iter().filter(|s| s.as_str() == "srv").count(), 1);
    let (pid, token) = sup.disconnect_bookkeeping("srv");
    assert_eq!(pid, Some(200));
    assert_eq!(token, Some(2));
}

#[test]
fn checkout_hides_worker_but_keeps_pid() {
    let mut sup = Supervisor::new();
    sup.connect_commit("srv", 77, 9);
    let token = sup.checkout_worker("srv");
    assert_eq!(token, Some(9));
    // During the blocking exchange the worker is not observable...
    assert!(!sup.contains_worker("srv"));
    // ...but a disconnect still finds the process id to signal.
    assert_eq!(sup.take_pid("srv"), Some(77));
}

#[test]
fn disconnect_clears_both_tables_and_is_idempotent() {
    let mut sup = Supervisor::new();
    sup.connect_commit("srv", 5, 6);
    assert_eq!(sup.disconnect_bookkeeping("srv"), (Some(5), Some(6)));
    assert_eq!(sup.disconnect_bookkeeping("srv"), (None, None));
    assert!(sup.list_active_worker_ids().is_empty());
}

#[test]
fn exchange_against_unknown_worker_fails() {
    let mut sup = Supervisor::new();
    let r = sup.run_exchange("ghost", true, "", &vec![], limits());
    assert_eq!(r, Err(ErrorKind::WorkerNotFound));
}

#[test]
fn exchange_success_puts_worker_back() {
    let mut sup = Supervisor::new();
    sup.connect_commit("srv", 1, 2);
    let events = vec![ReadEvent::Line("{\"ok\":true}\n".to_string())];
    let r = sup.run_exchange("srv", true, "", &events, limits());
    assert_eq!(r, Ok("{\"ok\":true}".to_string()));
    assert!(sup.contains_worker("srv"));
    assert_eq!(sup.take_pid("srv"), Some(1));
}

#[test]
fn exchange_write_failure_tears_worker_down() {
    let mut sup = Supervisor::new();
    sup.connect_commit("srv", 1, 2);
    let r = sup.run_exchange("srv", false, "pipe closed", &vec![], limits());
    assert_eq!(r, Err(ErrorKind::WorkerWriteFailed("Worker error: pipe closed".to_string())));
    assert!(!sup.contains_worker("srv"));
    assert_eq!(sup.take_pid("srv"), None);
}

#[test]
fn exchange_timeout_tears_worker_down() {
    let mut sup = Supervisor::new();
    sup.connect_commit("srv", 1, 2);
    let events = vec![ReadEvent::TimedOut];
    let r = sup.run_exchange("srv", true, "", &events, limits());
    assert_eq!(r, Err(ErrorKind::ResponseTimeout));
    // The worker is subsequently absent from the active list.
    assert!(sup.list_active_worker_ids().is_empty());
    assert_eq!(sup.take_pid("srv"), None);
}

#[test]
fn exchange_does_not_touch_other_workers() {
    let mut sup = Supervisor::new();
    sup.connect_commit("a", 1, 10);
    sup.connect_commit("b", 2, 20);
    let events = vec![ReadEvent::TimedOut];
    let _ = sup.run_exchange("a", true, "", &events, limits());
    assert!(!sup.contains_worker("a"));
    assert!(sup.contains_worker("b"));
    assert_eq!(sup.take_pid("b"), Some(2));
}
