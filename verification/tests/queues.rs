use gateway_core::concurrency::{enqueue_target, QueueRejection, WaitQueues, MAX_TOTAL_WAITING};

fn keys(names: &[&str]) -> Vec<String> {
    names.iter().map(|n| n.to_string()).collect()
}

#[test]
fn enqueue_target_prefers_first_shortest_queue_with_room() {
    assert_eq!(enqueue_target(&[2, 1, 1, 3], 3, 0, false), Ok(1));
    assert_eq!(enqueue_target(&[3, 3, 0], 3, 6, false), Ok(2));
    assert_eq!(enqueue_target(&[0, 0], 1, 0, false), Ok(0));
}

#[test]
fn enqueue_target_rejects_full_and_late_requests() {
    assert_eq!(enqueue_target(&[3, 3], 3, 6, false), Err(QueueRejection::Full));
    assert_eq!(enqueue_target(&[], 3, 0, false), Err(QueueRejection::Full));
    assert_eq!(enqueue_target(&[0], 0, 0, false), Err(QueueRejection::Full));
    assert_eq!(enqueue_target(&[0], 3, MAX_TOTAL_WAITING, false), Err(QueueRejection::Full));
    assert_eq!(enqueue_target(&[0], 3, 0, true), Err(QueueRejection::Timeout));
}

#[test]
fn wait_queues_are_first_in_first_out() {
    let mut queues = WaitQueues::new();
    let k = keys(&["account-a"]);
    let first = queues.enqueue(&k, 4, false).unwrap();
    let second = queues.enqueue(&k, 4, false).unwrap();
    let third = queues.enqueue(&k, 4, false).unwrap();
    assert_eq!(queues.waiting(), 3);
    assert_eq!(queues.tickets_issued(), 3);
    assert!(queues.is_turn(&first));
    assert!(!queues.is_turn(&second));
    assert_eq!(queues.release(&first), Some(second.id()));
    assert!(queues.is_turn(&second));
    assert_eq!(queues.release(&third), None);
    assert_eq!(queues.waiting(), 1);
    assert_eq!(queues.release(&second), None);
    assert_eq!(queues.waiting(), 0);
    assert!(!queues.has_waiters("account-a"));
}

#[test]
fn wait_queues_spread_over_shortest_queue() {
    let mut queues = WaitQueues::new();
    let k = keys(&["a", "b"]);
    let t1 = queues.enqueue(&k, 2, false).unwrap();
    let t2 = queues.enqueue(&k, 2, false).unwrap();
    let t3 = queues.enqueue(&k, 2, false).unwrap();
    let t4 = queues.enqueue(&k, 2, false).unwrap();
    assert_eq!(t1.key(), "a");
    assert_eq!(t2.key(), "b");
    assert_eq!(t3.key(), "a");
    assert_eq!(t4.key(), "b");
    assert_eq!(queues.enqueue(&k, 2, false).unwrap_err(), QueueRejection::Full);
    assert_eq!(queues.waiting(), 4);
    assert_eq!(queues.tickets_issued(), 4);
    assert!(queues.has_waiters("a"));
    assert!(queues.has_waiters("b"));
}

#[test]
fn wait_queue_timeout_takes_no_position() {
    let mut queues = WaitQueues::new();
    let k = keys(&["a"]);
    assert_eq!(queues.enqueue(&k, 2, true).unwrap_err(), QueueRejection::Timeout);
    assert_eq!(queues.waiting(), 0);
    assert_eq!(queues.tickets_issued(), 0);
}

#[test]
fn wait_queue_release_of_unknown_ticket_changes_nothing() {
    let mut queues = WaitQueues::new();
    let a = queues.enqueue(&keys(&["a"]), 2, false).unwrap();
    let mut other = WaitQueues::new();
    other.enqueue(&keys(&["b"]), 2, false).unwrap();
    let foreign = other.enqueue(&keys(&["b"]), 2, false).unwrap();
    assert_eq!(queues.release(&foreign), None);
    assert_eq!(queues.waiting(), 1);
    assert!(queues.is_turn(&a));
}

#[test]
fn wait_queues_bound_all_waiters_together() {
    let mut queues = WaitQueues::new();
    for i in 0..MAX_TOTAL_WAITING {
        let name = format!("k{}", i % 8);
        assert!(queues.enqueue(&[name], 1000, false).is_ok());
    }
    assert_eq!(queues.waiting(), MAX_TOTAL_WAITING);
    assert_eq!(queues.enqueue(&keys(&["fresh"]), 1000, false).unwrap_err(), QueueRejection::Full);
}

#[test]
fn release_right_after_enqueue_restores_the_queue() {
    let mut queues = WaitQueues::new();
    let k = keys(&["a"]);
    let first = queues.enqueue(&k, 4, false).unwrap();
    let second = queues.enqueue(&k, 4, false).unwrap();
    let fresh = queues.enqueue(&k, 4, false).unwrap();
    assert_eq!(queues.release(&fresh), None);
    assert_eq!(queues.waiting(), 2);
    assert!(queues.is_turn(&first));
    assert_eq!(queues.release(&first), Some(second.id()));
    assert!(queues.is_turn(&second));
}
