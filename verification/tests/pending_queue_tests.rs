use setu_router::{PendingQueue, PendingQueueError, Transfer, TransferType, Vlc};

fn create_test_transfer(id: &str) -> Transfer {
    let mut vlc = Vlc::new();
    vlc.entries.push(("node1".to_string(), 1));

    Transfer {
        id: id.to_string(),
        from: "alice".to_string(),
        to: "bob".to_string(),
        amount: 100,
        transfer_type: TransferType::FluxTransfer,
        resources: vec!["alice".to_string()],
        vlc,
        power: 10,
        preferred_solver: None,
        shard_id: None,
    }
}

#[test]
fn test_enqueue_dequeue() {
    let mut queue = PendingQueue::new(10);
    let transfer = create_test_transfer("t1");

    assert!(queue.enqueue(transfer.clone()).is_ok());
    assert_eq!(queue.size(), 1);

    let dequeued = queue.dequeue("t1").unwrap();
    assert_eq!(dequeued.id, "t1");
    assert_eq!(queue.size(), 0);
}

#[test]
fn test_queue_full() {
    let mut queue = PendingQueue::new(2);

    assert!(queue.enqueue(create_test_transfer("t1")).is_ok());
    assert!(queue.enqueue(create_test_transfer("t2")).is_ok());

    let result = queue.enqueue(create_test_transfer("t3"));
    assert!(result.is_err());
    assert!(matches!(result.unwrap_err(), PendingQueueError::QueueFull(_)));
}

#[test]
fn test_duplicate_transfer() {
    let mut queue = PendingQueue::new(10);
    let transfer = create_test_transfer("t1");

    assert!(queue.enqueue(transfer.clone()).is_ok());

    let result = queue.enqueue(transfer);
    assert!(result.is_err());
    assert!(matches!(result.unwrap_err(), PendingQueueError::DuplicateTransfer(_)));
}

#[test]
fn test_dequeue_next() {
    let mut queue = PendingQueue::new(10);

    queue.enqueue(create_test_transfer("t1")).unwrap();
    queue.enqueue(create_test_transfer("t2")).unwrap();
    queue.enqueue(create_test_transfer("t3")).unwrap();

    let t1 = queue.dequeue_next().unwrap();
    assert_eq!(t1.id, "t1");

    let t2 = queue.dequeue_next().unwrap();
    assert_eq!(t2.id, "t2");

    assert_eq!(queue.size(), 1);
}

#[test]
fn test_peek_next() {
    let mut queue = PendingQueue::new(10);
    queue.enqueue(create_test_transfer("t1")).unwrap();

    let peeked = queue.peek_next().unwrap();
    assert_eq!(peeked.id, "t1");
    assert_eq!(queue.size(), 1); // Size unchanged
}

#[test]
fn round_trip_restores_queue() {
    let mut queue = PendingQueue::new(10);
    queue.enqueue(create_test_transfer("t1")).unwrap();
    queue.enqueue(create_test_transfer("t2")).unwrap();
    let size_before = queue.size();

    let fresh = create_test_transfer("t9");
    queue.enqueue(fresh.clone()).unwrap();
    let back = queue.dequeue("t9").unwrap();

    assert_eq!(back.id, fresh.id);
    assert_eq!(back.amount, fresh.amount);
    assert_eq!(back.power, fresh.power);
    assert_eq!(queue.size(), size_before);
    assert_eq!(queue.pending_ids(), vec!["t1".to_string(), "t2".to_string()]);
}

#[test]
fn duplicate_leaves_size_unchanged() {
    let mut queue = PendingQueue::new(10);
    queue.enqueue(create_test_transfer("t1")).unwrap();
    assert_eq!(queue.size(), 1);

    let result = queue.enqueue(create_test_transfer("t1"));
    assert!(matches!(result.unwrap_err(), PendingQueueError::DuplicateTransfer(_)));
    assert_eq!(queue.size(), 1);
}

#[test]
fn overflow_leaves_size_at_max() {
    let mut queue = PendingQueue::new(2);
    queue.enqueue(create_test_transfer("t1")).unwrap();
    queue.enqueue(create_test_transfer("t2")).unwrap();
    assert!(queue.is_full());

    let result = queue.enqueue(create_test_transfer("t3"));
    assert!(matches!(result.unwrap_err(), PendingQueueError::QueueFull(2)));
    assert_eq!(queue.size(), 2);
}

#[test]
fn dequeue_missing_is_not_found() {
    let mut queue = PendingQueue::new(10);
    queue.enqueue(create_test_transfer("t1")).unwrap();

    let result = queue.dequeue("t7");
    assert!(matches!(result.unwrap_err(), PendingQueueError::TransferNotFound(_)));
    assert_eq!(queue.size(), 1);
}

#[test]
fn clear_and_age_of_head() {
    let mut queue = PendingQueue::new(10);
    assert!(queue.oldest_age_ms().is_none());
    assert!(queue.dequeue_next().is_none());

    queue.enqueue(create_test_transfer("t1")).unwrap();
    assert!(queue.oldest_age_ms().is_some());
    assert!(!queue.is_empty());

    queue.clear();
    assert!(queue.is_empty());
    assert!(queue.peek_next().is_none());
}
