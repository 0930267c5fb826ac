use chunked_wal::wal::queued_bytes::QueuedBytes;

#[test]
fn test_acquire_and_release_track_used_bytes() {
    let mut queued = QueuedBytes::new(100);

    queued.acquire(30);
    assert_eq!(30, queued.used());

    queued.acquire(70);
    assert_eq!(100, queued.used());

    queued.release(30);
    assert_eq!(70, queued.used());

    queued.release_all();
    assert_eq!(0, queued.used());
}

#[test]
fn test_acquire_admits_a_request_bigger_than_the_limit() {
    let mut queued = QueuedBytes::new(10);

    queued.acquire(4096);

    assert_eq!(4096, queued.used());
}

#[test]
fn test_acquire_waits_until_bytes_are_released() {
    let mut queued = QueuedBytes::new(100);
    assert!(queued.acquire(80));

    assert!(!queued.acquire(60));
    assert_eq!(80, queued.used());

    queued.release(80);
    assert!(queued.acquire(60));
    assert_eq!(60, queued.used());
}

#[test]
fn test_acquire_does_not_overflow() {
    let mut queued = QueuedBytes::new(usize::MAX);
    assert!(queued.acquire(usize::MAX));
    assert!(!queued.acquire(1));
    assert!(queued.acquire(0));

    let mut queued = QueuedBytes::new(10);
    assert!(queued.acquire(usize::MAX));
    assert!(!queued.acquire(0));
}

#[test]
fn test_full_queue_admits_nothing_but_empty_requests() {
    let mut queued = QueuedBytes::new(10);
    assert!(queued.acquire(10));
    assert!(!queued.acquire(1));
    assert!(queued.acquire(0));
    assert_eq!(10, queued.used());
}

#[test]
fn test_release_never_makes_a_fitting_request_wait() {
    for released in 0..=6 {
        let mut queued = QueuedBytes::new(10);
        assert!(queued.acquire(6));
        queued.release(released);
        assert!(queued.acquire(4));
    }
}

#[test]
fn test_reserved_bytes_stay_bounded() {
    let limit = 10;
    let mut queued = QueuedBytes::new(limit);
    let mut outstanding: Vec<usize> = Vec::new();
    let sizes = [3, 4, 12, 5, 0, 1, 25, 9, 2, 10, 11];
    for round in 0..200usize {
        let size = sizes[round % sizes.len()];
        if queued.acquire(size) {
            outstanding.push(size);
        } else {
            assert!(!outstanding.is_empty());
            let oldest = outstanding.remove(round % outstanding.len());
            queued.release(oldest);
        }
        if round % 50 == 49 {
            queued.release_all();
            outstanding.clear();
        }

        let total: usize = outstanding.iter().sum();
        assert_eq!(total, queued.used());
        let sole = outstanding.iter().filter(|size| **size > 0).count() == 1;
        assert!(total <= limit || sole);
        assert!(total <= 25);
    }
}
