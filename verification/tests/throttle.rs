use spotifytops::spotify_future::{is_client_error_status, AfterError, RetryState};
use spotifytops::throttling_future::{
    Throttle, ThrottlingFuture, ThrottlingFutureQueue, NUMBER_OF_CONCURRENT_FUTURES,
};

#[test]
fn empty_queue() {
    let q = ThrottlingFutureQueue::default();
    assert_eq!(q.in_progress_len(), 0);
    assert_eq!(q.waiting_len(), 0);
}

#[test]
fn futures_get_increasing_sequences_and_wait_in_order() {
    let mut t = Throttle::default();
    let f0 = ThrottlingFuture::new("a", &mut t);
    let f1 = ThrottlingFuture::new("b", &mut t);
    assert_eq!(f0.sequence(), 0);
    assert_eq!(f1.sequence(), 1);
    assert_eq!(t.next_sequence, 2);
    assert_eq!(t.queue.waiting_len(), 2);
    assert!(!f0.processing());
}

#[test]
fn only_the_first_waiting_future_starts() {
    let mut t = Throttle::default();
    let mut f0 = ThrottlingFuture::new(0u8, &mut t);
    let mut f1 = ThrottlingFuture::new(1u8, &mut t);
    assert!(!f1.ready_to_start_polling(&t.queue));
    assert!(f0.ready_to_start_polling(&t.queue));
    assert!(!f1.begin_poll(&mut t.queue));
    assert!(f0.begin_poll(&mut t.queue));
    assert!(f0.processing());
    assert_eq!(t.queue.in_progress_len(), 1);
    assert_eq!(t.queue.waiting_len(), 1);
    // the limit is reached: the next one waits though it is first now
    assert!(!f1.begin_poll(&mut t.queue));
    // a running future goes on
    assert!(f0.begin_poll(&mut t.queue));
    assert_eq!(t.queue.in_progress_len(), NUMBER_OF_CONCURRENT_FUTURES);
    assert!(f0.finish(&mut t.queue));
    assert_eq!(t.queue.in_progress_len(), 0);
    assert!(f1.begin_poll(&mut t.queue));
    assert!(f1.finish(&mut t.queue));
    assert!(!f1.finish(&mut t.queue));
    assert_eq!(*f1.future_mut(), 1u8);
}

#[test]
fn sequence_counter_wraps() {
    let mut t = Throttle::default();
    t.next_sequence = usize::MAX;
    assert_eq!(t.register(), usize::MAX);
    assert_eq!(t.next_sequence, 0);
}

#[test]
fn client_errors_are_400_and_404() {
    assert!(is_client_error_status(400));
    assert!(is_client_error_status(404));
    assert!(!is_client_error_status(401));
    assert!(!is_client_error_status(500));
    assert!(!is_client_error_status(200));
}

#[test]
fn a_client_error_is_retried_once() {
    let mut s = RetryState::new();
    assert_eq!(s.count(), 0);
    assert_eq!(s.on_error(true), AfterError::Retry);
    assert_eq!(s.count(), 1);
    assert_eq!(s.on_error(true), AfterError::GiveUp);
}

#[test]
fn other_errors_are_always_retried() {
    let mut s = RetryState::new();
    for _ in 0..5 {
        assert_eq!(s.on_error(false), AfterError::Retry);
    }
    assert_eq!(s.on_error(true), AfterError::GiveUp);
}

#[test]
fn started_and_finished_futures_leave_the_queue_distinct() {
    let mut t = Throttle::default();
    let mut fs: Vec<ThrottlingFuture<usize>> = (0..4).map(|i| ThrottlingFuture::new(i, &mut t)).collect();
    for round in 0..4 {
        for f in fs.iter_mut() {
            f.begin_poll(&mut t.queue);
        }
        assert_eq!(t.queue.in_progress_len(), 1);
        assert_eq!(t.queue.waiting_len(), 3 - round);
        assert!(fs[round].finish(&mut t.queue));
    }
    assert_eq!(t.queue.in_progress_len(), 0);
}
