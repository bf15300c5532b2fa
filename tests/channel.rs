use data_sink::channel::MeasurementQueue;

#[test]
fn full_queue_refuses_until_drained() {
    let mut q = MeasurementQueue::new(2);
    assert_eq!(q.try_send(1), Ok(()));
    assert_eq!(q.try_send(2), Ok(()));
    assert!(q.is_full());
    assert_eq!(q.try_send(3), Err(3));
    assert_eq!(q.len(), 2);
    assert_eq!(q.drain(), vec![1, 2]);
    assert_eq!(q.try_send(3), Ok(()));
    assert_eq!(q.drain(), vec![3]);
}

#[test]
fn sends_after_a_drain_belong_to_the_next_window() {
    let mut q = MeasurementQueue::new(8);
    q.try_send("a").unwrap();
    q.try_send("b").unwrap();
    let first = q.drain();
    q.try_send("c").unwrap();
    assert_eq!(first, vec!["a", "b"]);
    assert_eq!(q.drain(), vec!["c"]);
    assert!(q.drain().is_empty());
}

#[test]
fn receive_is_first_in_first_out() {
    let mut q = MeasurementQueue::new(3);
    assert_eq!(q.try_recv(), None);
    q.try_send(10).unwrap();
    q.try_send(20).unwrap();
    assert_eq!(q.try_recv(), Some(10));
    assert_eq!(q.try_recv(), Some(20));
    assert_eq!(q.try_recv(), None);
    assert_eq!(q.capacity(), 3);
}
