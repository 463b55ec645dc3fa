use termchat::bridge::EventQueue;

#[test]
fn delivery_is_first_in_first_out() {
    let mut q: EventQueue<u32> = EventQueue::new();
    assert!(q.send(1));
    assert!(q.send(2));
    assert!(q.send(3));
    assert_eq!(q.try_recv(), Some(1));
    assert!(q.send(4));
    assert_eq!(q.try_recv(), Some(2));
    assert_eq!(q.try_recv(), Some(3));
    assert_eq!(q.try_recv(), Some(4));
    assert_eq!(q.try_recv(), None);
}

#[test]
fn nothing_is_duplicated_or_reordered() {
    let mut q: EventQueue<usize> = EventQueue::new();
    for i in 0..100 {
        q.send(i);
    }
    let out = q.drain();
    assert_eq!(out, (0..100).collect::<Vec<usize>>());
    assert_eq!(q.len(), 0);
}

#[test]
fn receiving_from_an_empty_queue_never_blocks() {
    let mut q: EventQueue<String> = EventQueue::new();
    assert_eq!(q.try_recv(), None);
    assert_eq!(q.len(), 0);
}

#[test]
fn send_after_close_is_a_benign_no_op() {
    let mut q: EventQueue<u32> = EventQueue::new();
    assert!(q.send(1));
    q.close();
    assert!(!q.send(2), "a send after teardown reports false, not an error");
    // What was queued before the close is still delivered.
    assert_eq!(q.try_recv(), Some(1));
    assert_eq!(q.try_recv(), None);
}
