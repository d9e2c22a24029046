use leviathan_plugins::deferred::DeferredQueue;

#[test]
fn drain_due_takes_due_calls_in_order() {
    let mut q: DeferredQueue<u64> = DeferredQueue::new();
    assert!(!q.has_pending());
    q.delayed.push((100, 1));
    q.delayed.push((50, 2));
    q.delayed.push((300, 3));
    q.delayed.push((100, 4));
    assert!(q.has_pending());
    assert_eq!(q.drain_due(100), vec![1, 2, 4]);
    assert_eq!(q.delayed, vec![(300, 3)]);
    assert!(q.drain_due(299).is_empty());
    assert_eq!(q.drain_due(300), vec![3]);
    assert!(!q.has_pending());
}

#[test]
fn drain_immediate_empties_the_immediate_queue() {
    let mut q: DeferredQueue<&str> = DeferredQueue::new();
    q.immediate.push("a");
    q.immediate.push("b");
    q.coroutines.push("c");
    assert_eq!(q.drain_immediate(), vec!["a", "b"]);
    assert!(q.immediate.is_empty());
    assert!(q.has_pending());
}
