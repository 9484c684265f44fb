use eisen::atomic_waiter::AtomicWaiter;

#[test]
fn fresh_waiter_is_ready() {
    let mut w = AtomicWaiter::new();
    assert!(w.poll(1));
}

#[test]
fn waiter_resolves_only_on_last_drop() {
    let mut w = AtomicWaiter::new();
    let d1 = w.make_dependency();
    let d2 = w.clone_dependency(&d1);
    let d3 = w.clone_dependency(&d2);
    assert!(!w.poll(7));
    assert_eq!(w.drop_dependency(d2), None);
    assert!(!w.poll(7));
    assert_eq!(w.drop_dependency(d1), None);
    assert!(!w.poll(7));
    // the third (last) drop is the one that hands the callback back
    assert_eq!(w.drop_dependency(d3), Some(7));
    assert!(w.poll(8));
}

#[test]
fn drop_order_does_not_matter() {
    let mut w = AtomicWaiter::new();
    let d1 = w.make_dependency();
    let d2 = w.make_dependency();
    w.poll(42);
    assert_eq!(w.drop_dependency(d1), None);
    assert_eq!(w.drop_dependency(d2), Some(42));

    let mut w2 = AtomicWaiter::new();
    let e1 = w2.make_dependency();
    let e2 = w2.make_dependency();
    w2.poll(42);
    assert_eq!(w2.drop_dependency(e2), None);
    assert_eq!(w2.drop_dependency(e1), Some(42));
}

#[test]
fn poll_overwrites_the_stored_waker() {
    // polled from two contexts in turn: only the latest poller is woken
    let mut w = AtomicWaiter::new();
    let d = w.make_dependency();
    assert!(!w.poll(1));
    assert!(!w.poll(2));
    assert_eq!(w.drop_dependency(d), Some(2));
}

#[test]
fn no_wake_without_a_registered_poll() {
    let mut w = AtomicWaiter::new();
    let d = w.make_dependency();
    assert_eq!(w.drop_dependency(d), None);
    assert!(w.poll(5));
}
