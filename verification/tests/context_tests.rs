use mybox::context::DeferredQueue;
use std::sync::atomic::{AtomicUsize, Ordering};
use std::sync::Arc;

#[test]
fn ui_proxy_stashes_closure_until_drained() {
    let mut ui: DeferredQueue<Box<dyn FnOnce() + Send>> = DeferredQueue::new();
    let ran = Arc::new(AtomicUsize::new(0));
    let r = ran.clone();
    let sent = ui.submit(Box::new(move || {
        r.fetch_add(1, Ordering::SeqCst);
    }));
    assert!(sent.is_none(), "no loop yet: the closure waits");
    let drained = ui.take_pending();
    assert_eq!(drained.len(), 1);
    assert_eq!(ran.load(Ordering::SeqCst), 0, "closure must not run until drained");
    for f in drained {
        f();
    }
    assert_eq!(ran.load(Ordering::SeqCst), 1);
}

#[test]
fn going_live_flushes_in_order_then_passes_through() {
    let mut q = DeferredQueue::new();
    assert_eq!(q.submit(1), None);
    assert_eq!(q.submit(2), None);
    assert_eq!(q.go_live(), vec![1, 2]);
    assert_eq!(q.submit(3), Some(3), "a live loop takes items at once");
    assert!(q.take_pending().is_empty());
}
