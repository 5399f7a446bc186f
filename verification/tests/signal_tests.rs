use agwaita::signal::Signal;
use std::sync::atomic::{AtomicU32, Ordering};
use std::sync::{Arc, Mutex};

#[test]
fn test_signal_connect_and_emit() {
    let mut signal = Signal::<u32>::new();
    let counter = Arc::new(AtomicU32::new(0));
    let counter_clone = Arc::clone(&counter);

    let _handler = signal.connect(move |value| {
        counter_clone.fetch_add(value, Ordering::SeqCst);
    });

    signal.emit_sync(5);
    assert_eq!(counter.load(Ordering::SeqCst), 5);

    signal.emit_sync(10);
    assert_eq!(counter.load(Ordering::SeqCst), 15);
}

#[test]
fn test_signal_disconnect() {
    let mut signal = Signal::<u32>::new();
    let counter = Arc::new(AtomicU32::new(0));
    let counter_clone = Arc::clone(&counter);

    let handler = signal.connect(move |value| {
        counter_clone.fetch_add(value, Ordering::SeqCst);
    });

    signal.emit_sync(5);
    assert_eq!(counter.load(Ordering::SeqCst), 5);

    signal.disconnect(handler);

    signal.emit_sync(10);
    assert_eq!(counter.load(Ordering::SeqCst), 5);
}

#[test]
fn test_multiple_handlers() {
    let mut signal = Signal::<String>::new();
    let messages = Arc::new(Mutex::new(Vec::new()));

    let msg1 = Arc::clone(&messages);
    let _h1 = signal.connect(move |s| {
        msg1.lock().unwrap().push(format!("Handler1: {}", s));
    });

    let msg2 = Arc::clone(&messages);
    let _h2 = signal.connect(move |s| {
        msg2.lock().unwrap().push(format!("Handler2: {}", s));
    });

    signal.emit_sync("test".to_string());

    let msgs = messages.lock().unwrap();
    assert_eq!(msgs.len(), 2);
    assert!(msgs.contains(&"Handler1: test".to_string()));
    assert!(msgs.contains(&"Handler2: test".to_string()));
}

#[test]
fn handler_ids_are_fresh_and_disconnect_is_exact() {
    let mut signal = Signal::<u32>::new();
    assert_eq!(signal.handler_count(), 0);
    let a = signal.connect(|_v| {});
    let b = signal.connect(|_v| {});
    assert_ne!(a.id(), b.id());
    assert_eq!(signal.handler_count(), 2);
    signal.disconnect(a);
    assert_eq!(signal.handler_count(), 1);
    let c = signal.connect(|_v| {});
    assert_ne!(c.id(), b.id());
    assert_eq!(signal.handler_count(), 2);
}
