use tourist_core::bus::AsyncResultBus;
use tourist_core::models::PendingOperation;

fn response_text(op: &PendingOperation) -> &str {
    match op {
        PendingOperation::Response(s) => s.as_str(),
        _ => panic!("expected a response"),
    }
}

#[test]
fn drain_is_exhaustive_and_order_preserving() {
    let mut bus = AsyncResultBus::new();
    bus.post(PendingOperation::Response(String::from("A")));
    bus.post(PendingOperation::Response(String::from("B")));
    bus.post(PendingOperation::Response(String::from("C")));
    assert_eq!(bus.len(), 3);
    let drained = bus.drain();
    assert_eq!(drained.len(), 3);
    assert_eq!(response_text(&drained[0]), "A");
    assert_eq!(response_text(&drained[1]), "B");
    assert_eq!(response_text(&drained[2]), "C");
    let second = bus.drain();
    assert!(second.is_empty());
    assert_eq!(bus.len(), 0);
}

#[test]
fn drain_of_empty_bus_returns_nothing() {
    let mut bus = AsyncResultBus::new();
    assert!(bus.drain().is_empty());
}

#[test]
fn posts_across_variants_keep_order() {
    let mut bus = AsyncResultBus::new();
    bus.post(PendingOperation::Error(String::from("oops")));
    bus.post(PendingOperation::LoadingComplete);
    let drained = bus.drain();
    assert_eq!(drained.len(), 2);
    assert!(matches!(&drained[0], PendingOperation::Error(e) if e == "oops"));
    assert!(matches!(&drained[1], PendingOperation::LoadingComplete));
}
