use mybox::event::{Event, EventFilter, EventPayload, FrameworkEvent, SubscriptionId};

fn event(from: &'static str, kind: &'static str) -> Event {
    Event { from, kind, payload: EventPayload::Module(serde_json::Value::Null) }
}

#[test]
fn wildcard_kind_matches_any_kind_for_from() {
    let f = EventFilter::kind("capture", "*");
    assert!(f.matches(&event("capture", "screenshot-taken")));
    assert!(f.matches(&event("capture", "region-selected")));
    assert!(!f.matches(&event("palette", "screenshot-taken")));
}

#[test]
fn all_matches_everything() {
    let f = EventFilter::all();
    assert!(f.matches(&event("capture", "screenshot-taken")));
    assert!(f.matches(&event("core", "window-created")));
    assert!(f.matches(&event("anything", "at-all")));
}

#[test]
fn non_matching_filter_returns_false() {
    let f = EventFilter::kind("capture", "screenshot-taken");
    assert!(!f.matches(&event("capture", "region-selected")));
    assert!(!f.matches(&event("palette", "screenshot-taken")));
}

#[test]
fn exact_from_and_kind_match() {
    let f = EventFilter::kind("capture", "screenshot-taken");
    assert!(f.matches(&event("capture", "screenshot-taken")));
}

#[test]
fn wildcard_from_matches_any_source_of_a_kind() {
    let f = EventFilter::kind("*", "hotkey.triggered");
    assert!(f.matches(&event("core", "hotkey.triggered")));
    assert!(!f.matches(&event("core", "window-created")));
}

#[test]
fn hotkey_triggered_has_id_and_action() {
    let payload = EventPayload::Framework(FrameworkEvent::HotkeyTriggered { id: 7, action: "open-test-window".to_string() });
    let e = Event { from: "core", kind: "hotkey.triggered", payload };
    if let EventPayload::Framework(FrameworkEvent::HotkeyTriggered { id, action }) = &e.payload {
        assert_eq!(*id, 7);
        assert_eq!(action, "open-test-window");
    } else {
        panic!("expected HotkeyTriggered");
    }
    assert_eq!(SubscriptionId(3), SubscriptionId(3));
}

#[test]
fn two_subscriptions_get_distinct_ids() {
    let mut subs = mybox::event::Subscriptions::new();
    let a = subs.on(EventFilter::all(), ());
    let b = subs.on(EventFilter::all(), ());
    assert_ne!(a, b, "on() must return a distinct SubscriptionId per call");
    assert_eq!((a, b), (SubscriptionId(1), SubscriptionId(2)));
}

#[test]
fn dispatch_selects_matching_subscriptions_in_order() {
    let mut subs = mybox::event::Subscriptions::new();
    subs.on(EventFilter::kind("capture", "*"), "capture-any");
    subs.on(EventFilter::kind("capture", "screenshot-taken"), "capture-shot");
    subs.on(EventFilter::all(), "all");
    subs.on(EventFilter::kind("palette", "*"), "palette-any");
    let shot = event("capture", "screenshot-taken");
    let picked: Vec<&str> = subs.matching(&shot).into_iter().map(|i| *subs.handler(i)).collect();
    assert_eq!(picked, vec!["capture-any", "capture-shot", "all"]);
    let other = event("core", "window-created");
    assert_eq!(subs.matching(&other), vec![2]);
    assert_eq!(subs.len(), 4);
}
