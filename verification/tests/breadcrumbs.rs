use capto::breadcrumbs::{BreadcrumbBus, DEFAULT_CAPACITY};

#[test]
fn records_events_in_order() {
    let mut bus = BreadcrumbBus::new();
    bus.record("lifecycle", "app_started", None);
    bus.record("session", "record start ok", None);
    let ctx = bus.try_snapshot().expect("snapshot available");
    assert_eq!(ctx.breadcrumbs.len(), 2);
    assert_eq!(ctx.breadcrumbs[0].category, "lifecycle");
    assert_eq!(ctx.breadcrumbs[1].message, "record start ok");
    assert!(ctx.breadcrumbs[1].rel_ms >= ctx.breadcrumbs[0].rel_ms);
}

#[test]
fn trims_oldest_beyond_capacity() {
    let mut bus = BreadcrumbBus::with_capacity(3);
    for i in 0..5 {
        bus.record("test", &format!("event {i}"), None);
    }
    let ctx = bus.try_snapshot().expect("snapshot available");
    let messages: Vec<&str> = ctx.breadcrumbs.iter().map(|b| b.message.as_str()).collect();
    assert_eq!(messages, ["event 2", "event 3", "event 4"]);
}

#[test]
fn tracks_last_request_id() {
    let mut bus = BreadcrumbBus::new();
    bus.record("control-plane", "POST /v1/record/start -> 200", Some("req-1".into()));
    bus.record("control-plane", "GET /v1/status -> 200", Some("req-2".into()));
    assert_eq!(bus.last_request_id(), Some("req-2".into()));
    let ctx = bus.try_snapshot().unwrap();
    assert_eq!(ctx.last_request_id.as_deref(), Some("req-2"));
    assert_eq!(ctx.breadcrumbs[1].request_id.as_deref(), Some("req-2"));
}

#[test]
fn empty_bus_snapshots_to_empty_trail() {
    let bus = BreadcrumbBus::new();
    let ctx = bus.try_snapshot().expect("snapshot available");
    assert!(ctx.breadcrumbs.is_empty());
    assert_eq!(ctx.last_request_id, None);
}

#[test]
fn default_capacity_keeps_the_most_recent_sixty_four() {
    let mut bus = BreadcrumbBus::new();
    for i in 0..70 {
        bus.record("test", &format!("event {i}"), None);
    }
    let ctx = bus.try_snapshot().unwrap();
    assert_eq!(ctx.breadcrumbs.len(), DEFAULT_CAPACITY);
    assert_eq!(ctx.breadcrumbs[0].message, "event 6");
    assert_eq!(ctx.breadcrumbs[63].message, "event 69");
}

#[test]
fn request_id_survives_events_without_one() {
    let mut bus = BreadcrumbBus::new();
    bus.record("control-plane", "GET /v1/status -> 200", Some("req-7".into()));
    bus.record("session", "record stop ok", None);
    assert_eq!(bus.last_request_id(), Some("req-7".into()));
    let ctx = bus.try_snapshot().unwrap();
    assert_eq!(ctx.breadcrumbs[1].request_id, None);
}

#[test]
fn zero_capacity_keeps_the_latest_event() {
    let mut bus = BreadcrumbBus::with_capacity(0);
    bus.record("test", "first", None);
    bus.record("test", "second", Some("req-9".into()));
    let ctx = bus.try_snapshot().unwrap();
    assert_eq!(ctx.breadcrumbs.len(), 1);
    assert_eq!(ctx.breadcrumbs[0].message, "second");
    assert_eq!(ctx.last_request_id.as_deref(), Some("req-9"));
}
