use capto::metrics::Metrics;

#[test]
fn counters_accumulate() {
    let mut m = Metrics::new();
    m.incr("a");
    m.add("a", 2);
    m.incr("b");
    let snap = m.snapshot();
    let a = snap.counters.iter().find(|c| c.name == "a").expect("a present");
    assert_eq!(a.count, 3);
    let b = snap.counters.iter().find(|c| c.name == "b").expect("b present");
    assert_eq!(b.count, 1);
}

#[test]
fn durations_track_count_total_avg_max() {
    let mut m = Metrics::new();
    m.observe_ms("lat", 10);
    m.observe_ms("lat", 30);
    m.observe_ms("lat", 20);
    let snap = m.snapshot();
    let d = snap.durations.iter().find(|d| d.name == "lat").expect("lat present");
    assert_eq!(d.count, 3);
    assert_eq!(d.total_ms, 60);
    assert_eq!(d.avg_ms, 20);
    assert_eq!(d.max_ms, 30);
}

#[test]
fn empty_registry_snapshots_empty() {
    let m = Metrics::new();
    let snap = m.snapshot();
    assert!(snap.counters.is_empty());
    assert!(snap.durations.is_empty());
}

#[test]
fn average_rounds_down() {
    let mut m = Metrics::new();
    m.observe_ms("lat", 1);
    m.observe_ms("lat", 2);
    let snap = m.snapshot();
    let d = snap.durations.iter().find(|d| d.name == "lat").unwrap();
    assert_eq!(d.avg_ms, 1);
    assert_eq!(d.max_ms, 2);
}

#[test]
fn counters_are_listed_by_name() {
    let mut m = Metrics::new();
    m.incr("zeta");
    m.incr("alpha");
    m.add("mid", 5);
    let snap = m.snapshot();
    let names: Vec<&str> = snap.counters.iter().map(|c| c.name.as_str()).collect();
    assert_eq!(names, ["alpha", "mid", "zeta"]);
}

#[test]
fn two_snapshots_without_writes_are_identical() {
    let mut m = Metrics::new();
    m.incr("zeta");
    m.incr("alpha");
    m.add("alpha", 4);
    m.observe_ms("GET /status", 12);
    m.observe_ms("GET /status", 3);
    m.observe_ms("POST /record", 40);
    let first = m.snapshot();
    let second = m.snapshot();
    let counters = |s: &capto::metrics::MetricsSnapshot| {
        s.counters.iter().map(|c| (c.name.clone(), c.count)).collect::<Vec<_>>()
    };
    let durations = |s: &capto::metrics::MetricsSnapshot| {
        s.durations
            .iter()
            .map(|d| (d.name.clone(), d.count, d.total_ms, d.avg_ms, d.max_ms))
            .collect::<Vec<_>>()
    };
    assert_eq!(counters(&first), vec![("alpha".to_string(), 5), ("zeta".to_string(), 1)]);
    assert_eq!(counters(&first), counters(&second));
    assert_eq!(
        durations(&first),
        vec![("GET /status".to_string(), 2, 15, 7, 12), ("POST /record".to_string(), 1, 40, 40, 40)]
    );
    assert_eq!(durations(&first), durations(&second));
}
