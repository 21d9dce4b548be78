use pitaya_rpc::metrics::{DummyReporter, MetricKind};

#[test]
fn dummy_reporter_always_succeeds() {
    let mut r = DummyReporter {};
    assert!(r.start().is_ok());
    assert!(r.inc_counter("rpc_calls", &["room", "ok"]).is_ok());
    assert!(r.inc_counter("", &[]).is_ok());
    assert!(r.shutdown().is_ok());
}

#[test]
fn metric_kinds_compare_by_variant() {
    assert_eq!(MetricKind::Gauge, MetricKind::Gauge);
    assert_ne!(MetricKind::Gauge, MetricKind::Counter);
    assert_ne!(MetricKind::Histogram, MetricKind::Counter);
}
