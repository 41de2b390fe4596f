use metrique::otel::{
    histogram_replay, Counter, Gauge, Histogram, InstrumentKind, LogBuilder, OtelOptions,
    UpDownCounter, HISTOGRAM_REPEATED_CAP,
};
use std::time::{Duration, SystemTime};

#[test]
fn tags_select_their_instrument_kind() {
    assert_eq!(Counter::construct().kind, InstrumentKind::Counter);
    assert_eq!(UpDownCounter::construct().kind, InstrumentKind::UpDownCounter);
    assert_eq!(Histogram::construct().kind, InstrumentKind::Histogram);
    assert_eq!(Gauge::construct().kind, InstrumentKind::Gauge);
}

#[test]
fn static_ref_keeps_kind() {
    for kind in [
        InstrumentKind::Counter,
        InstrumentKind::UpDownCounter,
        InstrumentKind::Histogram,
        InstrumentKind::Gauge,
    ] {
        assert_eq!(OtelOptions::static_ref(kind).kind, kind);
    }
}

#[test]
fn conflicting_kinds_first_wins() {
    // Inner Counter wrapped by an outer Gauge: the inner kind survives.
    let inner = Counter::construct();
    let outer = Gauge::construct();
    assert_eq!(inner.try_merge(Some(outer)).unwrap().kind, InstrumentKind::Counter);
    assert_eq!(outer.try_merge(Some(inner)).unwrap().kind, InstrumentKind::Gauge);
    // Same kinds merge to that kind.
    assert_eq!(inner.try_merge(Some(inner)).unwrap().kind, InstrumentKind::Counter);
}

#[test]
fn non_otel_options_are_not_merged() {
    assert!(Histogram::construct().try_merge(None).is_none());
}

#[test]
fn log_builder_accumulates_attributes() {
    let mut b = LogBuilder::new();
    assert!(b.is_empty());
    b.add_attribute("Operation", "GET");
    b.add_attribute("Region", "us-east-1");
    assert!(!b.is_empty());
    assert_eq!(
        b.attributes,
        vec![
            ("Operation".to_string(), "GET".to_string()),
            ("Region".to_string(), "us-east-1".to_string())
        ]
    );
    assert!(b.timestamp.is_none());
    let t = SystemTime::UNIX_EPOCH + Duration::from_secs(10);
    b.set_timestamp(t);
    assert_eq!(b.timestamp, Some(t));
}

#[test]
fn log_builder_with_only_timestamp_is_empty() {
    let mut b = LogBuilder::new();
    b.set_timestamp(SystemTime::UNIX_EPOCH);
    assert!(b.is_empty());
}

#[test]
fn merge_reports_the_dropped_kind_only_on_conflict() {
    let inner = Counter::construct();
    assert_eq!(inner.conflicting_kind(Some(Gauge::construct())), Some(InstrumentKind::Gauge));
    assert_eq!(inner.conflicting_kind(Some(Counter::construct())), None);
    assert_eq!(inner.conflicting_kind(None), None);
    assert_eq!(
        Histogram::construct().conflicting_kind(Some(UpDownCounter::construct())),
        Some(InstrumentKind::UpDownCounter)
    );
}

#[test]
fn repeated_histogram_observations_replay_at_most_the_cap() {
    assert_eq!(HISTOGRAM_REPEATED_CAP, 1024);
    assert_eq!(histogram_replay(0), (0, false));
    assert_eq!(histogram_replay(10), (10, false));
    assert_eq!(histogram_replay(1024), (1024, false));
    assert_eq!(histogram_replay(1025), (1024, true));
    assert_eq!(histogram_replay(u64::MAX), (1024, true));
}
