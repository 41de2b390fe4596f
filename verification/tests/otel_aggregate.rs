use metrique::otel_aggregate::{OtelCounterAccum, OtelGaugeAccum, OtelUpDownCounterAccum};

struct Bytes;

#[test]
fn counter_sums_inserted_values() {
    let mut acc: OtelCounterAccum<u64, Bytes> = OtelCounterAccum::default();
    acc.insert(3);
    acc.insert(4);
    acc.insert(0);
    assert_eq!(acc.close(), 7);
}

#[test]
fn empty_counter_closes_to_zero() {
    let acc: OtelCounterAccum<u32, ()> = OtelCounterAccum::default();
    assert_eq!(acc.close(), 0);
}

#[test]
fn up_down_counter_sums_signed_deltas() {
    let mut acc: OtelUpDownCounterAccum<i64, ()> = OtelUpDownCounterAccum::default();
    acc.insert(5);
    acc.insert(-8);
    acc.insert(1);
    assert_eq!(acc.close(), -2);
}

#[test]
fn gauge_keeps_last_value() {
    let mut acc: OtelGaugeAccum<u64, ()> = OtelGaugeAccum::default();
    acc.insert(10);
    acc.insert(2);
    acc.insert(7);
    assert_eq!(acc.close(), Some(7));
}

#[test]
fn empty_gauge_emits_nothing() {
    let acc: OtelGaugeAccum<f64, ()> = OtelGaugeAccum::default();
    assert_eq!(acc.close(), None);
}
