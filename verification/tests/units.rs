use metrique::units::{
    metrics_024_unit_to_metrique_unit, unit_to_otel, MetricsRsUnit, NegativeScale, PositiveScale,
    Unit,
};

#[test]
fn test_metrics_024_unit_to_metrique_unit() {
    let map = [
        (Unit::Count, MetricsRsUnit::Count),
        (Unit::Percent, MetricsRsUnit::Percent),
        (Unit::Second(NegativeScale::Micro), MetricsRsUnit::Microseconds),
        (Unit::Second(NegativeScale::Milli), MetricsRsUnit::Milliseconds),
        (Unit::Custom("Nanoseconds"), MetricsRsUnit::Nanoseconds),
        (Unit::Second(NegativeScale::One), MetricsRsUnit::Seconds),
        (Unit::Byte(PositiveScale::One), MetricsRsUnit::Bytes),
        (Unit::Custom("Kibibytes"), MetricsRsUnit::Kibibytes),
        (Unit::Custom("Mebibytes"), MetricsRsUnit::Mebibytes),
        (Unit::Custom("Gibibytes"), MetricsRsUnit::Gibibytes),
        (Unit::Custom("Tebibytes"), MetricsRsUnit::Tebibytes),
        (Unit::Byte(PositiveScale::One), MetricsRsUnit::Bytes),
        (Unit::BitPerSecond(PositiveScale::One), MetricsRsUnit::BitsPerSecond),
        (Unit::BitPerSecond(PositiveScale::Kilo), MetricsRsUnit::KilobitsPerSecond),
        (Unit::BitPerSecond(PositiveScale::Mega), MetricsRsUnit::MegabitsPerSecond),
        (Unit::BitPerSecond(PositiveScale::Giga), MetricsRsUnit::GigabitsPerSecond),
        (Unit::BitPerSecond(PositiveScale::Tera), MetricsRsUnit::TerabitsPerSecond),
        (Unit::Custom("Count/Second"), MetricsRsUnit::CountPerSecond),
    ];
    assert_eq!(metrics_024_unit_to_metrique_unit(None), Unit::Dimensionless);
    for (metrique_unit, metrics_unit) in map {
        assert_eq!(metrics_024_unit_to_metrique_unit(Some(metrics_unit)), metrique_unit);
    }
}

#[test]
fn otel_unit_names() {
    assert_eq!(unit_to_otel(Unit::Dimensionless), "1");
    assert_eq!(unit_to_otel(Unit::Count), "1");
    assert_eq!(unit_to_otel(Unit::Percent), "%");
    assert_eq!(unit_to_otel(Unit::Second(NegativeScale::Micro)), "us");
    assert_eq!(unit_to_otel(Unit::Second(NegativeScale::Milli)), "ms");
    assert_eq!(unit_to_otel(Unit::Second(NegativeScale::One)), "s");
    assert_eq!(unit_to_otel(Unit::Byte(PositiveScale::One)), "By");
    assert_eq!(unit_to_otel(Unit::Byte(PositiveScale::Giga)), "GBy");
    assert_eq!(unit_to_otel(Unit::BytePerSecond(PositiveScale::Kilo)), "KBy/s");
    assert_eq!(unit_to_otel(Unit::Bit(PositiveScale::Mega)), "Mbit");
    assert_eq!(unit_to_otel(Unit::BitPerSecond(PositiveScale::Tera)), "Tbit/s");
    assert_eq!(unit_to_otel(Unit::Custom("widgets")), "widgets");
}
