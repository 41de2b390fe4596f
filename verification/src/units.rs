//! Metric units, their OpenTelemetry names, and the units of the `metrics`
//! facade mapped onto them.

use vstd::prelude::*;

verus! {

/// A scale below one.
#[derive(Clone, Copy, Debug, PartialEq, Eq, Structural)]
pub enum NegativeScale {
    Micro,
    Milli,
    One,
}

/// A scale of one or above.
#[derive(Clone, Copy, Debug, PartialEq, Eq, Structural)]
pub enum PositiveScale {
    One,
    Kilo,
    Mega,
    Giga,
    Tera,
}

/// The unit of a metric value.
#[derive(Clone, Copy, Debug, PartialEq, Eq)]
pub enum Unit {
    /// Dimensionless (written `None` in metric formats).
    Dimensionless,
    Count,
    Percent,
    Second(NegativeScale),
    Byte(PositiveScale),
    BytePerSecond(PositiveScale),
    Bit(PositiveScale),
    BitPerSecond(PositiveScale),
    /// A unit given by name.
    Custom(&'static str),
}

/// The UCUM-style name that OpenTelemetry semantic conventions use for a
/// unit: `1` when dimensionless or a count, `%`, `us`/`ms`/`s`, `By` with a
/// `K`/`M`/`G`/`T` prefix, `bit` likewise, and `/s` for rates.
pub open spec fn otel_unit_name(unit: Unit) -> &'static str {
    match unit {
        Unit::Dimensionless => "1",
        Unit::Count => "1",
        Unit::Percent => "%",
        Unit::Second(NegativeScale::Micro) => "us",
        Unit::Second(NegativeScale::Milli) => "ms",
        Unit::Second(NegativeScale::One) => "s",
        Unit::Byte(PositiveScale::One) => "By",
        Unit::Byte(PositiveScale::Kilo) => "KBy",
        Unit::Byte(PositiveScale::Mega) => "MBy",
        Unit::Byte(PositiveScale::Giga) => "GBy",
        Unit::Byte(PositiveScale::Tera) => "TBy",
        Unit::BytePerSecond(PositiveScale::One) => "By/s",
        Unit::BytePerSecond(PositiveScale::Kilo) => "KBy/s",
        Unit::BytePerSecond(PositiveScale::Mega) => "MBy/s",
        Unit::BytePerSecond(PositiveScale::Giga) => "GBy/s",
        Unit::BytePerSecond(PositiveScale::Tera) => "TBy/s",
        Unit::Bit(PositiveScale::One) => "bit",
        Unit::Bit(PositiveScale::Kilo) => "Kbit",
        Unit::Bit(PositiveScale::Mega) => "Mbit",
        Unit::Bit(PositiveScale::Giga) => "Gbit",
        Unit::Bit(PositiveScale::Tera) => "Tbit",
        Unit::BitPerSecond(PositiveScale::One) => "bit/s",
        Unit::BitPerSecond(PositiveScale::Kilo) => "Kbit/s",
        Unit::BitPerSecond(PositiveScale::Mega) => "Mbit/s",
        Unit::BitPerSecond(PositiveScale::Giga) => "Gbit/s",
        Unit::BitPerSecond(PositiveScale::Tera) => "Tbit/s",
        Unit::Custom(s) => s,
    }
}

/// Maps a unit to the name OpenTelemetry expects on the wire.
pub fn unit_to_otel(unit: Unit) -> (r: &'static str)
    ensures
        r == otel_unit_name(unit),
{
    match unit {
        Unit::Dimensionless | Unit::Count => "1",
        Unit::Percent => "%",
        Unit::Second(NegativeScale::Micro) => "us",
        Unit::Second(NegativeScale::Milli) => "ms",
        Unit::Second(NegativeScale::One) => "s",
        Unit::Byte(scale) => match scale {
            PositiveScale::One => "By",
            PositiveScale::Kilo => "KBy",
            PositiveScale::Mega => "MBy",
            PositiveScale::Giga => "GBy",
            PositiveScale::Tera => "TBy",
        },
        Unit::BytePerSecond(scale) => match scale {
            PositiveScale::One => "By/s",
            PositiveScale::Kilo => "KBy/s",
            PositiveScale::Mega => "MBy/s",
            PositiveScale::Giga => "GBy/s",
            PositiveScale::Tera => "TBy/s",
        },
        Unit::Bit(scale) => match scale {
            PositiveScale::One => "bit",
            PositiveScale::Kilo => "Kbit",
            PositiveScale::Mega => "Mbit",
            PositiveScale::Giga => "Gbit",
            PositiveScale::Tera => "Tbit",
        },
        Unit::BitPerSecond(scale) => match scale {
            PositiveScale::One => "bit/s",
            PositiveScale::Kilo => "Kbit/s",
            PositiveScale::Mega => "Mbit/s",
            PositiveScale::Giga => "Gbit/s",
            PositiveScale::Tera => "Tbit/s",
        },
        Unit::Custom(s) => s,
    }
}

/// The SI prefix of a scale of one or above, as OpenTelemetry writes it:
/// none, `K`, `M`, `G` or `T`.
pub open spec fn scale_prefix(s: PositiveScale) -> Seq<char> {
    match s {
        PositiveScale::One => Seq::empty(),
        PositiveScale::Kilo => seq!['K'],
        PositiveScale::Mega => seq!['M'],
        PositiveScale::Giga => seq!['G'],
        PositiveScale::Tera => seq!['T'],
    }
}

/// The scaled units keep their scale on the wire: the name of a byte, byte
/// rate, bit or bit rate unit is the scale's prefix followed by `By`,
/// `By/s`, `bit` or `bit/s`; so two different scales of one unit never get
/// the same name, and a scaled unit is never named like the unscaled one.
pub proof fn lemma_scaled_unit_names(s: PositiveScale, t: PositiveScale)
    ensures
        otel_unit_name(Unit::Byte(s))@ == scale_prefix(s) + seq!['B', 'y'],
        otel_unit_name(Unit::BytePerSecond(s))@ == scale_prefix(s) + seq!['B', 'y', '/', 's'],
        otel_unit_name(Unit::Bit(s))@ == scale_prefix(s) + seq!['b', 'i', 't'],
        otel_unit_name(Unit::BitPerSecond(s))@ == scale_prefix(s) + seq!['b', 'i', 't', '/', 's'],
        s != t ==> otel_unit_name(Unit::Byte(s))@ != otel_unit_name(Unit::Byte(t))@,
        s != t ==> otel_unit_name(Unit::BytePerSecond(s))@ != otel_unit_name(
            Unit::BytePerSecond(t),
        )@,
        s != t ==> otel_unit_name(Unit::Bit(s))@ != otel_unit_name(Unit::Bit(t))@,
        s != t ==> otel_unit_name(Unit::BitPerSecond(s))@ != otel_unit_name(
            Unit::BitPerSecond(t),
        )@,
{
    reveal_strlit("By");
    reveal_strlit("KBy");
    reveal_strlit("MBy");
    reveal_strlit("GBy");
    reveal_strlit("TBy");
    reveal_strlit("By/s");
    reveal_strlit("KBy/s");
    reveal_strlit("MBy/s");
    reveal_strlit("GBy/s");
    reveal_strlit("TBy/s");
    reveal_strlit("bit");
    reveal_strlit("Kbit");
    reveal_strlit("Mbit");
    reveal_strlit("Gbit");
    reveal_strlit("Tbit");
    reveal_strlit("bit/s");
    reveal_strlit("Kbit/s");
    reveal_strlit("Mbit/s");
    reveal_strlit("Gbit/s");
    reveal_strlit("Tbit/s");
    assert(otel_unit_name(Unit::Byte(s))@ =~= scale_prefix(s) + seq!['B', 'y']);
    assert(otel_unit_name(Unit::BytePerSecond(s))@ =~= scale_prefix(s) + seq!['B', 'y', '/', 's']);
    assert(otel_unit_name(Unit::Bit(s))@ =~= scale_prefix(s) + seq!['b', 'i', 't']);
    assert(otel_unit_name(Unit::BitPerSecond(s))@ =~= scale_prefix(s) + seq![
        'b',
        'i',
        't',
        '/',
        's',
    ]);
    if s != t {
        let a = otel_unit_name(Unit::Byte(s))@;
        let b = otel_unit_name(Unit::Byte(t))@;
        if a.len() == b.len() {
            assert(a[0] != b[0]);
        }
        let a = otel_unit_name(Unit::BytePerSecond(s))@;
        let b = otel_unit_name(Unit::BytePerSecond(t))@;
        if a.len() == b.len() {
            assert(a[0] != b[0]);
        }
        let a = otel_unit_name(Unit::Bit(s))@;
        let b = otel_unit_name(Unit::Bit(t))@;
        if a.len() == b.len() {
            assert(a[0] != b[0]);
        }
        let a = otel_unit_name(Unit::BitPerSecond(s))@;
        let b = otel_unit_name(Unit::BitPerSecond(t))@;
        if a.len() == b.len() {
            assert(a[0] != b[0]);
        }
    }
}

/// The units of the `metrics` facade, one for one.
#[derive(Clone, Copy, Debug, PartialEq, Eq, Structural)]
pub enum MetricsRsUnit {
    Count,
    Percent,
    Seconds,
    Milliseconds,
    Microseconds,
    Nanoseconds,
    Tebibytes,
    Gibibytes,
    Mebibytes,
    Kibibytes,
    Bytes,
    TerabitsPerSecond,
    GigabitsPerSecond,
    MegabitsPerSecond,
    KilobitsPerSecond,
    BitsPerSecond,
    CountPerSecond,
}

/// The unit that a `metrics` facade unit is reported with: the matching
/// unit where there is one, else a custom unit named after it, and
/// dimensionless when none is given.
pub open spec fn metrics_rs_unit(unit: Option<MetricsRsUnit>) -> Unit {
    match unit {
        None => Unit::Dimensionless,
        Some(MetricsRsUnit::Count) => Unit::Count,
        Some(MetricsRsUnit::Percent) => Unit::Percent,
        Some(MetricsRsUnit::Seconds) => Unit::Second(NegativeScale::One),
        Some(MetricsRsUnit::Milliseconds) => Unit::Second(NegativeScale::Milli),
        Some(MetricsRsUnit::Microseconds) => Unit::Second(NegativeScale::Micro),
        Some(MetricsRsUnit::Nanoseconds) => Unit::Custom("Nanoseconds"),
        Some(MetricsRsUnit::Tebibytes) => Unit::Custom("Tebibytes"),
        Some(MetricsRsUnit::Gibibytes) => Unit::Custom("Gibibytes"),
        Some(MetricsRsUnit::Mebibytes) => Unit::Custom("Mebibytes"),
        Some(MetricsRsUnit::Kibibytes) => Unit::Custom("Kibibytes"),
        Some(MetricsRsUnit::Bytes) => Unit::Byte(PositiveScale::One),
        Some(MetricsRsUnit::TerabitsPerSecond) => Unit::BitPerSecond(PositiveScale::Tera),
        Some(MetricsRsUnit::GigabitsPerSecond) => Unit::BitPerSecond(PositiveScale::Giga),
        Some(MetricsRsUnit::MegabitsPerSecond) => Unit::BitPerSecond(PositiveScale::Mega),
        Some(MetricsRsUnit::KilobitsPerSecond) => Unit::BitPerSecond(PositiveScale::Kilo),
        Some(MetricsRsUnit::BitsPerSecond) => Unit::BitPerSecond(PositiveScale::One),
        Some(MetricsRsUnit::CountPerSecond) => Unit::Custom("Count/Second"),
    }
}

/// Converts a `metrics` facade unit.
pub fn metrics_024_unit_to_metrique_unit(unit: Option<MetricsRsUnit>) -> (r: Unit)
    ensures
        r == metrics_rs_unit(unit),
{
    match unit {
        Some(u) => match u {
            MetricsRsUnit::Count => Unit::Count,
            MetricsRsUnit::Percent => Unit::Percent,
            MetricsRsUnit::Seconds => Unit::Second(NegativeScale::One),
            MetricsRsUnit::Milliseconds => Unit::Second(NegativeScale::Milli),
            MetricsRsUnit::Microseconds => Unit::Second(NegativeScale::Micro),
            MetricsRsUnit::Nanoseconds => Unit::Custom("Nanoseconds"),
            MetricsRsUnit::Tebibytes => Unit::Custom("Tebibytes"),
            MetricsRsUnit::Gibibytes => Unit::Custom("Gibibytes"),
            MetricsRsUnit::Mebibytes => Unit::Custom("Mebibytes"),
            MetricsRsUnit::Kibibytes => Unit::Custom("Kibibytes"),
            MetricsRsUnit::Bytes => Unit::Byte(PositiveScale::One),
            MetricsRsUnit::TerabitsPerSecond => Unit::BitPerSecond(PositiveScale::Tera),
            MetricsRsUnit::GigabitsPerSecond => Unit::BitPerSecond(PositiveScale::Giga),
            MetricsRsUnit::MegabitsPerSecond => Unit::BitPerSecond(PositiveScale::Mega),
            MetricsRsUnit::KilobitsPerSecond => Unit::BitPerSecond(PositiveScale::Kilo),
            MetricsRsUnit::BitsPerSecond => Unit::BitPerSecond(PositiveScale::One),
            MetricsRsUnit::CountPerSecond => Unit::Custom("Count/Second"),
        },
        None => Unit::Dimensionless,
    }
}

} // verus!
