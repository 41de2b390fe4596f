//! OpenTelemetry instrument kinds, the flag tags that select them, and the
//! log record accumulated per entry.

use std::time::SystemTime;
use vstd::prelude::*;
use crate::text::str_to_owned;

verus! {

/// The OpenTelemetry instrument a metric field is recorded on.
#[derive(Clone, Copy, Debug, PartialEq, Eq, Hash, Structural)]
#[non_exhaustive]
pub enum InstrumentKind {
    Counter,
    UpDownCounter,
    Histogram,
    Gauge,
}

/// The options that an OpenTelemetry flag attaches to a metric value.
#[derive(Debug)]
pub struct OtelOptions {
    /// The instrument the value is recorded on.
    pub kind: InstrumentKind,
}

impl OtelOptions {
    /// The shared options value for `kind`.
    pub fn static_ref(kind: InstrumentKind) -> (r: &'static OtelOptions)
        ensures
            r.kind == kind,
    {
        match kind {
            InstrumentKind::Counter => &OtelOptions { kind: InstrumentKind::Counter },
            InstrumentKind::UpDownCounter => &OtelOptions { kind: InstrumentKind::UpDownCounter },
            InstrumentKind::Histogram => &OtelOptions { kind: InstrumentKind::Histogram },
            InstrumentKind::Gauge => &OtelOptions { kind: InstrumentKind::Gauge },
        }
    }

    /// Merges these options with the options `other` of an enclosing flag.
    ///
    /// `None` for `other` stands for options that are not OpenTelemetry
    /// options: those are not ours to merge, and the answer is `None`.
    /// Otherwise the inner kind wins: two flags of different kinds wrapping
    /// the same value keep the kind of the inner one (`self`). Such a
    /// conflict is a programming error; this function gives the release-build
    /// answer for it and leaves the report (a panic in debug builds, else a
    /// rate-limited warning) to its caller, which learns of the conflict from
    /// `conflicting_kind`.
    pub fn try_merge(&self, other: Option<&OtelOptions>) -> (r: Option<&'static OtelOptions>)
        ensures
            other is None ==> r is None,
            other is Some ==> (r matches Some(o) && o.kind == self.kind),
    {
        match other {
            None => None,
            Some(_) => Some(OtelOptions::static_ref(self.kind)),
        }
    }

    /// The kind that `try_merge` drops when it merges these options with
    /// `other`: the kind of `other` when both are OpenTelemetry options of
    /// different kinds (a programming error that callers report), and `None`
    /// when nothing conflicts.
    pub fn conflicting_kind(&self, other: Option<&OtelOptions>) -> (r: Option<InstrumentKind>)
        ensures
            r == (match other {
                Some(o) => if o.kind != self.kind {
                    Some(o.kind)
                } else {
                    None
                },
                None => None,
            }),
    {
        match other {
            Some(o) => if o.kind != self.kind {
                Some(o.kind)
            } else {
                None
            },
            None => None,
        }
    }
}

/// The most times a repeated observation is replayed on a histogram.
pub const HISTOGRAM_REPEATED_CAP: u64 = 1024;

/// How a repeated observation of `occurrences` samples is replayed on a
/// histogram: the number of times its mean is recorded, `min(occurrences,
/// 1024)`, and whether the cap dropped some of them (which callers report,
/// as the histogram's count then falls short by the excess).
pub fn histogram_replay(occurrences: u64) -> (r: (u64, bool))
    ensures
        r.0 == (if occurrences <= HISTOGRAM_REPEATED_CAP {
            occurrences
        } else {
            HISTOGRAM_REPEATED_CAP
        }),
        r.1 == (occurrences > HISTOGRAM_REPEATED_CAP),
        r.0 + (if r.1 {
            occurrences - HISTOGRAM_REPEATED_CAP
        } else {
            0
        }) == occurrences,
{
    if occurrences > HISTOGRAM_REPEATED_CAP {
        (HISTOGRAM_REPEATED_CAP, true)
    } else {
        (occurrences, false)
    }
}

/// Tag for fields recorded on a monotonic counter.
#[non_exhaustive]
pub struct Counter;

/// Tag for fields recorded on an up-down counter.
#[non_exhaustive]
pub struct UpDownCounter;

/// Tag for fields recorded on a histogram.
#[non_exhaustive]
pub struct Histogram;

/// Tag for fields recorded on a gauge.
#[non_exhaustive]
pub struct Gauge;

impl Counter {
    /// The options this tag attaches.
    pub fn construct() -> (r: &'static OtelOptions)
        ensures
            r.kind == InstrumentKind::Counter,
    {
        OtelOptions::static_ref(InstrumentKind::Counter)
    }
}

impl UpDownCounter {
    /// The options this tag attaches.
    pub fn construct() -> (r: &'static OtelOptions)
        ensures
            r.kind == InstrumentKind::UpDownCounter,
    {
        OtelOptions::static_ref(InstrumentKind::UpDownCounter)
    }
}

impl Histogram {
    /// The options this tag attaches.
    pub fn construct() -> (r: &'static OtelOptions)
        ensures
            r.kind == InstrumentKind::Histogram,
    {
        OtelOptions::static_ref(InstrumentKind::Histogram)
    }
}

impl Gauge {
    /// The options this tag attaches.
    pub fn construct() -> (r: &'static OtelOptions)
        ensures
            r.kind == InstrumentKind::Gauge,
    {
        OtelOptions::static_ref(InstrumentKind::Gauge)
    }
}

/// The log record gathered for one entry: its string fields become
/// attributes, and its timestamp, if any, the record's timestamp.
pub struct LogBuilder {
    /// Attribute keys and values, in the order they were added.
    pub attributes: Vec<(String, String)>,
    /// The record's timestamp.
    pub timestamp: Option<SystemTime>,
    /// The record's body.
    pub body: Option<String>,
}

impl LogBuilder {
    /// The attributes as character sequences.
    pub open spec fn attribute_views(&self) -> Seq<(Seq<char>, Seq<char>)> {
        self.attributes@.map_values(|a: (String, String)| (a.0@, a.1@))
    }

    /// An empty record: no attributes, timestamp or body.
    pub fn new() -> (r: Self)
        ensures
            r.attribute_views() == Seq::<(Seq<char>, Seq<char>)>::empty(),
            r.timestamp is None,
            r.body is None,
    {
        let r = LogBuilder { attributes: Vec::new(), timestamp: None, body: None };
        proof {
            assert(r.attribute_views() =~= Seq::<(Seq<char>, Seq<char>)>::empty());
        }
        r
    }

    /// Appends an attribute.
    pub fn add_attribute(&mut self, key: &str, value: &str)
        ensures
            final(self).attribute_views() == old(self).attribute_views().push((key@, value@)),
            final(self).timestamp == old(self).timestamp,
            final(self).body == old(self).body,
    {
        let k = str_to_owned(key);
        let v = str_to_owned(value);
        self.attributes.push((k, v));
        proof {
            assert(final(self).attribute_views() =~= old(self).attribute_views().push((key@, value@)));
        }
    }

    /// Sets the timestamp, replacing any earlier one.
    pub fn set_timestamp(&mut self, ts: SystemTime)
        ensures
            final(self).timestamp == Some(ts),
            final(self).attributes == old(self).attributes,
            final(self).body == old(self).body,
    {
        self.timestamp = Some(ts);
    }

    /// Whether there is nothing to emit: no attribute and no body. An entry
    /// with only metric fields produces no log record.
    pub fn is_empty(&self) -> (r: bool)
        ensures
            r == (self.attributes@.len() == 0 && self.body is None),
    {
        self.attributes.len() == 0 && self.body.is_none()
    }
}

} // verus!
