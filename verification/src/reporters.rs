//! Configuration of the periodic system and runtime metric reporters, and
//! the aggregation of per-disk and per-interface samples into one snapshot.

use std::time::Duration;
use vstd::prelude::*;
use crate::text::push_str;

verus! {

/// Whole seconds of a duration, as `Duration::as_secs` gives them.
pub uninterp spec fn duration_secs(d: Duration) -> u64;

/// Sub-second nanoseconds of a duration, as `Duration::subsec_nanos` gives them.
pub uninterp spec fn duration_subsec_nanos(d: Duration) -> u32;

/// Wraps `Duration::from_secs`: exactly `secs` seconds.
#[verifier::external_body]
fn duration_from_secs(secs: u64) -> (d: Duration)
    ensures
        duration_secs(d) == secs,
        duration_subsec_nanos(d) == 0,
{
    Duration::from_secs(secs)
}

/// Default sampling interval of the reporters, in seconds.
pub const DEFAULT_METRIC_SAMPLING_SECS: u64 = 30;

/// Name style for the fields of emitted metric entries.
#[derive(Clone, Copy, Debug, PartialEq, Eq, Structural)]
pub enum MetricNameStyle {
    /// Field names as written.
    Identity,
    /// `PascalCase` field names.
    PascalCase,
    /// `snake_case` field names.
    SnakeCase,
    /// `kebab-case` field names.
    KebabCase,
}

impl Default for MetricNameStyle {
    fn default() -> (r: Self)
        ensures
            r == MetricNameStyle::Identity,
    {
        MetricNameStyle::Identity
    }
}

/// Configuration of the system metrics reporter.
///
/// By default it tracks CPU, memory, swap, load average, uptime and
/// current-process metrics every 30 seconds; disk, network and component
/// metrics are opt-in.
#[derive(Debug, Clone, Copy)]
#[non_exhaustive]
pub struct SysinfoMetricsConfig {
    interval: Duration,
    name_style: MetricNameStyle,
    track_disks: bool,
    track_networks: bool,
    track_components: bool,
}

impl Default for SysinfoMetricsConfig {
    fn default() -> (r: Self)
        ensures
            duration_secs(r.spec_interval()) == DEFAULT_METRIC_SAMPLING_SECS,
            duration_subsec_nanos(r.spec_interval()) == 0,
            r.spec_name_style() == MetricNameStyle::Identity,
            !r.spec_track_disks(),
            !r.spec_track_networks(),
            !r.spec_track_components(),
    {
        SysinfoMetricsConfig {
            interval: duration_from_secs(DEFAULT_METRIC_SAMPLING_SECS),
            name_style: MetricNameStyle::Identity,
            track_disks: false,
            track_networks: false,
            track_components: false,
        }
    }
}

impl SysinfoMetricsConfig {
    /// The sampling interval.
    pub closed spec fn spec_interval(&self) -> Duration {
        self.interval
    }

    /// The name style of emitted fields.
    pub closed spec fn spec_name_style(&self) -> MetricNameStyle {
        self.name_style
    }

    /// Whether aggregated disk metrics are included.
    pub closed spec fn spec_track_disks(&self) -> bool {
        self.track_disks
    }

    /// Whether aggregated network metrics are included.
    pub closed spec fn spec_track_networks(&self) -> bool {
        self.track_networks
    }

    /// Whether component metrics are included.
    pub closed spec fn spec_track_components(&self) -> bool {
        self.track_components
    }

    /// The sampling interval.
    pub fn interval(&self) -> (r: Duration)
        ensures
            r == self.spec_interval(),
    {
        self.interval
    }

    /// The name style of emitted fields.
    pub fn name_style(&self) -> (r: MetricNameStyle)
        ensures
            r == self.spec_name_style(),
    {
        self.name_style
    }

    /// Whether aggregated disk metrics are included.
    pub fn track_disks(&self) -> (r: bool)
        ensures
            r == self.spec_track_disks(),
    {
        self.track_disks
    }

    /// Whether aggregated network metrics are included.
    pub fn track_networks(&self) -> (r: bool)
        ensures
            r == self.spec_track_networks(),
    {
        self.track_networks
    }

    /// Whether component (thermal sensor) metrics are included.
    pub fn track_components(&self) -> (r: bool)
        ensures
            r == self.spec_track_components(),
    {
        self.track_components
    }

    /// This configuration with another sampling interval.
    pub fn with_interval(self, interval: Duration) -> (r: Self)
        ensures
            r.spec_interval() == interval,
            r.spec_name_style() == self.spec_name_style(),
            r.spec_track_disks() == self.spec_track_disks(),
            r.spec_track_networks() == self.spec_track_networks(),
            r.spec_track_components() == self.spec_track_components(),
    {
        SysinfoMetricsConfig { interval, ..self }
    }

    /// This configuration with another name style.
    pub fn with_name_style(self, name_style: MetricNameStyle) -> (r: Self)
        ensures
            r.spec_interval() == self.spec_interval(),
            r.spec_name_style() == name_style,
            r.spec_track_disks() == self.spec_track_disks(),
            r.spec_track_networks() == self.spec_track_networks(),
            r.spec_track_components() == self.spec_track_components(),
    {
        SysinfoMetricsConfig { name_style, ..self }
    }

    /// This configuration, including aggregated disk metrics.
    pub fn with_disks(self) -> (r: Self)
        ensures
            r.spec_interval() == self.spec_interval(),
            r.spec_name_style() == self.spec_name_style(),
            r.spec_track_disks() == true,
            r.spec_track_networks() == self.spec_track_networks(),
            r.spec_track_components() == self.spec_track_components(),
    {
        SysinfoMetricsConfig { track_disks: true, ..self }
    }

    /// This configuration, including aggregated network metrics.
    pub fn with_networks(self) -> (r: Self)
        ensures
            r.spec_interval() == self.spec_interval(),
            r.spec_name_style() == self.spec_name_style(),
            r.spec_track_disks() == self.spec_track_disks(),
            r.spec_track_networks() == true,
            r.spec_track_components() == self.spec_track_components(),
    {
        SysinfoMetricsConfig { track_networks: true, ..self }
    }

    /// This configuration, including component (thermal sensor) metrics.
    pub fn with_components(self) -> (r: Self)
        ensures
            r.spec_interval() == self.spec_interval(),
            r.spec_name_style() == self.spec_name_style(),
            r.spec_track_disks() == self.spec_track_disks(),
            r.spec_track_networks() == self.spec_track_networks(),
            r.spec_track_components() == true,
    {
        SysinfoMetricsConfig { track_components: true, ..self }
    }
}

/// Configuration of the Tokio runtime metrics reporter.
#[derive(Debug, Clone, Copy)]
#[non_exhaustive]
pub struct TokioRuntimeMetricsConfig {
    interval: Duration,
    name_style: MetricNameStyle,
}

impl Default for TokioRuntimeMetricsConfig {
    fn default() -> (r: Self)
        ensures
            duration_secs(r.spec_interval()) == DEFAULT_METRIC_SAMPLING_SECS,
            duration_subsec_nanos(r.spec_interval()) == 0,
            r.spec_name_style() == MetricNameStyle::Identity,
    {
        TokioRuntimeMetricsConfig {
            interval: duration_from_secs(DEFAULT_METRIC_SAMPLING_SECS),
            name_style: MetricNameStyle::Identity,
        }
    }
}

impl TokioRuntimeMetricsConfig {
    /// The sampling interval.
    pub closed spec fn spec_interval(&self) -> Duration {
        self.interval
    }

    /// The name style of emitted fields.
    pub closed spec fn spec_name_style(&self) -> MetricNameStyle {
        self.name_style
    }

    /// The sampling interval.
    pub fn interval(&self) -> (r: Duration)
        ensures
            r == self.spec_interval(),
    {
        self.interval
    }

    /// The name style of emitted fields.
    pub fn name_style(&self) -> (r: MetricNameStyle)
        ensures
            r == self.spec_name_style(),
    {
        self.name_style
    }

    /// This configuration with another sampling interval.
    pub fn with_interval(self, interval: Duration) -> (r: Self)
        ensures
            r.spec_interval() == interval,
            r.spec_name_style() == self.spec_name_style(),
    {
        TokioRuntimeMetricsConfig { interval, ..self }
    }

    /// This configuration with another name style.
    pub fn with_name_style(self, name_style: MetricNameStyle) -> (r: Self)
        ensures
            r.spec_interval() == self.spec_interval(),
            r.spec_name_style() == name_style,
    {
        TokioRuntimeMetricsConfig { name_style, ..self }
    }
}

/// Aggregated disk metrics across all mounted disks.
#[non_exhaustive]
pub struct DiskMetrics {
    /// Number of mounted disks.
    pub disk_count: u64,
    /// Sum of total space across all mounted disks, in bytes.
    pub total_disk_space: u64,
    /// Sum of available space across all mounted disks, in bytes.
    pub available_disk_space: u64,
}

/// Sum of the first components (total space) of the disk samples.
pub open spec fn total_space_sum(disks: Seq<(u64, u64)>) -> int
    decreases disks.len(),
{
    if disks.len() == 0 {
        0
    } else {
        total_space_sum(disks.drop_last()) + disks.last().0
    }
}

/// Sum of the second components (available space) of the disk samples.
pub open spec fn available_space_sum(disks: Seq<(u64, u64)>) -> int
    decreases disks.len(),
{
    if disks.len() == 0 {
        0
    } else {
        available_space_sum(disks.drop_last()) + disks.last().1
    }
}

impl DiskMetrics {
    /// Aggregates one `(total_space, available_space)` sample per disk:
    /// the number of disks and the two sums.
    pub fn from_disks(disks: &Vec<(u64, u64)>) -> (r: Self)
        requires
            total_space_sum(disks@) <= u64::MAX,
            available_space_sum(disks@) <= u64::MAX,
        ensures
            r.disk_count == disks@.len(),
            r.total_disk_space == total_space_sum(disks@),
            r.available_disk_space == available_space_sum(disks@),
    {
        let mut total: u64 = 0;
        let mut available: u64 = 0;
        let mut i: usize = 0;
        while i < disks.len()
            invariant
                i <= disks.len(),
                total == total_space_sum(disks@.take(i as int)),
                available == available_space_sum(disks@.take(i as int)),
                total_space_sum(disks@) <= u64::MAX,
                available_space_sum(disks@) <= u64::MAX,
            decreases disks.len() - i,
        {
            proof {
                assert(disks@.take(i + 1).drop_last() =~= disks@.take(i as int));
                lemma_disk_sums_monotone(disks@, i + 1);
            }
            total = total + disks[i].0;
            available = available + disks[i].1;
            i = i + 1;
        }
        proof {
            assert(disks@.take(disks.len() as int) =~= disks@);
        }
        DiskMetrics { disk_count: disks.len() as u64, total_disk_space: total, available_disk_space: available }
    }
}

proof fn lemma_disk_sums_monotone(disks: Seq<(u64, u64)>, n: int)
    requires
        0 <= n <= disks.len(),
    ensures
        total_space_sum(disks.take(n)) <= total_space_sum(disks),
        available_space_sum(disks.take(n)) <= available_space_sum(disks),
    decreases disks.len(),
{
    if n < disks.len() {
        lemma_disk_sums_monotone(disks.drop_last(), n);
        assert(disks.drop_last().take(n) =~= disks.take(n));
    } else {
        assert(disks.take(n) =~= disks);
    }
}

/// One network interface's counters, as the system reports them.
pub struct InterfaceCounters {
    /// Bytes received since the previous refresh.
    pub received: u64,
    /// Bytes received since tracking began.
    pub total_received: u64,
    /// Bytes transmitted since the previous refresh.
    pub transmitted: u64,
    /// Bytes transmitted since tracking began.
    pub total_transmitted: u64,
    /// Packets received since the previous refresh.
    pub packets_received: u64,
    /// Packets received since tracking began.
    pub total_packets_received: u64,
    /// Packets transmitted since the previous refresh.
    pub packets_transmitted: u64,
    /// Packets transmitted since tracking began.
    pub total_packets_transmitted: u64,
    /// Receive errors since the previous refresh.
    pub errors_on_received: u64,
    /// Receive errors since tracking began.
    pub total_errors_on_received: u64,
    /// Transmit errors since the previous refresh.
    pub errors_on_transmitted: u64,
    /// Transmit errors since tracking began.
    pub total_errors_on_transmitted: u64,
}

/// Aggregated network metrics across all interfaces.
#[non_exhaustive]
pub struct NetworkMetrics {
    /// Number of network interfaces being tracked.
    pub network_interface_count: u64,
    /// Comma-separated names of the tracked interfaces, e.g. `"eth0,lo,wlan0"`.
    pub network_interfaces: String,
    /// Bytes received since the previous refresh. Summed over all interfaces.
    pub network_received: u64,
    /// Bytes received since tracking began. Summed over all interfaces.
    pub network_total_received: u64,
    /// Bytes transmitted since the previous refresh. Summed over all interfaces.
    pub network_transmitted: u64,
    /// Bytes transmitted since tracking began. Summed over all interfaces.
    pub network_total_transmitted: u64,
    /// Packets received since the previous refresh. Summed over all interfaces.
    pub network_packets_received: u64,
    /// Packets received since tracking began. Summed over all interfaces.
    pub network_total_packets_received: u64,
    /// Packets transmitted since the previous refresh. Summed over all interfaces.
    pub network_packets_transmitted: u64,
    /// Packets transmitted since tracking began. Summed over all interfaces.
    pub network_total_packets_transmitted: u64,
    /// Receive errors since the previous refresh. Summed over all interfaces.
    pub network_errors_on_received: u64,
    /// Receive errors since tracking began. Summed over all interfaces.
    pub network_total_errors_on_received: u64,
    /// Transmit errors since the previous refresh. Summed over all interfaces.
    pub network_errors_on_transmitted: u64,
    /// Transmit errors since tracking began. Summed over all interfaces.
    pub network_total_errors_on_transmitted: u64,
}

/// The names joined with a `','` between each two.
pub open spec fn comma_joined(names: Seq<Seq<char>>) -> Seq<char>
    decreases names.len(),
{
    if names.len() == 0 {
        Seq::empty()
    } else if names.len() == 1 {
        names[0]
    } else {
        comma_joined(names.drop_last()).push(',') + names.last()
    }
}

/// Sum of `received` over the interfaces.
pub open spec fn sum_received(ifs: Seq<InterfaceCounters>) -> int
    decreases ifs.len(),
{
    if ifs.len() == 0 {
        0
    } else {
        sum_received(ifs.drop_last()) + ifs.last().received
    }
}

/// Sum of `total_received` over the interfaces.
pub open spec fn sum_total_received(ifs: Seq<InterfaceCounters>) -> int
    decreases ifs.len(),
{
    if ifs.len() == 0 {
        0
    } else {
        sum_total_received(ifs.drop_last()) + ifs.last().total_received
    }
}

/// Sum of `transmitted` over the interfaces.
pub open spec fn sum_transmitted(ifs: Seq<InterfaceCounters>) -> int
    decreases ifs.len(),
{
    if ifs.len() == 0 {
        0
    } else {
        sum_transmitted(ifs.drop_last()) + ifs.last().transmitted
    }
}

/// Sum of `total_transmitted` over the interfaces.
pub open spec fn sum_total_transmitted(ifs: Seq<InterfaceCounters>) -> int
    decreases ifs.len(),
{
    if ifs.len() == 0 {
        0
    } else {
        sum_total_transmitted(ifs.drop_last()) + ifs.last().total_transmitted
    }
}

/// Sum of `packets_received` over the interfaces.
pub open spec fn sum_packets_received(ifs: Seq<InterfaceCounters>) -> int
    decreases ifs.len(),
{
    if ifs.len() == 0 {
        0
    } else {
        sum_packets_received(ifs.drop_last()) + ifs.last().packets_received
    }
}

/// Sum of `total_packets_received` over the interfaces.
pub open spec fn sum_total_packets_received(ifs: Seq<InterfaceCounters>) -> int
    decreases ifs.len(),
{
    if ifs.len() == 0 {
        0
    } else {
        sum_total_packets_received(ifs.drop_last()) + ifs.last().total_packets_received
    }
}

/// Sum of `packets_transmitted` over the interfaces.
pub open spec fn sum_packets_transmitted(ifs: Seq<InterfaceCounters>) -> int
    decreases ifs.len(),
{
    if ifs.len() == 0 {
        0
    } else {
        sum_packets_transmitted(ifs.drop_last()) + ifs.last().packets_transmitted
    }
}

/// Sum of `total_packets_transmitted` over the interfaces.
pub open spec fn sum_total_packets_transmitted(ifs: Seq<InterfaceCounters>) -> int
    decreases ifs.len(),
{
    if ifs.len() == 0 {
        0
    } else {
        sum_total_packets_transmitted(ifs.drop_last()) + ifs.last().total_packets_transmitted
    }
}

/// Sum of `errors_on_received` over the interfaces.
pub open spec fn sum_errors_on_received(ifs: Seq<InterfaceCounters>) -> int
    decreases ifs.len(),
{
    if ifs.len() == 0 {
        0
    } else {
        sum_errors_on_received(ifs.drop_last()) + ifs.last().errors_on_received
    }
}

/// Sum of `total_errors_on_received` over the interfaces.
pub open spec fn sum_total_errors_on_received(ifs: Seq<InterfaceCounters>) -> int
    decreases ifs.len(),
{
    if ifs.len() == 0 {
        0
    } else {
        sum_total_errors_on_received(ifs.drop_last()) + ifs.last().total_errors_on_received
    }
}

/// Sum of `errors_on_transmitted` over the interfaces.
pub open spec fn sum_errors_on_transmitted(ifs: Seq<InterfaceCounters>) -> int
    decreases ifs.len(),
{
    if ifs.len() == 0 {
        0
    } else {
        sum_errors_on_transmitted(ifs.drop_last()) + ifs.last().errors_on_transmitted
    }
}

/// Sum of `total_errors_on_transmitted` over the interfaces.
pub open spec fn sum_total_errors_on_transmitted(ifs: Seq<InterfaceCounters>) -> int
    decreases ifs.len(),
{
    if ifs.len() == 0 {
        0
    } else {
        sum_total_errors_on_transmitted(ifs.drop_last()) + ifs.last().total_errors_on_transmitted
    }
}

/// Whether every counter's sum over the interfaces fits in a `u64`.
pub open spec fn counter_sums_fit(ifs: Seq<InterfaceCounters>) -> bool {
    &&& sum_received(ifs) <= u64::MAX
    &&& sum_total_received(ifs) <= u64::MAX
    &&& sum_transmitted(ifs) <= u64::MAX
    &&& sum_total_transmitted(ifs) <= u64::MAX
    &&& sum_packets_received(ifs) <= u64::MAX
    &&& sum_total_packets_received(ifs) <= u64::MAX
    &&& sum_packets_transmitted(ifs) <= u64::MAX
    &&& sum_total_packets_transmitted(ifs) <= u64::MAX
    &&& sum_errors_on_received(ifs) <= u64::MAX
    &&& sum_total_errors_on_received(ifs) <= u64::MAX
    &&& sum_errors_on_transmitted(ifs) <= u64::MAX
    &&& sum_total_errors_on_transmitted(ifs) <= u64::MAX
}

proof fn lemma_counter_sums_take(ifs: Seq<InterfaceCounters>, n: int)
    requires
        0 <= n <= ifs.len(),
    ensures
        sum_received(ifs.take(n)) <= sum_received(ifs),
        sum_total_received(ifs.take(n)) <= sum_total_received(ifs),
        sum_transmitted(ifs.take(n)) <= sum_transmitted(ifs),
        sum_total_transmitted(ifs.take(n)) <= sum_total_transmitted(ifs),
        sum_packets_received(ifs.take(n)) <= sum_packets_received(ifs),
        sum_total_packets_received(ifs.take(n)) <= sum_total_packets_received(ifs),
        sum_packets_transmitted(ifs.take(n)) <= sum_packets_transmitted(ifs),
        sum_total_packets_transmitted(ifs.take(n)) <= sum_total_packets_transmitted(ifs),
        sum_errors_on_received(ifs.take(n)) <= sum_errors_on_received(ifs),
        sum_total_errors_on_received(ifs.take(n)) <= sum_total_errors_on_received(ifs),
        sum_errors_on_transmitted(ifs.take(n)) <= sum_errors_on_transmitted(ifs),
        sum_total_errors_on_transmitted(ifs.take(n)) <= sum_total_errors_on_transmitted(ifs),
    decreases ifs.len(),
{
    if n < ifs.len() {
        lemma_counter_sums_take(ifs.drop_last(), n);
        assert(ifs.drop_last().take(n) =~= ifs.take(n));
    } else {
        assert(ifs.take(n) =~= ifs);
    }
}

/// The names of `(name, counters)` pairs.
pub open spec fn interface_names(ifs: Seq<(String, InterfaceCounters)>) -> Seq<Seq<char>> {
    ifs.map_values(|p: (String, InterfaceCounters)| p.0@)
}

/// The counters of `(name, counters)` pairs.
pub open spec fn interface_counters(ifs: Seq<(String, InterfaceCounters)>) -> Seq<InterfaceCounters> {
    ifs.map_values(|p: (String, InterfaceCounters)| p.1)
}

impl NetworkMetrics {
    /// Aggregates one `(name, counters)` sample per interface, in the order
    /// given: the number of interfaces, their names joined with commas, and
    /// each counter summed.
    pub fn from_interfaces(interfaces: &Vec<(String, InterfaceCounters)>) -> (r: Self)
        requires
            counter_sums_fit(interface_counters(interfaces@)),
        ensures
            r.network_interface_count == interfaces@.len(),
            r.network_interfaces@ == comma_joined(interface_names(interfaces@)),
            r.network_received == sum_received(interface_counters(interfaces@)),
            r.network_total_received == sum_total_received(interface_counters(interfaces@)),
            r.network_transmitted == sum_transmitted(interface_counters(interfaces@)),
            r.network_total_transmitted == sum_total_transmitted(interface_counters(interfaces@)),
            r.network_packets_received == sum_packets_received(interface_counters(interfaces@)),
            r.network_total_packets_received == sum_total_packets_received(interface_counters(interfaces@)),
            r.network_packets_transmitted == sum_packets_transmitted(interface_counters(interfaces@)),
            r.network_total_packets_transmitted == sum_total_packets_transmitted(interface_counters(interfaces@)),
            r.network_errors_on_received == sum_errors_on_received(interface_counters(interfaces@)),
            r.network_total_errors_on_received == sum_total_errors_on_received(interface_counters(interfaces@)),
            r.network_errors_on_transmitted == sum_errors_on_transmitted(interface_counters(interfaces@)),
            r.network_total_errors_on_transmitted == sum_total_errors_on_transmitted(interface_counters(interfaces@)),
    {
        let ghost cs = interface_counters(interfaces@);
        let ghost ns = interface_names(interfaces@);
        let mut names = String::new();
        let mut received: u64 = 0;
        let mut total_received: u64 = 0;
        let mut transmitted: u64 = 0;
        let mut total_transmitted: u64 = 0;
        let mut packets_received: u64 = 0;
        let mut total_packets_received: u64 = 0;
        let mut packets_transmitted: u64 = 0;
        let mut total_packets_transmitted: u64 = 0;
        let mut errors_on_received: u64 = 0;
        let mut total_errors_on_received: u64 = 0;
        let mut errors_on_transmitted: u64 = 0;
        let mut total_errors_on_transmitted: u64 = 0;
        let mut i: usize = 0;
        while i < interfaces.len()
            invariant
                i <= interfaces.len(),
                cs == interface_counters(interfaces@),
                ns == interface_names(interfaces@),
                counter_sums_fit(cs),
                names@ == comma_joined(ns.take(i as int)),
                received == sum_received(cs.take(i as int)),
                total_received == sum_total_received(cs.take(i as int)),
                transmitted == sum_transmitted(cs.take(i as int)),
                total_transmitted == sum_total_transmitted(cs.take(i as int)),
                packets_received == sum_packets_received(cs.take(i as int)),
                total_packets_received == sum_total_packets_received(cs.take(i as int)),
                packets_transmitted == sum_packets_transmitted(cs.take(i as int)),
                total_packets_transmitted == sum_total_packets_transmitted(cs.take(i as int)),
                errors_on_received == sum_errors_on_received(cs.take(i as int)),
                total_errors_on_received == sum_total_errors_on_received(cs.take(i as int)),
                errors_on_transmitted == sum_errors_on_transmitted(cs.take(i as int)),
                total_errors_on_transmitted == sum_total_errors_on_transmitted(cs.take(i as int)),
            decreases interfaces.len() - i,
        {
            let (name, c) = &interfaces[i];
            proof {
                assert(cs.take(i + 1).drop_last() =~= cs.take(i as int));
                assert(cs.take(i + 1).last() == *c);
                assert(ns.take(i + 1).drop_last() =~= ns.take(i as int));
                assert(ns.take(i + 1).last() == name@);
                lemma_counter_sums_take(cs, i + 1);
            }
            if i > 0 {
                push_str(&mut names, ",");
                proof {
                    reveal_strlit(",");
                }
            }
            push_str(&mut names, name.as_str());
            proof {
                if i == 0 {
                    assert(names@ =~= comma_joined(ns.take(1)));
                } else {
                    assert(names@ =~= comma_joined(ns.take(i + 1)));
                }
            }
            received = received + c.received;
            total_received = total_received + c.total_received;
            transmitted = transmitted + c.transmitted;
            total_transmitted = total_transmitted + c.total_transmitted;
            packets_received = packets_received + c.packets_received;
            total_packets_received = total_packets_received + c.total_packets_received;
            packets_transmitted = packets_transmitted + c.packets_transmitted;
            total_packets_transmitted = total_packets_transmitted + c.total_packets_transmitted;
            errors_on_received = errors_on_received + c.errors_on_received;
            total_errors_on_received = total_errors_on_received + c.total_errors_on_received;
            errors_on_transmitted = errors_on_transmitted + c.errors_on_transmitted;
            total_errors_on_transmitted = total_errors_on_transmitted + c.total_errors_on_transmitted;
            i = i + 1;
        }
        proof {
            assert(cs.take(interfaces.len() as int) =~= cs);
            assert(ns.take(interfaces.len() as int) =~= ns);
        }
        NetworkMetrics {
            network_interface_count: interfaces.len() as u64,
            network_interfaces: names,
            network_received: received,
            network_total_received: total_received,
            network_transmitted: transmitted,
            network_total_transmitted: total_transmitted,
            network_packets_received: packets_received,
            network_total_packets_received: total_packets_received,
            network_packets_transmitted: packets_transmitted,
            network_total_packets_transmitted: total_packets_transmitted,
            network_errors_on_received: errors_on_received,
            network_total_errors_on_received: total_errors_on_received,
            network_errors_on_transmitted: errors_on_transmitted,
            network_total_errors_on_transmitted: total_errors_on_transmitted,
        }
    }
}

} // verus!
