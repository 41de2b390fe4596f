use metrique::reporters::{
    DiskMetrics, InterfaceCounters, MetricNameStyle, NetworkMetrics, SysinfoMetricsConfig,
    TokioRuntimeMetricsConfig,
};
use std::time::Duration;

#[test]
fn sysinfo_config_defaults() {
    let c = SysinfoMetricsConfig::default();
    assert_eq!(c.interval(), Duration::from_secs(30));
    assert_eq!(c.name_style(), MetricNameStyle::Identity);
    assert!(!c.track_disks());
    assert!(!c.track_networks());
    assert!(!c.track_components());
}

#[test]
fn sysinfo_config_builders() {
    let c = SysinfoMetricsConfig::default()
        .with_interval(Duration::from_millis(50))
        .with_name_style(MetricNameStyle::PascalCase)
        .with_disks();
    assert_eq!(c.interval(), Duration::from_millis(50));
    assert_eq!(c.name_style(), MetricNameStyle::PascalCase);
    assert!(c.track_disks());
    assert!(!c.track_networks());
    assert!(!c.track_components());
    let c = c.with_networks().with_components();
    assert!(c.track_disks() && c.track_networks() && c.track_components());
    assert_eq!(c.name_style(), MetricNameStyle::PascalCase);
}

#[test]
fn tokio_config_defaults_and_builders() {
    let c = TokioRuntimeMetricsConfig::default();
    assert_eq!(c.interval(), Duration::from_secs(30));
    assert_eq!(c.name_style(), MetricNameStyle::Identity);
    let c = c.with_name_style(MetricNameStyle::KebabCase).with_interval(Duration::from_secs(5));
    assert_eq!(c.interval(), Duration::from_secs(5));
    assert_eq!(c.name_style(), MetricNameStyle::KebabCase);
}

#[test]
fn name_style_default_is_identity() {
    assert_eq!(MetricNameStyle::default(), MetricNameStyle::Identity);
}

#[test]
fn disks_are_counted_and_summed() {
    let d = DiskMetrics::from_disks(&vec![(100, 40), (250, 10), (0, 0)]);
    assert_eq!(d.disk_count, 3);
    assert_eq!(d.total_disk_space, 350);
    assert_eq!(d.available_disk_space, 50);
    let empty = DiskMetrics::from_disks(&vec![]);
    assert_eq!((empty.disk_count, empty.total_disk_space, empty.available_disk_space), (0, 0, 0));
}

fn counters(base: u64) -> InterfaceCounters {
    InterfaceCounters {
        received: base,
        total_received: base + 1,
        transmitted: base + 2,
        total_transmitted: base + 3,
        packets_received: base + 4,
        total_packets_received: base + 5,
        packets_transmitted: base + 6,
        total_packets_transmitted: base + 7,
        errors_on_received: base + 8,
        total_errors_on_received: base + 9,
        errors_on_transmitted: base + 10,
        total_errors_on_transmitted: base + 11,
    }
}

#[test]
fn interfaces_are_joined_and_summed() {
    let n = NetworkMetrics::from_interfaces(&vec![
        ("eth0".to_string(), counters(0)),
        ("lo".to_string(), counters(100)),
        ("wlan0".to_string(), counters(1000)),
    ]);
    assert_eq!(n.network_interface_count, 3);
    assert_eq!(n.network_interfaces, "eth0,lo,wlan0");
    assert_eq!(n.network_received, 1100);
    assert_eq!(n.network_total_received, 1103);
    assert_eq!(n.network_transmitted, 1106);
    assert_eq!(n.network_total_transmitted, 1109);
    assert_eq!(n.network_packets_received, 1112);
    assert_eq!(n.network_total_packets_received, 1115);
    assert_eq!(n.network_packets_transmitted, 1118);
    assert_eq!(n.network_total_packets_transmitted, 1121);
    assert_eq!(n.network_errors_on_received, 1124);
    assert_eq!(n.network_total_errors_on_received, 1127);
    assert_eq!(n.network_errors_on_transmitted, 1130);
    assert_eq!(n.network_total_errors_on_transmitted, 1133);
}

#[test]
fn no_interfaces_gives_empty_names() {
    let n = NetworkMetrics::from_interfaces(&vec![]);
    assert_eq!(n.network_interface_count, 0);
    assert_eq!(n.network_interfaces, "");
    assert_eq!(n.network_received, 0);
}

#[test]
fn single_interface_has_no_comma() {
    let n = NetworkMetrics::from_interfaces(&vec![("eth0".to_string(), counters(5))]);
    assert_eq!(n.network_interfaces, "eth0");
    assert_eq!(n.network_total_errors_on_transmitted, 16);
}
