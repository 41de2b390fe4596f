use metrique::metrics_pool::{
    emitted_fields, entry_prefix, joined, pool_has_collisions, prefixed_name, scan_fields,
    surviving_children,
    surviving_fields, FieldScan, PoolEntries, PrefixSet, RuntimeStyle, DEFAULT_CAPACITY,
};

fn prefixes(set: &PrefixSet) -> [&str; 4] {
    [
        set.for_style(RuntimeStyle::Identity),
        set.for_style(RuntimeStyle::PascalCase),
        set.for_style(RuntimeStyle::SnakeCase),
        set.for_style(RuntimeStyle::KebabCase),
    ]
}

#[test]
fn pooled_metrics_follow_the_parent_name_style() {
    let set = PrefixSet::empty().with_segments(&vec!["sdk", "cloudwatch_logs"]);
    assert_eq!(
        prefixed_name(set.for_style(RuntimeStyle::Identity), "operation"),
        "sdk_cloudwatch_logs_operation"
    );
    assert_eq!(
        prefixed_name(set.for_style(RuntimeStyle::SnakeCase), "retry_count"),
        "sdk_cloudwatch_logs_retry_count"
    );
    assert_eq!(
        prefixed_name(set.for_style(RuntimeStyle::KebabCase), "operation"),
        "sdk-cloudwatch-logs-operation"
    );
    assert_eq!(
        prefixed_name(set.for_style(RuntimeStyle::KebabCase), "retry-count"),
        "sdk-cloudwatch-logs-retry-count"
    );
    assert_eq!(
        prefixed_name(set.for_style(RuntimeStyle::PascalCase), "RetryCount"),
        "SdkCloudwatchLogsRetryCount"
    );
}

#[test]
fn pool_preserves_flatten_site_prefixes() {
    let set = PrefixSet::empty().with_segments(&vec!["sdk"]);
    let prefix = entry_prefix("Request", &set, RuntimeStyle::PascalCase);
    assert_eq!(prefixed_name(&prefix, "Operation"), "RequestSdkOperation");
    let exact = entry_prefix("sdk.request.", &PrefixSet::empty(), RuntimeStyle::PascalCase);
    assert_eq!(prefixed_name(&exact, "Operation"), "sdk.request.Operation");
    assert_eq!(prefixed_name(&exact, "RetryCount"), "sdk.request.RetryCount");
}

#[test]
fn exact_handle_prefix_supports_dot_delimited_names() {
    let set = PrefixSet::empty().with_exact_prefix("sdk.request.");
    assert_eq!(
        prefixed_name(set.for_style(RuntimeStyle::Identity), "operation"),
        "sdk.request.operation"
    );
    assert_eq!(
        prefixed_name(set.for_style(RuntimeStyle::Identity), "retry_count"),
        "sdk.request.retry_count"
    );
}

#[test]
fn segments_and_exact_prefixes_accumulate() {
    let set = PrefixSet::empty()
        .with_segments(&vec!["sdk", "", "s3"])
        .with_exact_prefix("x.")
        .with_segments(&vec!["Put-"]);
    assert_eq!(prefixes(&set), ["sdk_s3_x.Put-", "SdkS3x.Put", "sdk_s_3_x.put_", "sdk-s-3-x.put-"]);
    let twice = PrefixSet::empty().with_segments(&vec!["a"]).with_segments(&vec!["b"]);
    let once = PrefixSet::empty().with_segments(&vec!["a", "b"]);
    assert_eq!(prefixes(&twice), prefixes(&once));
}

#[test]
fn joined_handles_empty_sides() {
    assert_eq!(joined("", "b"), "b");
    assert_eq!(joined("a", ""), "a");
    assert_eq!(joined("a", "b"), "ab");
    assert_eq!(RuntimeStyle::Identity.prefix_segment("sdk-"), "sdk-");
    assert_eq!(RuntimeStyle::SnakeCase.prefix_segment("Sdk"), "sdk_");
}

fn names(v: &[&str]) -> Vec<String> {
    v.iter().map(|s| s.to_string()).collect()
}

fn pool(children: &[&[&str]]) -> Vec<Vec<String>> {
    children.iter().map(|c| names(c)).collect()
}

/// The names written out, in write order, with the child each came from.
fn written_out(children: &[&[&str]]) -> Vec<(usize, String)> {
    let children = pool(children);
    let emitted = emitted_fields(&children);
    let mut out = Vec::new();
    for (c, child) in children.iter().enumerate() {
        for (i, name) in child.iter().enumerate() {
            if emitted[c][i] {
                out.push((c, name.clone()));
            }
        }
    }
    out
}

#[test]
fn later_pooled_metrics_overwrite_colliding_fields() {
    let children: &[&[&str]] = &[&["SdkOperation", "SdkRetryCount"], &["SdkOperation", "SdkRetryCount"]];
    assert!(pool_has_collisions(&pool(children)));
    assert_eq!(
        written_out(children),
        vec![(1, "SdkOperation".to_string()), (1, "SdkRetryCount".to_string())]
    );
}

#[test]
fn superseded_child_is_dropped_wholesale_no_frankenentry() {
    // A failed attempt writes Latency and Error; the succeeded retry only Latency.
    let children: &[&[&str]] = &[&["SdkLatency", "SdkError"], &["SdkLatency"]];
    assert!(pool_has_collisions(&pool(children)));
    assert_eq!(surviving_children(&pool(children)), vec![false, true]);
    assert_eq!(written_out(children), vec![(1, "SdkLatency".to_string())]);
}

#[test]
fn unrelated_children_with_distinct_prefixes_are_all_kept() {
    let children: &[&[&str]] = &[&["S3Latency"], &["DdbLatency"]];
    assert!(!pool_has_collisions(&pool(children)));
    assert_eq!(surviving_children(&pool(children)), vec![true, true]);
    assert_eq!(
        written_out(children),
        vec![(0, "S3Latency".to_string()), (1, "DdbLatency".to_string())]
    );
}

#[test]
fn three_chained_attempts_keep_only_the_last() {
    let children: &[&[&str]] = &[&["SdkLatency"], &["SdkLatency"], &["SdkLatency"]];
    assert_eq!(surviving_children(&pool(children)), vec![false, false, true]);
    assert_eq!(written_out(children), vec![(2, "SdkLatency".to_string())]);
}

#[test]
fn superseded_child_drops_its_non_overlapping_fields_too() {
    let children: &[&[&str]] =
        &[&["SdkLatency", "SdkError"], &["SdkLatency", "SdkError"], &["SdkLatency"]];
    assert_eq!(written_out(children), vec![(2, "SdkLatency".to_string())]);
}

#[test]
fn duplicate_field_names_within_one_child_are_deduplicated() {
    let children: &[&[&str]] = &[&["Dup", "Dup"]];
    assert!(pool_has_collisions(&pool(children)));
    assert_eq!(emitted_fields(&pool(children)), vec![vec![false, true]]);
    assert_eq!(written_out(children), vec![(0, "Dup".to_string())]);
}

#[test]
fn the_last_write_of_a_repeated_name_wins() {
    let written = names(&["Dup", "Dup", "Dup"]);
    assert_eq!(surviving_fields(&written), vec![false, false, true]);
    let scan = scan_fields(&written);
    assert_eq!(scan.winner("Dup"), Some(2));
    assert_eq!(scan.winner("Other"), None);
}

#[test]
fn duplicate_field_names_survive_a_cross_child_drop() {
    let children: &[&[&str]] = &[&["Dup", "Dup"], &["Dup", "Dup"]];
    assert_eq!(emitted_fields(&pool(children)), vec![vec![false, false], vec![false, true]]);
}

#[test]
fn transitive_supersession_keeps_the_outer_children_of_the_chain() {
    let children: &[&[&str]] = &[&["Latency"], &["Latency", "Error"], &["Error"]];
    assert_eq!(surviving_children(&pool(children)), vec![true, false, true]);
    assert_eq!(
        written_out(children),
        vec![(0, "Latency".to_string()), (2, "Error".to_string())]
    );
}

#[test]
fn a_child_superseded_by_a_dropped_child_is_still_kept() {
    let children: &[&[&str]] = &[&["Alpha"], &["Alpha", "Bravo"], &["Bravo", "Charlie"]];
    assert_eq!(
        written_out(children),
        vec![(0, "Alpha".to_string()), (2, "Bravo".to_string()), (2, "Charlie".to_string())]
    );
}

#[test]
fn empty_pool_keeps_nothing() {
    assert!(!pool_has_collisions(&Vec::new()));
    assert!(surviving_children(&Vec::new()).is_empty());
    assert!(emitted_fields(&Vec::new()).is_empty());
}

#[test]
fn default_capacity_retains_the_latest_128_children() {
    let mut entries = PoolEntries::new();
    assert_eq!(entries.capacity(), DEFAULT_CAPACITY);
    assert_eq!(entries.capacity(), 128);
    for index in 0..=DEFAULT_CAPACITY as u64 {
        let evicted = entries.push(index);
        assert_eq!(evicted, if index == 128 { Some(0) } else { None });
    }
    assert_eq!(entries.overflow_count(), 1);
    let kept = entries.take();
    assert_eq!(kept.len(), 128);
    assert_eq!(kept[0], 1);
    assert_eq!(kept[127], 128);
}

#[test]
fn configured_capacity_drops_the_oldest_child() {
    let mut entries = PoolEntries::with_capacity(2);
    assert_eq!(entries.capacity(), 2);
    assert_eq!(entries.push(1), None);
    assert_eq!(entries.push(2), None);
    assert_eq!(entries.push(3), Some(1));
    assert_eq!(entries.overflow_count(), 1);
    assert_eq!(entries.take(), vec![2, 3]);
}

#[test]
fn field_scan_counts_each_write() {
    let mut scan = FieldScan::new();
    scan.value("A");
    scan.value("B");
    scan.value("A");
    assert_eq!(scan.winner("A"), Some(2));
    assert_eq!(scan.winner("B"), Some(1));
    assert!(scan.has_collisions());
}

#[test]
fn appends_after_parent_close_are_discarded() {
    let mut pool = PoolEntries::new();
    assert_eq!(pool.push("BeforeClose"), None);
    assert_eq!(pool.take(), vec!["BeforeClose"]);
    assert_eq!(pool.push("AfterClose"), Some("AfterClose"));
    assert!(pool.take().is_empty());
    assert_eq!(pool.overflow_count(), 0);
}
