use std::time::{Duration, UNIX_EPOCH};

use metrique::fakes::{ManuallyAdvancedTimeSource, StaticTimeSource};
use metrique::timesource::{
    get_time_source, set_time_source, time_source, with_time_source, Instant, SystemTime,
    TimeSource, TimeSourceOverride,
};

#[test]
fn test_default_time_source() {
    let overrides = TimeSourceOverride::new();
    let ts = time_source(&overrides);
    match ts {
        TimeSource::System => {} // Expected
        _ => panic!("Expected default time source to be System"),
    }
}

#[test]
fn test_explicit_time_source() {
    let overrides = TimeSourceOverride::new();
    let ts = StaticTimeSource::at_time(UNIX_EPOCH);
    let ts = TimeSource::custom(ts);
    let ts = get_time_source(&overrides, Some(ts));
    match ts {
        TimeSource::Custom(_) => {} // Expected
        _ => panic!("Expected explicit time source to be used"),
    }
}

#[test]
fn test_thread_local_time_source() {
    let mut overrides = TimeSourceOverride::new();
    let ts = StaticTimeSource::at_time(UNIX_EPOCH);
    let ts = TimeSource::custom(ts);

    {
        let guard = set_time_source(&mut overrides, ts);
        let ts = get_time_source(&overrides, None);
        assert!(ts.system_time() == UNIX_EPOCH);
        guard.restore(&mut overrides);
    }

    // After the guard is undone, should go back to default
    let ts = get_time_source(&overrides, None);
    match ts {
        TimeSource::System => {} // Expected
        _ => panic!("Expected default time source after guard is dropped"),
    }
}

#[test]
fn test_thread_local_time_source_scoped() {
    let mut overrides = TimeSourceOverride::new();
    let ts = StaticTimeSource::at_time(UNIX_EPOCH);
    let thread_local = TimeSource::custom(ts);

    with_time_source(&mut overrides, thread_local, |overrides| {
        let ts = get_time_source(overrides, None);
        match ts {
            TimeSource::Custom(_) => {} // Expected
            _ => panic!(),
        }
    });

    // After scope, should go back to default
    let ts = get_time_source(&overrides, None);
    match ts {
        TimeSource::System => {} // Expected
        _ => panic!("Expected default time source after scope"),
    }
}

#[test]
fn explicit_source_wins_over_installed_override() {
    let mut overrides = TimeSourceOverride::new();
    let installed = TimeSource::custom(StaticTimeSource::at_time(UNIX_EPOCH));
    let guard = set_time_source(&mut overrides, installed);
    match get_time_source(&overrides, Some(TimeSource::System)) {
        TimeSource::System => {}
        _ => panic!("explicit source must win"),
    }
    guard.restore(&mut overrides);
}

#[test]
fn nested_overrides_restore_the_outer_one() {
    let mut overrides = TimeSourceOverride::new();
    let outer = TimeSource::custom(StaticTimeSource::at_time(UNIX_EPOCH));
    let later = UNIX_EPOCH + Duration::from_secs(10);
    let inner = TimeSource::custom(StaticTimeSource::at_time(later));
    let outer_guard = set_time_source(&mut overrides, outer);
    let inner_guard = set_time_source(&mut overrides, inner);
    assert!(time_source(&overrides).system_time() == later);
    inner_guard.restore(&mut overrides);
    assert!(time_source(&overrides).system_time() == UNIX_EPOCH);
    outer_guard.restore(&mut overrides);
    assert!(matches!(time_source(&overrides), TimeSource::System));
}

#[test]
fn static_time_source_reports_its_time() {
    let ts = TimeSource::custom(StaticTimeSource::at_time(UNIX_EPOCH));
    assert!(ts.system_time() == UNIX_EPOCH);
    let start = ts.instant();
    assert_eq!(start.elapsed(), Duration::ZERO);
}

#[test]
fn manually_advanced_time_source_moves_all_clones() {
    let dummy_time = ManuallyAdvancedTimeSource::at_time(UNIX_EPOCH);
    let ts = TimeSource::custom(dummy_time.clone());
    assert!(ts.system_time() == UNIX_EPOCH);

    let new_timestamp = UNIX_EPOCH + Duration::from_secs(100);
    dummy_time.update_time(new_timestamp);
    assert!(ts.system_time() == new_timestamp);

    let instant = ts.instant();
    let elapsed = Duration::from_secs(100);
    dummy_time.update_instant(elapsed);
    assert_eq!(instant.elapsed(), elapsed);
}

#[test]
fn system_time_elapsed_follows_its_source() {
    let dummy_time = ManuallyAdvancedTimeSource::at_time(UNIX_EPOCH);
    let ts = TimeSource::custom(dummy_time.clone());
    let start = ts.system_time();
    dummy_time.update_time(UNIX_EPOCH + Duration::from_secs(5));
    assert_eq!(start.elapsed().unwrap(), Duration::from_secs(5));
    let end = ts.system_time();
    assert_eq!(end.duration_since(start.as_std()).unwrap(), Duration::from_secs(5));
    assert!(start.duration_since(end.as_std()).is_err());
}

#[test]
fn wrappers_convert_back_to_std() {
    let ts = TimeSource::custom(StaticTimeSource::at_time(UNIX_EPOCH));
    let t = SystemTime::new(UNIX_EPOCH, &ts);
    let std_t: std::time::SystemTime = t.into();
    assert_eq!(std_t, UNIX_EPOCH);
    let i = Instant::now(&ts);
    let std_i = i.as_std();
    let converted: std::time::Instant = i.into();
    assert_eq!(std_i, converted);
}

#[test]
fn static_source_reads_the_same_time_and_instant_every_call() {
    let ts = TimeSource::custom(StaticTimeSource::at_time(UNIX_EPOCH + Duration::from_secs(7)));
    let first = ts.instant();
    assert!(ts.system_time() == UNIX_EPOCH + Duration::from_secs(7));
    assert!(ts.system_time() == UNIX_EPOCH + Duration::from_secs(7));
    assert_eq!(ts.instant().as_std(), first.as_std());
    assert_eq!(first.elapsed(), Duration::ZERO);
    let t = ts.system_time();
    assert_eq!(t.elapsed().unwrap(), Duration::ZERO);
    assert_eq!(t.duration_since(UNIX_EPOCH).unwrap(), Duration::from_secs(7));
}
