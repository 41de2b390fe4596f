use std::time::Duration;

use metrique::rate_limit::rate_limit_step;

#[test]
fn first_attempt_is_allowed_and_sets_next_second() {
    assert_eq!(
        rate_limit_step(0, Duration::from_secs(5), Duration::from_secs(60)),
        Some(65)
    );
}

#[test]
fn attempt_before_next_second_is_refused() {
    assert_eq!(
        rate_limit_step(65, Duration::from_millis(64_900), Duration::from_secs(60)),
        None
    );
    assert_eq!(
        rate_limit_step(65, Duration::from_secs(65), Duration::from_secs(60)),
        Some(125)
    );
}

#[test]
fn sub_second_parts_carry_into_the_next_second() {
    assert_eq!(
        rate_limit_step(0, Duration::from_millis(5_600), Duration::from_millis(1_500)),
        Some(7)
    );
    assert_eq!(
        rate_limit_step(0, Duration::from_millis(5_400), Duration::from_millis(1_500)),
        Some(6)
    );
}

#[test]
fn overflowing_next_second_saturates() {
    assert_eq!(
        rate_limit_step(0, Duration::MAX, Duration::from_secs(1)),
        Some(u64::MAX)
    );
}

#[test]
fn one_call_per_interval() {
    let interval = Duration::from_secs(10);
    let next = rate_limit_step(0, Duration::from_secs(100), interval).unwrap();
    for later in [100u64, 101, 105, 109] {
        assert_eq!(rate_limit_step(next, Duration::from_secs(later), interval), None);
    }
    assert_eq!(rate_limit_step(next, Duration::from_secs(110), interval), Some(120));
}
