use liboj::Duration;

#[test]
fn duration_constructors_agree() {
    assert_eq!(Duration::from_secs(2), Duration::from_millis(2_000));
    assert_eq!(Duration::from_millis(3), Duration::from_micros(3_000));
    assert_eq!(Duration::from_micros(5), Duration::from_nanos(5_000));
    assert_eq!(Duration::from_secs(1), Duration::new(0, 1_000_000_000));
    assert_eq!(Duration::new(1, 1_500_000_000), Duration::from_millis(2_500));
    assert_ne!(Duration::from_secs(1), Duration::from_secs(0));
}

#[test]
fn duration_units() {
    let d = Duration::new(3, 456_789_012);
    assert_eq!(d.as_secs(), 3);
    assert_eq!(d.subsec_nanos(), 456_789_012);
    assert_eq!(d.as_nanos(), 3_456_789_012);
    assert_eq!(d.as_micros(), 3_456_789);
    assert_eq!(d.as_millis(), 3_456);
}

#[test]
fn duration_largest_values() {
    let d = Duration::from_secs(u64::MAX);
    assert_eq!(d.as_secs(), u64::MAX);
    assert_eq!(d.as_nanos(), u64::MAX as u128 * 1_000_000_000);
    let m = Duration::from_millis(u64::MAX);
    assert_eq!(m.as_millis(), u64::MAX as u128);
    let n = Duration::from_nanos(u64::MAX);
    assert_eq!(n.as_nanos(), u64::MAX as u128);
    assert_eq!(n.as_secs(), 18_446_744_073);
    assert_eq!(n.subsec_nanos(), 709_551_615);
}

#[test]
fn duration_checked_from_nanos() {
    assert_eq!(Duration::checked_from_nanos(1_500_000_000), Some(Duration::from_millis(1_500)));
    let max = u64::MAX as u128 * 1_000_000_000 + 999_999_999;
    assert_eq!(Duration::checked_from_nanos(max), Some(Duration::new(u64::MAX, 999_999_999)));
    assert_eq!(Duration::checked_from_nanos(max + 1), None);
    assert_eq!(Duration::checked_from_nanos(u128::MAX), None);
}
