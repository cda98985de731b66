use std::cmp::Ordering;

use fixed_multisig::{BlockInfo, Duration, Expiration, StdError, Timestamp};

fn block(height: u64, nanos: u64) -> BlockInfo {
    BlockInfo { height, time: Timestamp::from_nanos(nanos) }
}

#[test]
fn timestamp_reads_back_nanos_and_seconds() {
    let t = Timestamp::from_nanos(1_000_000_202);
    assert_eq!(t.nanos(), 1_000_000_202);
    assert_eq!(t.seconds(), 1);
    assert_eq!(Timestamp::from_nanos(999_999_999).seconds(), 0);
}

#[test]
fn timestamp_plus_seconds_adds_whole_seconds() {
    let t = Timestamp::from_nanos(123).plus_seconds(42);
    assert_eq!(t, Some(Timestamp::from_nanos(42_000_000_123)));
    assert_eq!(Timestamp::from_nanos(7).plus_seconds(0), Some(Timestamp::from_nanos(7)));
}

#[test]
fn timestamp_plus_seconds_stops_at_the_end_of_time() {
    // The product alone leaves 64 bits.
    assert_eq!(Timestamp::from_nanos(0).plus_seconds(u64::MAX), None);
    // The product fits, the sum does not.
    assert_eq!(Timestamp::from_nanos(u64::MAX).plus_seconds(1), None);
    // The largest sum that fits.
    let t = Timestamp::from_nanos(u64::MAX - 1_000_000_000).plus_seconds(1);
    assert_eq!(t, Some(Timestamp::from_nanos(u64::MAX)));
}

#[test]
fn duration_after_block() {
    let now = block(12_345, 1_571_797_419_879_305_533);
    assert_eq!(Duration::Height(5).after(&now), Ok(Expiration::AtHeight(12_350)));
    assert_eq!(
        Duration::Time(2).after(&now),
        Ok(Expiration::AtTime(Timestamp::from_nanos(1_571_797_421_879_305_533)))
    );
}

#[test]
fn duration_after_block_overflows() {
    let now = block(2, 5);
    assert_eq!(Duration::Height(u64::MAX - 1).after(&now), Err(StdError::Overflow {}));
    assert_eq!(Duration::Height(u64::MAX - 2).after(&now), Ok(Expiration::AtHeight(u64::MAX)));
    let too_long = Duration::Time(u64::MAX / 1_000_000_000 + 1);
    assert_eq!(too_long.after(&now), Err(StdError::Overflow {}));
}

#[test]
fn expiration_is_reached_at_its_point() {
    let at_height = Expiration::AtHeight(100);
    assert!(!at_height.is_expired(&block(99, 0)));
    assert!(at_height.is_expired(&block(100, 0)));
    assert!(at_height.is_expired(&block(101, 0)));

    let at_time = Expiration::AtTime(Timestamp::from_nanos(5_000));
    assert!(!at_time.is_expired(&block(1_000_000, 4_999)));
    assert!(at_time.is_expired(&block(0, 5_000)));
    assert!(at_time.is_expired(&block(0, 5_001)));

    assert!(!(Expiration::Never {}).is_expired(&block(u64::MAX, u64::MAX)));
}

#[test]
fn expirations_of_one_kind_compare() {
    let a = Expiration::AtHeight(5);
    let b = Expiration::AtHeight(7);
    assert_eq!(a.partial_cmp(&b), Some(Ordering::Less));
    assert_eq!(b.partial_cmp(&a), Some(Ordering::Greater));
    assert_eq!(a.partial_cmp(&a), Some(Ordering::Equal));

    let c = Expiration::AtTime(Timestamp::from_nanos(5));
    let d = Expiration::AtTime(Timestamp::from_nanos(7));
    assert_eq!(c.partial_cmp(&d), Some(Ordering::Less));
    assert_eq!(d.partial_cmp(&c), Some(Ordering::Greater));
    assert_eq!(d.partial_cmp(&d), Some(Ordering::Equal));
    assert!(a < b);
    assert!(d > c);
}

#[test]
fn expirations_of_different_kinds_do_not_compare() {
    let height = Expiration::AtHeight(5);
    let time = Expiration::AtTime(Timestamp::from_nanos(5));
    let never = Expiration::Never {};
    assert_eq!(height.partial_cmp(&time), None);
    assert_eq!(time.partial_cmp(&height), None);
    assert_eq!(never.partial_cmp(&height), None);
    assert_eq!(height.partial_cmp(&never), None);
    assert_eq!(never.partial_cmp(&time), None);
    assert_eq!(time.partial_cmp(&never), None);
    assert_eq!(never.partial_cmp(&never), Some(Ordering::Equal));
}

#[test]
fn cap_at_brings_a_later_expiration_down() {
    let max = Expiration::AtHeight(100);
    assert_eq!(Expiration::AtHeight(101).cap_at(max), Some(max));
    assert_eq!(Expiration::AtHeight(100).cap_at(max), Some(Expiration::AtHeight(100)));
    assert_eq!(Expiration::AtHeight(3).cap_at(max), Some(Expiration::AtHeight(3)));
    assert_eq!(Expiration::AtTime(Timestamp::from_nanos(3)).cap_at(max), None);
    assert_eq!((Expiration::Never {}).cap_at(max), None);
    assert_eq!((Expiration::Never {}).cap_at(Expiration::Never {}), Some(Expiration::Never {}));
}
