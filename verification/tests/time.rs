use chrono::{TimeDelta, Utc};
use mmb::time::{DateTime, Duration, MAX_SECS, MIN_SECS};

fn moment(secs: i64, nanos: u32) -> DateTime {
    DateTime::new(secs, nanos).unwrap()
}

#[test]
fn calendar_bounds() {
    assert_eq!(chrono::DateTime::<Utc>::MIN_UTC.timestamp(), MIN_SECS);
    assert_eq!(chrono::DateTime::<Utc>::MAX_UTC.timestamp(), MAX_SECS);
    assert!(DateTime::new(MIN_SECS, 0).is_some());
    assert!(DateTime::new(MAX_SECS, 999_999_999).is_some());
    assert!(DateTime::new(MIN_SECS - 1, 0).is_none());
    assert!(DateTime::new(MAX_SECS + 1, 0).is_none());
}

#[test]
fn leap_second_only_ends_a_minute() {
    assert!(DateTime::new(59, 1_500_000_000).is_some());
    assert!(DateTime::new(-1, 1_500_000_000).is_some());
    assert!(DateTime::new(58, 1_500_000_000).is_none());
    assert!(DateTime::new(59, 2_000_000_000).is_none());
}

#[test]
fn moments_are_those_of_the_calendar() {
    let nanos = [0, 999_999_999, 1_000_000_000, 1_999_999_999, 2_000_000_000];
    for secs in [-121, -61, -60, -1, 0, 1, 58, 59, 60, 119, MIN_SECS - 1, MIN_SECS, MAX_SECS] {
        for nano in nanos {
            assert_eq!(
                DateTime::new(secs, nano).is_some(),
                chrono::DateTime::from_timestamp(secs, nano).is_some()
            );
        }
    }
}

#[test]
fn spans_are_those_of_the_calendar() {
    let longest = TimeDelta::MAX.num_seconds();
    for secs in [-longest - 2, -longest - 1, -longest, -1, 0, 1, longest, longest + 1] {
        for nano in [0, 192_999_999, 193_000_000, 807_000_000, 807_000_001, 1_000_000_000] {
            assert_eq!(
                Duration::new(secs, nano).is_some(),
                TimeDelta::new(secs, nano).is_some()
            );
        }
    }
    assert_eq!(Duration::seconds(5), Duration::new(5, 0).unwrap());
}

#[test]
fn going_back_in_time() {
    assert_eq!(
        moment(100, 250).checked_sub_signed(Duration::seconds(40)),
        Some(moment(60, 250))
    );
    assert_eq!(
        moment(0, 0).checked_sub_signed(Duration::new(0, 1).unwrap()),
        Some(moment(-1, 999_999_999))
    );
    assert_eq!(
        moment(10, 0).checked_sub_signed(Duration::seconds(-5)),
        Some(moment(15, 0))
    );
    assert_eq!(moment(MIN_SECS, 0).checked_sub_signed(Duration::seconds(1)), None);
    assert_eq!(moment(MAX_SECS, 0).checked_sub_signed(Duration::seconds(-1)), None);
}

#[test]
fn going_back_from_a_leap_second() {
    let leap = moment(59, 1_500_000_000);
    let back = |secs: i64, nanos: u32| leap.checked_sub_signed(Duration::new(secs, nanos).unwrap());
    assert_eq!(back(0, 0), Some(leap));
    assert_eq!(back(0, 300_000_000), Some(moment(59, 1_200_000_000)));
    assert_eq!(back(0, 600_000_000), Some(moment(59, 900_000_000)));
    assert_eq!(back(1, 0), Some(moment(59, 500_000_000)));
    assert_eq!(back(2, 0), Some(moment(58, 500_000_000)));
    assert_eq!(back(-1, 700_000_000), Some(moment(59, 1_800_000_000)));
    assert_eq!(back(-1, 0), Some(moment(60, 500_000_000)));
}

#[test]
fn order_of_moments() {
    assert!(moment(1, 0).is_before(&moment(2, 0)));
    assert!(moment(1, 0).is_before(&moment(1, 1)));
    assert!(!moment(1, 1).is_before(&moment(1, 1)));
    assert!(moment(59, 1_900_000_000).is_before(&moment(60, 0)));
    assert!(moment(1, 0) < moment(1, 1));
}
