//! Instants and cooldowns.

use chrono::Timelike;
use scaffold_ai::time::{UtcTime, FIRST_SECOND, LAST_SECOND, MAX_SPAN_MINUTES};

fn at(secs: i64, nanos: u32) -> UtcTime {
    UtcTime::new(secs, nanos).unwrap()
}

#[test]
fn the_range_is_the_calendar_s() {
    assert_eq!(FIRST_SECOND, chrono::DateTime::<chrono::Utc>::MIN_UTC.timestamp());
    assert_eq!(LAST_SECOND, chrono::DateTime::<chrono::Utc>::MAX_UTC.timestamp());
    assert!(UtcTime::new(FIRST_SECOND, 0).is_some());
    assert!(UtcTime::new(LAST_SECOND, 999_999_999).is_some());
    assert!(UtcTime::new(LAST_SECOND + 1, 0).is_none());
    assert!(UtcTime::new(FIRST_SECOND - 1, 0).is_none());
    assert!(UtcTime::new(0, 1_999_999_999).is_some());
    assert!(UtcTime::new(0, 2_000_000_000).is_none());
    assert!(chrono::DateTime::from_timestamp(FIRST_SECOND, 0).is_some());
    assert!(chrono::DateTime::from_timestamp(LAST_SECOND, 999_999_999).is_some());
    assert!(chrono::TimeDelta::try_minutes(MAX_SPAN_MINUTES as i64).is_some());
    assert!(chrono::TimeDelta::try_minutes(MAX_SPAN_MINUTES as i64 + 1).is_none());
}

#[test]
fn parts_come_back() {
    let t = at(-5, 7);
    assert_eq!(t.secs(), -5);
    assert_eq!(t.nanos(), 7);
    assert!(at(1, 0).before(&at(1, 1)));
    assert!(!at(1, 1).before(&at(1, 1)));
    assert!(at(-1, 999_999_999).before(&at(0, 0)));
}

#[test]
fn cooldowns_agree_with_chrono() {
    let last = at(1_000_000, 500_000_000);
    let last_chrono = chrono::DateTime::from_timestamp(1_000_000, 500_000_000).unwrap();
    let cases = [(1_000_000i64, 0u32, 10u64), (1_000_600, 499_999_999, 10), (1_000_600, 500_000_000, 10),
        (1_000_600, 500_000_001, 10), (999_000, 0, 0), (1_000_000, 500_000_000, 0), (LAST_SECOND, 0, 10)];
    for (secs, nanos, minutes) in cases {
        let now = chrono::DateTime::from_timestamp(secs, nanos).unwrap();
        let expected =
            now.signed_duration_since(last_chrono) < chrono::TimeDelta::minutes(minutes as i64);
        assert_eq!(at(secs, nanos).within_minutes_of(&last, minutes), expected, "{secs} {nanos} {minutes}");
    }
}

#[test]
fn the_longest_cooldowns_never_end() {
    assert!(at(LAST_SECOND, 0).within_minutes_of(&at(FIRST_SECOND, 0), MAX_SPAN_MINUTES));
    assert!(at(LAST_SECOND, 0).within_minutes_of(&at(FIRST_SECOND, 0), u64::MAX));
    assert!(!at(LAST_SECOND, 0).within_minutes_of(&at(FIRST_SECOND, 0), 1));
}

#[test]
fn leap_seconds_agree_with_chrono() {
    let chrono_at = |secs: i64, nanos: u32| {
        let whole = chrono::DateTime::from_timestamp(secs, 0).unwrap().naive_utc();
        whole.with_nanosecond(nanos).unwrap().and_utc()
    };
    let instants = [(59i64, 0u32), (59, 1_500_000_000), (60, 0), (60, 500_000_000), (86_399, 999_999_999),
        (86_399, 1_500_000_000), (86_400, 0), (86_401, 1_999_999_999), (-1, 1_000_000_000), (-1, 0)];
    for (secs, nanos) in instants {
        for (last_secs, last_nanos) in instants {
            let (now, last) = (at(secs, nanos), at(last_secs, last_nanos));
            let (c_now, c_last) = (chrono_at(secs, nanos), chrono_at(last_secs, last_nanos));
            assert_eq!(now.before(&last), c_now < c_last);
            for minutes in [0u64, 1, 2, 1_439, 1_440] {
                let expected =
                    c_now.signed_duration_since(c_last) < chrono::TimeDelta::minutes(minutes as i64);
                assert_eq!(now.within_minutes_of(&last, minutes), expected);
            }
        }
    }
    // From the start of a leap second it is a whole minute to the end of the next.
    assert!(!at(119, 0).within_minutes_of(&at(59, 0), 1));
    assert!(!at(119, 0).within_minutes_of(&at(59, 1_000_000_000), 1));
    assert!(at(118, 0).within_minutes_of(&at(59, 0), 1));
    let t = at(86_399, 1_500_000_000);
    assert_eq!((t.secs(), t.nanos()), (86_399, 1_500_000_000));
}
