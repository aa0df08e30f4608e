use chrono::{DateTime, TimeDelta, Utc};
use sda_agent::clock::{Timestamp, MAX_SECS, MIN_SECS};

fn chrono_time(t: &Timestamp) -> DateTime<Utc> {
    DateTime::<Utc>::from_timestamp(t.secs, t.nanos).unwrap()
}

#[test]
fn timestamps_are_written_in_rfc3339() {
    let t = Timestamp::from_timestamp(1_700_000_000, 0).unwrap();
    assert_eq!(t.to_rfc3339(), "2023-11-14T22:13:20+00:00");
    let t = Timestamp::from_timestamp(0, 5_000_000).unwrap();
    assert_eq!(t.to_rfc3339(), "1970-01-01T00:00:00.005+00:00");
    let leap = Timestamp::from_timestamp(59, 1_500_000_000).unwrap();
    assert_eq!(leap.to_rfc3339(), "1970-01-01T00:00:60.500+00:00");
}

#[test]
fn timestamps_end_where_the_calendar_ends() {
    for (secs, nanos) in [
        (MIN_SECS, 0),
        (MIN_SECS - 1, 0),
        (MAX_SECS, 999_999_999),
        (MAX_SECS + 1, 0),
        (59, 1_999_999_999),
        (58, 1_000_000_000),
        (-1, 1_000_000_000),
        (-2, 1_000_000_000),
        (0, 2_000_000_000),
        (i64::MAX, 0),
        (i64::MIN, 0),
    ] {
        assert_eq!(
            Timestamp::from_timestamp(secs, nanos).is_some(),
            DateTime::<Utc>::from_timestamp(secs, nanos).is_some(),
            "{secs} {nanos}"
        );
    }
}

#[test]
fn milliseconds_are_rounded_down() {
    for (secs, nanos) in [(1, 999_999), (-1, 999_999_999), (59, 1_200_000_000)] {
        let t = Timestamp::from_timestamp(secs, nanos).unwrap();
        assert_eq!(t.timestamp_millis(), chrono_time(&t).timestamp_millis());
    }
    assert_eq!(
        Timestamp::from_timestamp(-1, 999_999_999)
            .unwrap()
            .timestamp_millis(),
        -1
    );
}

#[test]
fn later_times_are_those_of_the_calendar() {
    let starts = [
        Timestamp { secs: 0, nanos: 7 },
        Timestamp {
            secs: 59,
            nanos: 1_500_000_000,
        },
        Timestamp {
            secs: MAX_SECS - 5,
            nanos: 999_999_999,
        },
    ];
    for t in starts {
        for secs in [0u64, 1, 5, 6, 86_400, u64::MAX / 2000] {
            let got = t.after_secs(secs);
            match chrono_time(&t)
                .checked_add_signed(TimeDelta::try_seconds(secs as i64).unwrap())
            {
                Some(d) => assert_eq!(chrono_time(&got), d),
                None => assert_eq!(
                    got,
                    Timestamp {
                        secs: MAX_SECS,
                        nanos: 999_999_999
                    }
                ),
            }
        }
    }
    assert_eq!(starts[0].after_secs(u64::MAX).secs, MAX_SECS);
}

#[test]
fn gaps_are_counted_in_nanoseconds() {
    let t = |secs: i64, nanos: u32| Timestamp::from_timestamp(secs, nanos).unwrap();
    assert_eq!(t(10, 5).nanos_since(&t(9, 6)), Some(999_999_999));
    assert_eq!(t(9, 0).nanos_since(&t(10, 0)), None);
    let points = [
        t(0, 0),
        t(59, 1_900_000_000),
        t(60, 0),
        t(86_399, 1_900_000_000),
        t(86_400, 0),
        t(86_460, 5),
        t(172_799, 1_100_000_000),
        t(-1, 1_000_000_001),
    ];
    for a in points {
        for b in points {
            let want = chrono_time(&a)
                .signed_duration_since(chrono_time(&b))
                .to_std()
                .ok()
                .map(|d| d.as_nanos());
            assert_eq!(a.nanos_since(&b), want, "{a:?} {b:?}");
            assert_eq!(a.is_not_after(&b), chrono_time(&a) <= chrono_time(&b));
        }
    }
}
