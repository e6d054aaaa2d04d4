use floppa_cli::calendar::civil_from_days;
use floppa_cli::time::{format_time, Span, UnixTime};

fn at(secs: i64, nanos: u32) -> UnixTime {
    UnixTime { secs, nanos }
}

#[test]
fn format_time_renders_known_date() {
    // 1735689600 = 2025-01-01T00:00:00Z
    let t = UnixTime::after_epoch(&Span { secs: 1_735_689_600, nanos: 0 }).unwrap();
    assert_eq!(format_time(&t), "2025-01-01 00:00:00 UTC");
}

#[test]
fn format_time_renders_other_dates() {
    assert_eq!(format_time(&at(0, 0)), "1970-01-01 00:00:00 UTC");
    assert_eq!(format_time(&at(951_827_696, 5)), "2000-02-29 12:34:56 UTC");
    assert_eq!(format_time(&at(4_107_542_399, 0)), "2100-02-28 23:59:59 UTC");
    assert_eq!(format_time(&at(4_107_542_400, 0)), "2100-03-01 00:00:00 UTC");
    assert_eq!(format_time(&at(253_402_300_799, 0)), "9999-12-31 23:59:59 UTC");
    assert_eq!(format_time(&at(253_402_300_800, 0)), "10000-01-01 00:00:00 UTC");
    assert_eq!(format_time(&at(-62_167_219_201, 0)), "-001-12-31 23:59:59 UTC");
}

#[test]
fn format_time_drops_the_part_of_a_second() {
    assert_eq!(format_time(&at(-1, 0)), "1969-12-31 23:59:59 UTC");
    assert_eq!(format_time(&at(-1, 500_000_000)), "1970-01-01 00:00:00 UTC");
    assert_eq!(format_time(&at(-2, 1)), "1969-12-31 23:59:59 UTC");
    assert_eq!(format_time(&at(1, 999_999_999)), "1970-01-01 00:00:01 UTC");
}

#[test]
fn format_time_reaches_the_ends_of_time() {
    assert_eq!(format_time(&at(i64::MAX, 999_999_999)), "292277026596-12-04 15:30:07 UTC");
    assert_eq!(format_time(&at(i64::MIN, 1)), "-292277022657-01-27 08:29:53 UTC");
}

#[test]
fn different_seconds_are_written_differently() {
    assert_ne!(format_time(&at(1_735_689_600, 0)), format_time(&at(1_735_689_601, 0)));
    assert_eq!(format_time(&at(1_735_689_600, 0)).len(), 23);
}

#[test]
fn civil_from_days_knows_its_dates() {
    assert_eq!(civil_from_days(0), (1970, 1, 1));
    assert_eq!(civil_from_days(-1), (1969, 12, 31));
    assert_eq!(civil_from_days(59), (1970, 3, 1));
    assert_eq!(civil_from_days(11_016), (2000, 2, 29));
    assert_eq!(civil_from_days(20_089), (2025, 1, 1));
    assert_eq!(civil_from_days(-719_468), (0, 3, 1));
    assert_eq!(civil_from_days(-719_469), (0, 2, 29));
    assert_eq!(civil_from_days(-719_528), (0, 1, 1));
    assert_eq!(civil_from_days(-719_529), (-1, 12, 31));
}

#[test]
fn civil_from_days_counts_every_day() {
    let leap = |y: i64| y % 4 == 0 && (y % 100 != 0 || y % 400 == 0);
    let (mut y, mut m, mut d): (i64, u32, u32) = (1599, 1, 1);
    let mut z: i64 = -135_505;
    while y < 2402 {
        assert_eq!(civil_from_days(z), (y, m, d));
        let length: u32 = match m {
            2 => {
                if leap(y) {
                    29
                } else {
                    28
                }
            }
            4 | 6 | 9 | 11 => 30,
            _ => 31,
        };
        d += 1;
        if d > length {
            d = 1;
            m += 1;
        }
        if m > 12 {
            m = 1;
            y += 1;
        }
        z += 1;
    }
}

#[test]
fn points_in_time_lie_around_the_epoch() {
    let span = Span { secs: 1, nanos: 500_000_000 };
    assert_eq!(UnixTime::after_epoch(&span), Some(at(1, 500_000_000)));
    assert_eq!(UnixTime::before_epoch(&span), Some(at(-2, 500_000_000)));
    assert_eq!(UnixTime::before_epoch(&Span { secs: 7, nanos: 0 }), Some(at(-7, 0)));
    let edge = Span { secs: 9_223_372_036_854_775_808, nanos: 0 };
    assert_eq!(UnixTime::before_epoch(&edge), Some(at(i64::MIN, 0)));
    assert_eq!(UnixTime::after_epoch(&edge), None);
    assert_eq!(UnixTime::before_epoch(&Span { secs: 9_223_372_036_854_775_808, nanos: 1 }), None);
    assert_eq!(UnixTime::after_epoch(&Span { secs: u64::MAX, nanos: 0 }), None);
}

#[test]
fn spans_lie_between_points_in_time() {
    assert_eq!(
        at(5, 1).duration_since(&at(3, 2)),
        Some(Span { secs: 1, nanos: 999_999_999 })
    );
    assert_eq!(at(5, 1).duration_since(&at(5, 1)), Some(Span { secs: 0, nanos: 0 }));
    assert_eq!(at(5, 1).duration_since(&at(5, 2)), None);
    assert_eq!(
        at(i64::MAX, 0).duration_since(&at(i64::MIN, 0)),
        Some(Span { secs: u64::MAX, nanos: 0 })
    );
    let long = Span { secs: 3, nanos: 1 };
    let short = Span { secs: 1, nanos: 2 };
    assert_eq!(long.saturating_sub(&short), Span { secs: 1, nanos: 999_999_999 });
    assert_eq!(short.saturating_sub(&long), Span { secs: 0, nanos: 0 });
    assert!(short.at_most(&long));
    assert!(long.at_most(&long));
    assert!(!long.at_most(&short));
}
