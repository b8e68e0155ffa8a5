use chrono::{Datelike, NaiveDate, NaiveTime};
use qtmon::clock::{
    duration_abs, make_dateime_naive, Date, DateTime, Moment, Span, TimeOfDay,
    MAX_DAYS_FROM_CE, MAX_MOMENT_SECS, MIN_DAYS_FROM_CE, MIN_MOMENT_SECS,
};

fn hm(h: u32, m: u32) -> TimeOfDay {
    TimeOfDay::new(h * 3600 + m * 60, 0).unwrap()
}

#[test]
fn time_of_day_accepts_what_chrono_accepts() {
    let cases: Vec<(u32, u32)> = vec![
        (0, 0),
        (86_399, 999_999_999),
        (86_399, 1_999_999_999),
        (86_400, 0),
        (86_399, 2_000_000_000),
        (59, 1_000_000_000),
        (60, 1_000_000_000),
        (58, 1_500_000_000),
        (3_599, 1_999_999_999),
        (u32::MAX, 0),
        (0, u32::MAX),
    ];
    for (secs, nanos) in cases {
        let ours = TimeOfDay::new(secs, nanos);
        let theirs = NaiveTime::from_num_seconds_from_midnight_opt(secs, nanos);
        assert_eq!(ours.is_some(), theirs.is_some(), "secs {} nanos {}", secs, nanos);
    }
}

#[test]
fn time_of_day_gives_back_its_parts() {
    let t = TimeOfDay::new(32_700, 250).unwrap();
    assert_eq!(t.num_seconds_from_midnight(), 32_700);
    assert_eq!(t.nanosecond(), 250);
}

#[test]
fn time_of_day_order() {
    assert!(hm(9, 0).is_at_or_before(&hm(9, 5)));
    assert!(hm(9, 5).is_at_or_before(&hm(9, 5)));
    assert!(!hm(9, 12).is_at_or_before(&hm(9, 5)));
    let a = TimeOfDay::new(100, 5).unwrap();
    let b = TimeOfDay::new(100, 6).unwrap();
    assert!(a.is_at_or_before(&b));
    assert!(!b.is_at_or_before(&a));
}

#[test]
fn span_between_plain_times() {
    assert_eq!(hm(9, 7).signed_nanos_since(&hm(9, 5)), 120_000_000_000);
    assert_eq!(hm(9, 5).signed_nanos_since(&hm(9, 7)), -120_000_000_000);
    assert_eq!(hm(9, 5).signed_nanos_since(&hm(9, 5)), 0);
    let a = TimeOfDay::new(11_107, 900_000_000).unwrap();
    let b = TimeOfDay::new(11_106, 925_000_000).unwrap();
    assert_eq!(a.signed_nanos_since(&b), 975_000_000);
    assert_eq!(b.signed_nanos_since(&a), -975_000_000);
}

#[test]
fn span_counts_a_leap_second_in_between() {
    // 03:00:59 with a leap second running, against chrono's own examples
    let leap = TimeOfDay::new(3 * 3600 + 59, 1_000_000_000).unwrap();
    let before = TimeOfDay::new(3 * 3600 + 59, 0).unwrap();
    let start = TimeOfDay::new(3 * 3600, 0).unwrap();
    assert_eq!(leap.signed_nanos_since(&before), 1_000_000_000);
    assert_eq!(leap.signed_nanos_since(&start), 60_000_000_000);
    let earlier_leap = TimeOfDay::new(2 * 3600 + 59 * 60 + 59, 1_000_000_000).unwrap();
    assert_eq!(start.signed_nanos_since(&earlier_leap), 1_000_000_000);
    assert_eq!(leap.signed_nanos_since(&earlier_leap), 61_000_000_000);
    assert_eq!(earlier_leap.signed_nanos_since(&leap), -61_000_000_000);
}

#[test]
fn span_at_the_ends_of_the_day() {
    let first = TimeOfDay::new(0, 0).unwrap();
    let last = TimeOfDay::new(86_399, 1_999_999_999).unwrap();
    assert_eq!(last.signed_nanos_since(&first), 86_400_999_999_999);
    assert_eq!(first.signed_nanos_since(&last), -86_400_999_999_999);
    assert_eq!(first.distance_to(&last), 86_400_999_999_999);
}

#[test]
fn span_agrees_with_chrono_on_a_grid() {
    let secs: Vec<u32> = vec![0, 1, 59, 60, 119, 3_599, 3_600, 43_200, 86_399];
    let nanos: Vec<u32> = vec![0, 1, 999_999_999, 1_000_000_000, 1_999_999_999];
    for &s1 in &secs {
        for &n1 in &nanos {
            for &s2 in &secs {
                for &n2 in &nanos {
                    let (a, b) = match (TimeOfDay::new(s1, n1), TimeOfDay::new(s2, n2)) {
                        (Some(a), Some(b)) => (a, b),
                        _ => continue,
                    };
                    let x = NaiveTime::from_num_seconds_from_midnight_opt(s1, n1).unwrap();
                    let y = NaiveTime::from_num_seconds_from_midnight_opt(s2, n2).unwrap();
                    let expected = (x - y).num_nanoseconds().unwrap();
                    assert_eq!(a.signed_nanos_since(&b), expected);
                    let leap: i64 = if s1 > s2 && n2 >= 1_000_000_000 {
                        1
                    } else if s1 < s2 && n1 >= 1_000_000_000 {
                        -1
                    } else {
                        0
                    };
                    let stated = (s1 as i64 - s2 as i64 + leap) * 1_000_000_000
                        + (n1 as i64 - n2 as i64);
                    assert_eq!(expected, stated);
                }
            }
        }
    }
}

#[test]
fn distance_is_the_size_of_the_span() {
    assert_eq!(hm(9, 7).distance_to(&hm(9, 5)), 120_000_000_000);
    assert_eq!(hm(9, 5).distance_to(&hm(9, 7)), 120_000_000_000);
    assert_eq!(hm(9, 20).distance_to(&hm(9, 12)), 480_000_000_000);
}

#[test]
fn duration_abs_of_both_signs() {
    assert_eq!(duration_abs(5), 5);
    assert_eq!(duration_abs(-5), 5);
    assert_eq!(duration_abs(0), 0);
    assert_eq!(duration_abs(i64::MAX), i64::MAX);
    assert_eq!(duration_abs(i64::MIN + 1), i64::MAX);
}

#[test]
fn date_bounds_are_chronos() {
    assert_eq!(MIN_DAYS_FROM_CE, NaiveDate::MIN.num_days_from_ce());
    assert_eq!(MAX_DAYS_FROM_CE, NaiveDate::MAX.num_days_from_ce());
    assert!(Date::from_num_days_from_ce(MIN_DAYS_FROM_CE).is_some());
    assert!(Date::from_num_days_from_ce(MAX_DAYS_FROM_CE).is_some());
    assert!(Date::from_num_days_from_ce(MIN_DAYS_FROM_CE - 1).is_none());
    assert!(Date::from_num_days_from_ce(MAX_DAYS_FROM_CE + 1).is_none());
    assert!(NaiveDate::from_num_days_from_ce_opt(MIN_DAYS_FROM_CE - 1).is_none());
    assert!(NaiveDate::from_num_days_from_ce_opt(MAX_DAYS_FROM_CE + 1).is_none());
    assert!(Date::from_num_days_from_ce(i32::MAX).is_none());
    assert!(Date::from_num_days_from_ce(i32::MIN).is_none());
}

#[test]
fn date_gives_back_its_day_number() {
    let d = Date::from_num_days_from_ce(737_745).unwrap();
    assert_eq!(d.num_days_from_ce(), 737_745);
    assert_eq!(
        NaiveDate::from_ymd_opt(2020, 11, 16).unwrap().num_days_from_ce(),
        737_745
    );
}

#[test]
fn date_text_is_year_month_day() {
    assert_eq!(Date::from_num_days_from_ce(737_745).unwrap().text(), "2020-11-16");
    assert_eq!(Date::from_num_days_from_ce(1).unwrap().text(), "0001-01-01");
    assert_eq!(
        Date::from_num_days_from_ce(MAX_DAYS_FROM_CE).unwrap().text(),
        "+262142-12-31"
    );
    assert_eq!(
        Date::from_num_days_from_ce(MIN_DAYS_FROM_CE).unwrap().text(),
        "-262143-01-01"
    );
}

#[test]
fn make_dateime_naive_splits() {
    let date = Date::from_num_days_from_ce(737_745).unwrap();
    let time = hm(9, 5);
    assert_eq!(make_dateime_naive(DateTime { date, time }), (date, time));
}

#[test]
fn moment_bounds_are_chronos() {
    assert_eq!(MIN_MOMENT_SECS, chrono::DateTime::<chrono::Utc>::MIN_UTC.timestamp());
    assert_eq!(MAX_MOMENT_SECS, chrono::DateTime::<chrono::Utc>::MAX_UTC.timestamp());
    assert!(Moment::new(MIN_MOMENT_SECS, 0).is_some());
    assert!(Moment::new(MAX_MOMENT_SECS, 999_999_999).is_some());
    assert!(Moment::new(MIN_MOMENT_SECS - 1, 0).is_none());
    assert!(Moment::new(MAX_MOMENT_SECS + 1, 0).is_none());
    assert!(Moment::new(0, 1_000_000_000).is_none());
}

#[test]
fn moment_since_borrows_a_second() {
    let a = Moment::new(100, 200).unwrap();
    let b = Moment::new(90, 300).unwrap();
    let forward = a.since(&b);
    assert_eq!(forward.whole_seconds(), 9);
    assert_eq!(forward.subsec_nanos(), 999_999_900);
    let back = b.since(&a);
    assert_eq!(back.whole_seconds(), -10);
    assert_eq!(back.subsec_nanos(), 100);
    let none = a.since(&a);
    assert_eq!((none.whole_seconds(), none.subsec_nanos()), (0, 0));
}

#[test]
fn moment_checked_add_carries_and_stops_at_the_ends() {
    let a = Moment::new(100, 600_000_000).unwrap();
    let s = Span::new(5, 500_000_000).unwrap();
    let sum = a.checked_add(&s).unwrap();
    assert_eq!((sum.timestamp(), sum.timestamp_subsec_nanos()), (106, 100_000_000));
    let back = Span::new(-101, 0).unwrap();
    let earlier = a.checked_add(&back).unwrap();
    assert_eq!((earlier.timestamp(), earlier.timestamp_subsec_nanos()), (-1, 600_000_000));
    let last = Moment::new(MAX_MOMENT_SECS, 999_999_999).unwrap();
    assert!(last.checked_add(&Span::new(0, 1).unwrap()).is_none());
    assert!(last.checked_add(&Span::new(0, 0).unwrap()).is_some());
    assert!(last.checked_add(&Span::new(i64::MAX, 0).unwrap()).is_none());
    let first = Moment::new(MIN_MOMENT_SECS, 0).unwrap();
    assert!(first.checked_add(&Span::new(-1, 999_999_999).unwrap()).is_none());
    assert!(first.checked_add(&Span::new(i64::MIN, 0).unwrap()).is_none());
    let whole = first.checked_add(&Span::new(MAX_MOMENT_SECS - MIN_MOMENT_SECS, 0).unwrap());
    assert_eq!(whole.unwrap().timestamp(), MAX_MOMENT_SECS);
}

#[test]
fn span_rejects_a_whole_second_of_nanos() {
    assert!(Span::new(0, 999_999_999).is_some());
    assert!(Span::new(0, 1_000_000_000).is_none());
}

#[test]
fn span_is_at_most_seconds_at_the_edge() {
    assert!(Span::new(300, 0).unwrap().is_at_most_seconds(300));
    assert!(!Span::new(300, 1).unwrap().is_at_most_seconds(300));
    assert!(Span::new(299, 999_999_999).unwrap().is_at_most_seconds(300));
    assert!(Span::new(-1, 0).unwrap().is_at_most_seconds(300));
}
