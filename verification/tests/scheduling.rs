use wolfhook::Error;
use wolfhook::schedule::{next_after, parse_schedule};
use wolfhook::time::{Timestamp, day_after, days_in_month, is_leap_year, weekday};

fn ts(year: u32, month: u32, day: u32, hour: u32, minute: u32, second: u32) -> Timestamp {
    Timestamp {
        year,
        month,
        day,
        hour,
        minute,
        second,
    }
}

#[test]
fn leap_year_rules() {
    assert!(is_leap_year(2024));
    assert!(!is_leap_year(2023));
    assert!(!is_leap_year(2100));
    assert!(is_leap_year(2000));
}

#[test]
fn month_lengths() {
    assert_eq!(days_in_month(2024, 2), 29);
    assert_eq!(days_in_month(2023, 2), 28);
    assert_eq!(days_in_month(2023, 4), 30);
    assert_eq!(days_in_month(2023, 12), 31);
}

#[test]
fn weekday_known_dates() {
    // 2000-01-01 was a Saturday, 2024-03-07 a Thursday.
    assert_eq!(weekday(&ts(2000, 1, 1, 0, 0, 0)), 6);
    assert_eq!(weekday(&ts(2000, 1, 2, 0, 0, 0)), 0);
    assert_eq!(weekday(&ts(2024, 3, 7, 0, 0, 0)), 4);
    assert_eq!(weekday(&ts(2023, 1, 1, 0, 0, 0)), 0);
}

#[test]
fn day_after_rolls_over() {
    let d = day_after(&ts(2023, 12, 31, 5, 6, 7));
    assert_eq!((d.year, d.month, d.day), (2024, 1, 1));
    assert_eq!((d.hour, d.minute, d.second), (0, 0, 0));
    let d = day_after(&ts(2024, 2, 28, 0, 0, 0));
    assert_eq!((d.year, d.month, d.day), (2024, 2, 29));
}

#[test]
fn timestamp_ordering() {
    let a = ts(2023, 1, 1, 0, 0, 0);
    let b = ts(2023, 1, 1, 0, 0, 1);
    let c = ts(2024, 1, 1, 0, 0, 0);
    assert!(a.lt(&b));
    assert!(b.lt(&c));
    assert!(!b.lt(&a));
    assert!(!a.lt(&a));
}

#[test]
fn parse_default_expression() {
    let s = parse_schedule("0 30 * * * * *").unwrap();
    assert_eq!(s.seconds, vec![0]);
    assert_eq!(s.minutes, vec![30]);
    assert_eq!(s.hours, (0..24).collect::<Vec<u32>>());
    assert_eq!(s.days_of_month, (1..32).collect::<Vec<u32>>());
    assert_eq!(s.months, (1..13).collect::<Vec<u32>>());
    assert_eq!(s.days_of_week, (1..8).collect::<Vec<u32>>());
    assert_eq!(s.years, (2000..10000).collect::<Vec<u32>>());
}

#[test]
fn parse_six_fields_means_every_year() {
    let s = parse_schedule("0 0 12 * * *").unwrap();
    assert_eq!(s.hours, vec![12]);
    assert_eq!(s.years, (2000..10000).collect::<Vec<u32>>());
}

#[test]
fn parse_lists_and_ranges() {
    let s = parse_schedule("0,30 10-12 1,3-5 * * *").unwrap();
    assert_eq!(s.seconds, vec![0, 30]);
    assert_eq!(s.minutes, vec![10, 11, 12]);
    assert_eq!(s.hours, vec![1, 3, 4, 5]);
}

#[test]
fn parse_steps() {
    let s = parse_schedule("*/15 5/10 1-10/3 * * *").unwrap();
    assert_eq!(s.seconds, vec![0, 15, 30, 45]);
    assert_eq!(s.minutes, vec![5, 15, 25, 35, 45, 55]);
    assert_eq!(s.hours, vec![1, 4, 7, 10]);
}

#[test]
fn parse_question_mark_means_any() {
    let a = parse_schedule("0 30 * * * ?").unwrap();
    let b = parse_schedule("0 30 * ? * *").unwrap();
    assert_eq!(a, b);
    assert_eq!(a.days_of_month, (1..32).collect::<Vec<u32>>());
    assert_eq!(a.days_of_week, (1..8).collect::<Vec<u32>>());
}

#[test]
fn parse_rejects_zero_step() {
    assert_eq!(parse_schedule("*/0 * * * * *"), Err(Error::InvalidSchedule));
    assert_eq!(parse_schedule("0 1-5/0 * * * *"), Err(Error::InvalidSchedule));
}

#[test]
fn parse_deduplicates_and_sorts() {
    let s = parse_schedule("30,0,30 5-7,6 * * * *").unwrap();
    assert_eq!(s.seconds, vec![0, 30]);
    assert_eq!(s.minutes, vec![5, 6, 7]);
}

#[test]
fn parse_rejects_malformed_expressions() {
    for expr in [
        "",
        "x",
        "0 30 * * *",
        "0 30 * * * * * *",
        "60 * * * * *",
        "0 61 * * * *",
        "0 0 24 * * *",
        "0 0 0 0 * *",
        "0 0 0 * 13 *",
        "0 0 0 * * 0",
        "0 0 0 * * 8",
        "0 0 0 * * * 1999",
        "5-2 * * * * *",
        "1- * * * * *",
        "a,2 * * * * *",
        "0 30 * * * * * trailing",
    ] {
        assert_eq!(parse_schedule(expr), Err(Error::InvalidSchedule), "{expr}");
    }
}

#[test]
fn parse_tolerates_extra_spaces() {
    let a = parse_schedule("0 30 * * * * *").unwrap();
    let b = parse_schedule("  0   30 *  * * *   *  ").unwrap();
    assert_eq!(a, b);
}

#[test]
fn parse_is_deterministic() {
    let a = parse_schedule("0 30 * * * * *").unwrap();
    let b = parse_schedule("0 30 * * * * *").unwrap();
    assert_eq!(a, b);
}

#[test]
fn default_schedule_fires_hourly_at_half_past() {
    let s = parse_schedule("0 30 * * * * *").unwrap();
    let t0 = ts(2023, 1, 1, 0, 0, 0);
    let t1 = next_after(&s, &t0).unwrap();
    assert_eq!(t1, ts(2023, 1, 1, 0, 30, 0));
    let t2 = next_after(&s, &t1).unwrap();
    assert_eq!(t2, ts(2023, 1, 1, 1, 30, 0));
}

#[test]
fn occurrences_strictly_increase_and_satisfy_fields() {
    let s = parse_schedule("0,30 15 2-3 * * *").unwrap();
    let mut t = ts(2023, 12, 31, 23, 59, 59);
    for _ in 0..8 {
        let n = next_after(&s, &t).unwrap();
        assert!(t.lt(&n));
        assert!(s.admits(&n));
        assert!(s.seconds.contains(&n.second));
        assert!(s.minutes.contains(&n.minute));
        assert!(s.hours.contains(&n.hour));
        t = n;
    }
    assert_eq!(t, ts(2024, 1, 2, 3, 15, 30));
}

#[test]
fn next_occurrence_honours_day_of_week() {
    // Day-of-week 1 is Sunday; 2024-03-07 is a Thursday, the next
    // Sunday is 2024-03-10.
    let s = parse_schedule("0 0 0 * * 1 *").unwrap();
    let n = next_after(&s, &ts(2024, 3, 7, 9, 0, 0)).unwrap();
    assert_eq!(n, ts(2024, 3, 10, 0, 0, 0));
    // Day-of-week 2 is Monday, the day after that Sunday.
    let s = parse_schedule("0 0 0 * * 2 *").unwrap();
    let n = next_after(&s, &ts(2024, 3, 7, 9, 0, 0)).unwrap();
    assert_eq!(n, ts(2024, 3, 11, 0, 0, 0));
}

#[test]
fn next_occurrence_rolls_to_next_month() {
    let s = parse_schedule("0 0 0 1 * * *").unwrap();
    let n = next_after(&s, &ts(2023, 1, 15, 12, 0, 0)).unwrap();
    assert_eq!(n, ts(2023, 2, 1, 0, 0, 0));
}

#[test]
fn next_occurrence_finds_leap_day() {
    let s = parse_schedule("0 0 0 29 2 * *").unwrap();
    let n = next_after(&s, &ts(2023, 3, 1, 0, 0, 0)).unwrap();
    assert_eq!(n, ts(2024, 2, 29, 0, 0, 0));
}

#[test]
fn next_occurrence_within_same_minute() {
    let s = parse_schedule("* * * * * * *").unwrap();
    let n = next_after(&s, &ts(2023, 5, 5, 5, 5, 5)).unwrap();
    assert_eq!(n, ts(2023, 5, 5, 5, 5, 6));
}

#[test]
fn no_occurrence_after_constrained_years() {
    let s = parse_schedule("0 0 0 1 1 * 2001-2002").unwrap();
    assert_eq!(next_after(&s, &ts(2023, 1, 1, 0, 0, 0)), None);
}

#[test]
fn no_occurrence_past_year_ceiling() {
    let s = parse_schedule("0 0 0 1 1 * 9999").unwrap();
    assert_eq!(next_after(&s, &ts(9999, 6, 1, 0, 0, 0)), None);
}

#[test]
fn timestamp_validity_check() {
    assert!(ts(2023, 2, 28, 23, 59, 59).is_valid());
    assert!(!ts(2023, 2, 29, 0, 0, 0).is_valid());
    assert!(ts(2024, 2, 29, 0, 0, 0).is_valid());
    assert!(!ts(1999, 1, 1, 0, 0, 0).is_valid());
    assert!(!ts(2023, 0, 1, 0, 0, 0).is_valid());
    assert!(!ts(2023, 1, 1, 24, 0, 0).is_valid());
}
