use quotes_ctl::calendar::{civil_from_days, days_from_civil};
use quotes_ctl::datetime::{parse_time, parse_utc_datetime, timestamp_suffix};

#[test]
fn epoch_is_day_zero() {
    assert_eq!(days_from_civil(1970, 1, 1), 0);
    assert_eq!(civil_from_days(0), (1970, 1, 1));
}

#[test]
fn known_day_numbers() {
    assert_eq!(days_from_civil(2000, 3, 1), 11017);
    assert_eq!(days_from_civil(2026, 1, 1), 20454);
    assert_eq!(days_from_civil(1969, 12, 31), -1);
    assert_eq!(days_from_civil(1600, 2, 29), -135081);
    assert_eq!(days_from_civil(2024, 2, 29), 19782);
    assert_eq!(civil_from_days(19782), (2024, 2, 29));
    assert_eq!(civil_from_days(-1), (1969, 12, 31));
}

#[test]
fn round_trip_over_many_days() {
    let mut d: i64 = -800_000;
    while d < 800_000 {
        let (y, m, day) = civil_from_days(d);
        assert!((1..=12).contains(&m));
        assert!((1..=31).contains(&day));
        assert_eq!(days_from_civil(y, m, day), d);
        d += 37;
    }
}

#[test]
fn consecutive_days_differ_by_one() {
    let mut prev = days_from_civil(1899, 12, 31);
    for y in 1900..2101i64 {
        for m in 1..=12u32 {
            let len = match m {
                2 if y % 4 == 0 && (y % 100 != 0 || y % 400 == 0) => 29,
                2 => 28,
                4 | 6 | 9 | 11 => 30,
                _ => 31,
            };
            for d in 1..=len {
                let n = days_from_civil(y, m, d);
                assert_eq!(n, prev + 1);
                assert_eq!(civil_from_days(n), (y, m, d));
                prev = n;
            }
        }
    }
}

#[test]
fn loose_parse_accepts_date_only() {
    assert_eq!(parse_time("2026-01-01"), Ok(1767225600));
    assert_eq!(parse_time("  2026-01-01 \n"), Ok(1767225600));
}

#[test]
fn loose_parse_accepts_partial_and_full_times() {
    assert_eq!(parse_time("2026-01-01 12:30"), Ok(1767270600));
    assert_eq!(parse_time("2026-01-01T12:30"), Ok(1767270600));
    assert_eq!(parse_time("2026-01-01 12:30:45"), Ok(1767270645));
    assert_eq!(parse_time("2026-01-01T12:30:45"), Ok(1767270645));
    assert_eq!(parse_time("2026-01-01T00:01:00Z"), Ok(1767225660));
}

#[test]
fn loose_parse_reports_each_field() {
    assert_eq!(parse_time("2026/01/01"), Err("bad date: 2026/01/01".to_string()));
    assert_eq!(parse_time("abcd-01-01"), Err("bad year: abcd-01-01".to_string()));
    assert_eq!(parse_time("2026-13-01"), Err("bad month: 2026-13-01".to_string()));
    assert_eq!(parse_time("2026-00-01"), Err("bad month: 2026-00-01".to_string()));
    assert_eq!(parse_time("2026-02-29"), Err("bad day: 2026-02-29".to_string()));
    assert_eq!(parse_time("2026-04-31 10:00"), Err("bad day: 2026-04-31 10:00".to_string()));
    assert_eq!(parse_time(""), Err("bad date: ".to_string()));
}

#[test]
fn strict_parse_accepts_exact_form() {
    assert_eq!(parse_utc_datetime("2026-02-15 20:00:00"), Ok(1771185600));
    assert_eq!(parse_utc_datetime(" 2026-01-01 12:30:45 "), Ok(1767270645));
}

#[test]
fn strict_parse_rejects_other_forms() {
    let expect = |s: &str| {
        Err(format!("Invalid datetime format: '{s}' (expected YYYY-MM-DD HH:MM:SS)"))
    };
    assert_eq!(parse_utc_datetime("2026-02-15T20:00:00"), expect("2026-02-15T20:00:00"));
    assert_eq!(parse_utc_datetime("2026-02-15 20:00"), expect("2026-02-15 20:00"));
    assert_eq!(parse_utc_datetime("2026-02-15 20:00:00x"), expect("2026-02-15 20:00:00x"));
    assert_eq!(parse_utc_datetime("2026-0a-15 20:00:00"), expect("2026-0a-15 20:00:00"));
    assert_eq!(
        parse_utc_datetime("2026-02-30 20:00:00"),
        Err("invalid date in '2026-02-30 20:00:00'".to_string())
    );
}

#[test]
fn stamp_of_known_instant() {
    assert_eq!(timestamp_suffix(1771252252), "20260216_143052");
    assert_eq!(timestamp_suffix(0), "19700101_000000");
}

#[test]
fn stamp_of_now_has_fixed_shape() {
    let s = quotes_ctl::datetime::utc_now_suffix();
    assert_eq!(s.len(), 15);
    assert_eq!(&s[8..9], "_");
    assert!(s.chars().enumerate().all(|(i, c)| i == 8 || c.is_ascii_digit()));
}
