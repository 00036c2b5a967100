use token_notifier::date::{
    parse_date, parse_timestamp, render_date, render_timestamp, days_between, Date, Timestamp,
};

#[test]
fn parse_valid_dates() {
    let d = parse_date("2024-06-10").unwrap();
    assert_eq!(d, Date { year: 2024, month: 6, day: 10 });
    assert_eq!(parse_date("0000-01-01").unwrap(), Date { year: 0, month: 1, day: 1 });
    assert_eq!(parse_date("9999-12-31").unwrap(), Date { year: 9999, month: 12, day: 31 });
}

#[test]
fn parse_rejects_malformed() {
    assert!(parse_date("2024-13-40").is_none());
    assert!(parse_date("2024-00-10").is_none());
    assert!(parse_date("2024-01-00").is_none());
    assert!(parse_date("2024-01-32").is_none());
    assert!(parse_date("24-01-01").is_none());
    assert!(parse_date("2024/01/01").is_none());
    assert!(parse_date("2024-1-01").is_none());
    assert!(parse_date("").is_none());
    assert!(parse_date("2024-06-10x").is_none());
}

#[test]
fn parse_knows_leap_years() {
    assert!(parse_date("2024-02-29").is_some());
    assert!(parse_date("2023-02-29").is_none());
    assert!(parse_date("2000-02-29").is_some());
    assert!(parse_date("1900-02-29").is_none());
    assert!(parse_date("2024-02-30").is_none());
}

#[test]
fn render_round_trips() {
    for s in ["2024-06-10", "0001-01-01", "2000-02-29", "1987-11-03"] {
        let d = parse_date(s).unwrap();
        assert_eq!(render_date(d), s);
    }
}

#[test]
fn day_differences() {
    let d = |s: &str| parse_date(s).unwrap();
    assert_eq!(days_between(d("2024-06-11"), d("2024-06-10")), 1);
    assert_eq!(days_between(d("2024-03-01"), d("2024-02-28")), 2);
    assert_eq!(days_between(d("2023-03-01"), d("2023-02-28")), 1);
    assert_eq!(days_between(d("2025-01-01"), d("2024-01-01")), 366);
    assert_eq!(days_between(d("2024-01-01"), d("2024-01-02")), -1);
    assert_eq!(days_between(d("2024-06-10"), d("2024-06-10")), 0);
}

#[test]
fn timestamp_rendering() {
    let ts = Timestamp {
        date: Date { year: 2024, month: 6, day: 10 },
        hour: 5,
        minute: 9,
        second: 30,
    };
    assert_eq!(render_timestamp(ts), "2024-06-10 05:09:30");
}

#[test]
fn timestamp_parsing() {
    let ts = parse_timestamp("2024-06-10 05:09:30").unwrap();
    assert_eq!(
        ts,
        Timestamp { date: Date { year: 2024, month: 6, day: 10 }, hour: 5, minute: 9, second: 30 }
    );
    assert_eq!(render_timestamp(ts), "2024-06-10 05:09:30");
    assert!(parse_timestamp("2024-06-10 24:00:00").is_none());
    assert!(parse_timestamp("2024-06-10 05:60:30").is_none());
    assert!(parse_timestamp("2024-06-10T05:09:30").is_none());
    assert!(parse_timestamp("2024-13-10 05:09:30").is_none());
    assert!(parse_timestamp("2024-06-10 05:09").is_none());
}
