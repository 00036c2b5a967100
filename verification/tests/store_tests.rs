use token_notifier::date::{parse_date, render_date, Date, Timestamp};
use token_notifier::store::{TokenStore, TokenRecord, ValidationError};

fn ts(s: &str, hour: u8, minute: u8, second: u8) -> Timestamp {
    Timestamp { date: parse_date(s).unwrap(), hour, minute, second }
}

#[test]
fn add_then_list_round_trips() {
    let mut store = TokenStore::new();
    assert!(store.add("alpha", "2024-06-10").is_ok());
    let listed = store.list();
    assert_eq!(listed.len(), 1);
    assert_eq!(listed[0].name, "alpha");
    assert_eq!(render_date(listed[0].expires_at), "2024-06-10");
    assert!(listed[0].last_notified.is_none());
}

#[test]
fn add_malformed_date_leaves_store_unchanged() {
    let mut store = TokenStore::new();
    assert_eq!(store.add("bad", "2024-13-40"), Err(ValidationError));
    assert_eq!(store.list().len(), 0);

    assert!(store.add("good", "2024-06-10").is_ok());
    assert_eq!(store.add("good", "2024-02-30"), Err(ValidationError));
    let listed = store.list();
    assert_eq!(listed.len(), 1);
    assert_eq!(render_date(listed[0].expires_at), "2024-06-10");
}

#[test]
fn re_add_replaces_and_clears_notification() {
    let mut store = TokenStore::new();
    assert!(store.add("X", "2024-01-01").is_ok());
    store.mark_notified("X", ts("2024-01-01", 12, 0, 0));
    assert!(store.list()[0].last_notified.is_some());

    assert!(store.add("X", "2025-05-05").is_ok());
    let listed = store.list();
    assert_eq!(listed.len(), 1);
    assert_eq!(listed[0].name, "X");
    assert_eq!(render_date(listed[0].expires_at), "2025-05-05");
    assert!(listed[0].last_notified.is_none());
}

#[test]
fn remove_absent_name_is_a_no_op() {
    let mut store = TokenStore::new();
    store.remove("ghost");
    assert_eq!(store.list().len(), 0);

    assert!(store.add("a", "2024-06-10").is_ok());
    store.remove("ghost");
    assert_eq!(store.list().len(), 1);
    store.remove("a");
    assert_eq!(store.list().len(), 0);
    store.remove("a");
    assert_eq!(store.list().len(), 0);
}

#[test]
fn find_expiring_has_inclusive_boundary() {
    let mut store = TokenStore::new();
    assert!(store.add("on-boundary", "2024-06-11").is_ok());
    assert!(store.add("past-boundary", "2024-06-12").is_ok());
    let now = parse_date("2024-06-10").unwrap();
    let due = store.find_expiring(1, now);
    assert_eq!(due.len(), 1);
    assert_eq!(due[0].name, "on-boundary");
}

#[test]
fn find_expiring_includes_expired_and_today() {
    let mut store = TokenStore::new();
    assert!(store.add("old", "2020-01-01").is_ok());
    assert!(store.add("today", "2024-06-10").is_ok());
    assert!(store.add("later", "2024-07-01").is_ok());
    let now = parse_date("2024-06-10").unwrap();
    let due = store.find_expiring(0, now);
    assert_eq!(due.len(), 2);
    assert_eq!(due[0].name, "old");
    assert_eq!(due[1].name, "today");
}

#[test]
fn failed_send_leaves_notification_state() {
    let mut store = TokenStore::new();
    assert!(store.add("svc", "2024-01-01").is_ok());
    let start = ts("2024-06-10", 8, 0, 0);
    store.record_send_outcome("svc", false, start);
    assert!(store.list()[0].last_notified.is_none());
}

#[test]
fn successful_send_records_time_not_before_start() {
    let mut store = TokenStore::new();
    assert!(store.add("svc", "2024-01-01").is_ok());
    let start = ts("2024-06-10", 8, 0, 0);
    let sent_at = ts("2024-06-10", 8, 0, 2);
    store.record_send_outcome("svc", true, sent_at);
    let after = store.list()[0].last_notified.unwrap();
    assert_eq!(after, sent_at);
    assert!(after.date == start.date && (after.hour, after.minute, after.second) >= (start.hour, start.minute, start.second));
}

#[test]
fn mark_notified_on_removed_record_is_silent() {
    let mut store = TokenStore::new();
    assert!(store.add("a", "2024-06-10").is_ok());
    store.remove("a");
    store.mark_notified("a", ts("2024-06-10", 1, 2, 3));
    assert_eq!(store.list().len(), 0);
}

#[test]
fn from_records_rejects_duplicate_names() {
    let d = parse_date("2024-06-10").unwrap();
    let recs = vec![
        TokenRecord { name: String::from("a"), expires_at: d, last_notified: None },
        TokenRecord { name: String::from("a"), expires_at: d, last_notified: None },
    ];
    assert!(TokenStore::from_records(recs).is_none());

    let recs = vec![
        TokenRecord { name: String::from("a"), expires_at: d, last_notified: None },
        TokenRecord { name: String::from("b"), expires_at: d, last_notified: None },
    ];
    let store = TokenStore::from_records(recs).unwrap();
    assert_eq!(store.list().len(), 2);
}

#[test]
fn from_records_rejects_out_of_range_dates() {
    let bad = TokenRecord {
        name: String::from("a"),
        expires_at: Date { year: 2024, month: 13, day: 40 },
        last_notified: None,
    };
    assert!(TokenStore::from_records(vec![bad]).is_none());
}
