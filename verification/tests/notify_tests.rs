use token_notifier::date::parse_date;
use token_notifier::notify::{
    daemon_transition, notice_message, plan_sweep, telegram_send_url, u64_to_dec, DaemonPhase,
};
use token_notifier::store::TokenStore;

#[test]
fn message_wording_by_days_remaining() {
    assert_eq!(notice_message("db", -3), "Token 'db' has EXPIRED!");
    assert_eq!(notice_message("db", 0), "Token 'db' has EXPIRED!");
    assert_eq!(notice_message("db", 1), "Token 'db' will expire in 1 day!");
    assert_eq!(notice_message("db", 2), "Token 'db' will expire in 2 days!");
    assert_eq!(notice_message("db", 14), "Token 'db' will expire in 14 days!");
}

#[test]
fn decimal_rendering() {
    assert_eq!(u64_to_dec(0), "0");
    assert_eq!(u64_to_dec(7), "7");
    assert_eq!(u64_to_dec(10), "10");
    assert_eq!(u64_to_dec(305), "305");
    assert_eq!(u64_to_dec(18446744073709551615), "18446744073709551615");
}

#[test]
fn sweep_plans_one_notice_per_due_record() {
    let mut store = TokenStore::new();
    assert!(store.add("expired", "2024-06-01").is_ok());
    assert!(store.add("tomorrow", "2024-06-11").is_ok());
    assert!(store.add("later", "2024-06-13").is_ok());
    assert!(store.add("far", "2024-09-01").is_ok());
    let today = parse_date("2024-06-10").unwrap();
    let notices = plan_sweep(&store, 3, today);
    assert_eq!(notices.len(), 3);
    assert_eq!(notices[0].name, "expired");
    assert_eq!(notices[0].message, "Token 'expired' has EXPIRED!");
    assert_eq!(notices[1].name, "tomorrow");
    assert_eq!(notices[1].message, "Token 'tomorrow' will expire in 1 day!");
    assert_eq!(notices[2].name, "later");
    assert_eq!(notices[2].message, "Token 'later' will expire in 3 days!");
}

#[test]
fn end_to_end_expired_token() {
    let mut store = TokenStore::new();
    assert_eq!(store.list().len(), 0);
    assert!(store.add("svc-key", "2024-01-01").is_ok());
    let now = parse_date("2024-01-02").unwrap();
    let due = store.find_expiring(0, now);
    assert_eq!(due.len(), 1);
    assert_eq!(due[0].name, "svc-key");
    let notices = plan_sweep(&store, 0, now);
    assert_eq!(notices.len(), 1);
    assert_eq!(notices[0].message, "Token 'svc-key' has EXPIRED!");
}

#[test]
fn daemon_alternates_phases() {
    assert_eq!(daemon_transition(DaemonPhase::Idle), DaemonPhase::Checking);
    assert_eq!(daemon_transition(DaemonPhase::Checking), DaemonPhase::Idle);
}

#[test]
fn send_url_embeds_bot_token() {
    assert_eq!(
        telegram_send_url("TOK123"),
        "https://api.telegram.org/botTOK123/sendMessage"
    );
}
