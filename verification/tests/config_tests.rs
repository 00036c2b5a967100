use token_notifier::clock::{now_utc, today_local, today_utc};
use token_notifier::config::{config_from_values, parse_i64, parse_u64, ConfigError};

fn s(v: &str) -> Option<String> {
    Some(String::from(v))
}

#[test]
fn numeral_parsing() {
    assert_eq!(parse_u64("0"), Some(0));
    assert_eq!(parse_u64("3600"), Some(3600));
    assert_eq!(parse_u64(""), None);
    assert_eq!(parse_u64("12x"), None);
    assert_eq!(parse_u64("-1"), None);
    assert_eq!(parse_u64("99999999999999999999"), None);

    assert_eq!(parse_i64("42"), Some(42));
    assert_eq!(parse_i64("+5"), Some(5));
    assert_eq!(parse_i64("-2"), Some(-2));
    assert_eq!(parse_i64("-0"), Some(0));
    assert_eq!(parse_i64("abc"), None);
    assert_eq!(parse_i64("-"), None);
    assert_eq!(parse_i64("9223372036854775807"), Some(i64::MAX));
    assert_eq!(parse_i64("-9223372036854775808"), Some(i64::MIN));
}

#[test]
fn config_requires_credentials() {
    assert_eq!(
        config_from_values(None, s("c"), None, None),
        Err(ConfigError::MissingBotToken)
    );
    assert_eq!(
        config_from_values(s("b"), None, None, None),
        Err(ConfigError::MissingChatId)
    );
}

#[test]
fn config_applies_defaults() {
    let cfg = config_from_values(s("b"), s("c"), None, None).unwrap();
    assert_eq!(cfg.bot_token, "b");
    assert_eq!(cfg.chat_id, "c");
    assert_eq!(cfg.threshold_days, 1);
    assert_eq!(cfg.interval_seconds, 3600);
}

#[test]
fn config_reads_numbers() {
    let cfg = config_from_values(s("b"), s("c"), s("-2"), s("60")).unwrap();
    assert_eq!(cfg.threshold_days, -2);
    assert_eq!(cfg.interval_seconds, 60);
}

#[test]
fn config_rejects_bad_numbers() {
    assert_eq!(
        config_from_values(s("b"), s("c"), s("abc"), None),
        Err(ConfigError::BadThreshold)
    );
    assert_eq!(
        config_from_values(s("b"), s("c"), None, s("12x")),
        Err(ConfigError::BadInterval)
    );
}

#[test]
fn clock_yields_valid_dates() {
    let today = today_utc().unwrap();
    assert!(1 <= today.month && today.month <= 12);
    assert!(2000 <= today.year && today.year <= 9999);
    let local = today_local().unwrap();
    assert!(1 <= local.month && local.month <= 12);
    let now = now_utc().unwrap();
    assert!(now.hour < 24 && now.minute < 60 && now.second < 60);
}
