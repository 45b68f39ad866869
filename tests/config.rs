use animal_bot::config::{parse_interval, Config, ConfigError};

fn some(s: &str) -> Option<String> {
    Some(s.to_string())
}

#[test]
fn interval_plain_digits() {
    assert_eq!(parse_interval("3600"), Some(3600));
    assert_eq!(parse_interval("0"), Some(0));
    assert_eq!(parse_interval("007"), Some(7));
}

#[test]
fn interval_leading_plus() {
    assert_eq!(parse_interval("+15"), Some(15));
    assert_eq!(parse_interval("+"), None);
    assert_eq!(parse_interval("++1"), None);
}

#[test]
fn interval_rejects_other_text() {
    assert_eq!(parse_interval(""), None);
    assert_eq!(parse_interval("-5"), None);
    assert_eq!(parse_interval(" 5"), None);
    assert_eq!(parse_interval("5 "), None);
    assert_eq!(parse_interval("1e3"), None);
    assert_eq!(parse_interval("\u{663}"), None);
}

#[test]
fn interval_largest_value() {
    assert_eq!(parse_interval("18446744073709551615"), Some(u64::MAX));
    assert_eq!(parse_interval("18446744073709551616"), None);
    assert_eq!(parse_interval("99999999999999999999x"), None);
}

#[test]
fn interval_agrees_with_std_parse() {
    for s in ["0", "1", "+42", "-1", "", "+", "12a", "18446744073709551615", "18446744073709551616", "00"] {
        assert_eq!(parse_interval(s), s.parse::<u64>().ok(), "{s}");
    }
}

#[test]
fn config_missing_prefix() {
    let r = Config::from_values(None, some("tok"), some("5"), some("general"));
    assert!(matches!(r, Err(ConfigError::MissingPrefix)));
}

#[test]
fn config_missing_token() {
    let r = Config::from_values(some("!"), None, None, None);
    assert!(matches!(r, Err(ConfigError::MissingToken)));
}

#[test]
fn config_zero_interval() {
    let r = Config::from_values(some("!"), some("tok"), some("0"), some("general"));
    assert!(matches!(r, Err(ConfigError::ZeroInterval)));
}

#[test]
fn config_interval_without_channel() {
    let r = Config::from_values(some("!"), some("tok"), some("10"), None);
    assert!(matches!(r, Err(ConfigError::MissingChannel)));
}

#[test]
fn config_without_interval() {
    let c = Config::from_values(some("!"), some("tok"), None, None).unwrap();
    assert_eq!(c.command_prefix, "!");
    assert_eq!(c.token, "tok");
    assert!(c.broadcast.is_none());
}

#[test]
fn config_unreadable_interval_counts_as_unset() {
    let c = Config::from_values(some("!"), some("tok"), some("soon"), None).unwrap();
    assert!(c.broadcast.is_none());
}

#[test]
fn config_with_interval() {
    let c = Config::from_values(some("?"), some("tok"), some("60"), some("general")).unwrap();
    let b = c.broadcast.unwrap();
    assert_eq!(b.interval_secs, 60);
    assert_eq!(b.channel_name, "general");
}
