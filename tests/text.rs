use todo_bot::config::{load_config, parse_id, ConfigError};
use todo_bot::text::{decimal, format_list, join_lines, mention, ping_notice, same_text};

#[test]
fn decimal_forms() {
    assert_eq!(decimal(0), "0");
    assert_eq!(decimal(7), "7");
    assert_eq!(decimal(10), "10");
    assert_eq!(decimal(90210), "90210");
    assert_eq!(decimal(u64::MAX), "18446744073709551615");
}

#[test]
fn mentions_and_ping_notice() {
    assert_eq!(mention(42), "<@42>");
    assert_eq!(ping_notice(12, 345), "<@12> pinged: <@345>");
}

#[test]
fn listing_lines() {
    let notes = vec!["buy milk".to_string(), "walk dog".to_string()];
    let lines = format_list(&notes);
    assert_eq!(lines, vec!["1: buy milk", "2: walk dog"]);
    assert_eq!(join_lines(&lines), "1: buy milk\n2: walk dog");
    assert_eq!(join_lines(&Vec::new()), "");
}

#[test]
fn text_equality() {
    assert!(same_text("todo", "todo"));
    assert!(!same_text("todo", "toda"));
    assert!(!same_text("todo", "todos"));
}

#[test]
fn parse_ids() {
    assert_eq!(parse_id("0"), Some(0));
    assert_eq!(parse_id("1234567890"), Some(1234567890));
    assert_eq!(parse_id("18446744073709551615"), Some(u64::MAX));
    assert_eq!(parse_id("18446744073709551616"), None);
    assert_eq!(parse_id(""), None);
    assert_eq!(parse_id("12a"), None);
    assert_eq!(parse_id("-1"), None);
    assert_eq!(parse_id("+42"), Some(42));
    assert_eq!(parse_id("+"), None);
    assert_eq!(parse_id("++1"), None);
}

#[test]
fn missing_token_is_config_error() {
    let r = load_config(None, Some("1".to_string()), Some("2".to_string()));
    assert_eq!(r.err(), Some(ConfigError::MissingToken));
}

#[test]
fn config_errors_in_order() {
    let t = || Some("SECRET-REDACTED".to_string());
    assert_eq!(load_config(t(), None, None).err(), Some(ConfigError::MissingGuildId));
    assert_eq!(
        load_config(t(), Some("x".to_string()), None).err(),
        Some(ConfigError::InvalidGuildId)
    );
    assert_eq!(
        load_config(t(), Some("5".to_string()), None).err(),
        Some(ConfigError::MissingLogId)
    );
    assert_eq!(
        load_config(t(), Some("5".to_string()), Some("".to_string())).err(),
        Some(ConfigError::InvalidLogId)
    );
    let c = load_config(t(), Some("5".to_string()), Some("6".to_string())).ok().unwrap();
    assert_eq!(c.token, "SECRET-REDACTED");
    assert_eq!(c.guild_id, 5);
    assert_eq!(c.log_id, 6);
}
