use op_loader::cli::{handle_config_action, parse_duration, ConfigAction, ConfigError, DurationError};
use op_loader::entities::OpLoadConfig;

#[test]
fn config_get_default_account_id() {
    let mut config = OpLoadConfig::new();
    config.set_default_account("test-account-123".to_string());

    let result = handle_config_action(
        &ConfigAction::Get {
            key: "default_account_id".to_string(),
        },
        &config,
        &"/tmp/config.toml".to_string(),
    );
    assert_eq!(result.unwrap(), "test-account-123");
}

#[test]
fn config_get_unknown_key() {
    let config = OpLoadConfig::new();

    let result = handle_config_action(
        &ConfigAction::Get {
            key: "nonexistent_key".to_string(),
        },
        &config,
        &"/tmp/config.toml".to_string(),
    );

    match result {
        Err(ConfigError::UnknownKey(k)) => assert_eq!(k, "nonexistent_key"),
        other => panic!("expected an unknown-key error, got {other:?}"),
    }
}

#[test]
fn config_path_shows_custom_path() {
    let config = OpLoadConfig::new();
    let result = handle_config_action(
        &ConfigAction::Path,
        &config,
        &"/tmp/config.toml".to_string(),
    );
    assert_eq!(result.unwrap(), "/tmp/config.toml");
}

#[test]
fn config_get_when_file_does_not_exist_returns_not_set() {
    // a document that was never written deserializes to its default
    let config = OpLoadConfig::new();
    let result = handle_config_action(
        &ConfigAction::Get {
            key: "default_account_id".to_string(),
        },
        &config,
        &"/tmp/nonexistent.toml".to_string(),
    );
    assert_eq!(result.unwrap(), "(not set)");
}

#[test]
fn duration_units_give_exact_seconds() {
    assert_eq!(parse_duration("30s"), Ok(Some(30)));
    assert_eq!(parse_duration("10m"), Ok(Some(600)));
    assert_eq!(parse_duration("1h"), Ok(Some(3600)));
    assert_eq!(parse_duration("2d"), Ok(Some(172800)));
}

#[test]
fn duration_blank_means_no_ttl() {
    assert_eq!(parse_duration(""), Ok(None));
    assert_eq!(parse_duration("   "), Ok(None));
}

#[test]
fn duration_trims_whitespace() {
    assert_eq!(parse_duration("  45s\n"), Ok(Some(45)));
}

#[test]
fn duration_too_short_is_rejected() {
    assert_eq!(parse_duration("5"), Err(DurationError::TooShort));
    assert_eq!(parse_duration("s"), Err(DurationError::TooShort));
}

#[test]
fn duration_bad_magnitude_is_rejected() {
    assert_eq!(parse_duration("abcs"), Err(DurationError::InvalidValue));
    assert_eq!(parse_duration("1.5h"), Err(DurationError::InvalidValue));
    assert_eq!(parse_duration("-4s"), Err(DurationError::InvalidValue));
}

#[test]
fn duration_unknown_unit_is_rejected() {
    assert_eq!(parse_duration("30x"), Err(DurationError::InvalidUnit));
    assert_eq!(parse_duration("30"), Err(DurationError::InvalidUnit));
}

#[test]
fn duration_overflow_is_rejected() {
    assert_eq!(
        parse_duration("99999999999999999999s"),
        Err(DurationError::InvalidValue)
    );
}

#[test]
fn duration_saturates_on_multiplication() {
    assert_eq!(parse_duration("18446744073709551615d"), Ok(Some(u64::MAX)));
}

#[test]
fn duration_trims_unicode_whitespace() {
    assert_eq!(parse_duration("\u{a0}30s\u{2003}"), Ok(Some(30)));
}
