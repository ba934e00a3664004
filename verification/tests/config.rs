use modbus::config::{ClientConfigFile, ConfigError, RetryPolicyFile};
use modbus::helpers::{Endian, WordOrder};
use std::time::Duration;

#[test]
fn config_defaults() {
    let file = ClientConfigFile::default();
    assert_eq!(file.timeout_ms, 5000);
    assert!(file.retry_policy.is_none());
    let retry = RetryPolicyFile::default();
    assert_eq!(retry.max_retries, 3);
    assert_eq!(retry.initial_backoff_ms, 100);
    assert_eq!(retry.max_backoff_ms, 5000);
}

#[test]
fn into_parts_applies_timeout_and_retry() {
    let file = ClientConfigFile {
        timeout_ms: 1000,
        retry_policy: Some(RetryPolicyFile {
            max_retries: 2,
            ..RetryPolicyFile::default()
        }),
        ..ClientConfigFile::default()
    };
    let (config, retry) = file.into_parts().unwrap();
    assert_eq!(config.timeout, Duration::from_millis(1000));
    assert_eq!(retry.max_retries, 2);
    assert_eq!(retry.initial_backoff, Duration::from_millis(100));
    assert_eq!(retry.max_backoff, Duration::from_millis(5000));
    assert_eq!(config.endian, Endian::Big);
    assert_eq!(config.word_order, WordOrder::MostSignificantFirst);
}

#[test]
fn into_parts_parses_endian_and_word_order() {
    let file = ClientConfigFile {
        endian: Some("little".to_string()),
        word_order: Some("lsf".to_string()),
        ..ClientConfigFile::default()
    };
    let (config, retry) = file.into_parts().unwrap();
    assert_eq!(config.endian, Endian::Little);
    assert_eq!(config.word_order, WordOrder::LeastSignificantFirst);
    assert_eq!(retry.max_retries, 3);
    let file = ClientConfigFile {
        endian: Some("big".to_string()),
        word_order: Some("msf".to_string()),
        ..ClientConfigFile::default()
    };
    let (config, _) = file.into_parts().unwrap();
    assert_eq!(config.endian, Endian::Big);
    assert_eq!(config.word_order, WordOrder::MostSignificantFirst);
}

#[test]
fn config_into_parts_rejects_invalid_values() {
    let file = ClientConfigFile {
        endian: Some("mixed".to_string()),
        ..ClientConfigFile::default()
    };
    match file.into_parts() {
        Err(ConfigError::InvalidValue(msg)) => {
            assert_eq!(msg, "endian must be 'big' or 'little', got 'mixed'")
        }
        other => panic!("expected InvalidValue, got {other:?}"),
    }
    let file = ClientConfigFile {
        word_order: Some("BADC".to_string()),
        ..ClientConfigFile::default()
    };
    match file.into_parts() {
        Err(ConfigError::InvalidValue(msg)) => {
            assert_eq!(msg, "word_order must be 'msf' or 'lsf', got 'BADC'")
        }
        other => panic!("expected InvalidValue, got {other:?}"),
    }
}

#[test]
fn into_parts_rejects_invalid_endian() {
    let file = ClientConfigFile {
        endian: Some("mixed".to_string()),
        ..ClientConfigFile::default()
    };
    let err = file.into_parts().unwrap_err();
    assert!(
        matches!(err, ConfigError::InvalidValue(_)),
        "expected InvalidValue, got {err:?}"
    );
}
