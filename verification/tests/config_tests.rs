use email_processor::Config;
use email_processor::ConfigError;

#[test]
fn test_config_new() {
    let config = Config::new(
        "test-bucket".to_string(),
        "incoming".to_string(),
        "test@example.com".to_string(),
    );

    assert_eq!(config.email_bucket, "test-bucket");
    assert_eq!(config.incoming_prefix, "incoming");
    assert_eq!(config.forward_to_email, "test@example.com");
    assert_eq!(config.max_email_size_mb, 10);
}

#[test]
fn test_config_size_limit_default() {
    let config = Config::with_size_limit(
        "test-bucket".to_string(),
        "incoming".to_string(),
        "test@example.com".to_string(),
        None,
    )
    .unwrap();
    assert_eq!(config.max_email_size_mb, 10);
}

#[test]
fn test_config_size_limit_custom() {
    let config = Config::with_size_limit(
        "test-bucket".to_string(),
        "incoming".to_string(),
        "test@example.com".to_string(),
        Some(5),
    )
    .unwrap();
    assert_eq!(config.max_email_size_mb, 5);
}

#[test]
fn test_config_size_limit_invalid() {
    let too_big = Config::with_size_limit(
        "test-bucket".to_string(),
        "incoming".to_string(),
        "test@example.com".to_string(),
        Some(15),
    );
    assert!(matches!(too_big, Err(ConfigError::InvalidValue(_))));

    let zero = Config::with_size_limit(
        "test-bucket".to_string(),
        "incoming".to_string(),
        "test@example.com".to_string(),
        Some(0),
    );
    assert!(zero.is_err());
}
