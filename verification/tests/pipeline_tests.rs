use email_processor::AwsError;
use email_processor::EmailAddress;
use email_processor::EmailError;
use email_processor::MessageId;
use email_processor::build_from_display;
use email_processor::build_storage_key;
use email_processor::prepare_forward_email;
use email_processor::validate_email_size;

#[test]
fn test_validate_email_size_at_limit() {
    let exact = vec![0u8; 1024 * 1024];
    assert!(validate_email_size(&exact, 1).is_ok());
}

#[test]
fn test_validate_email_size_over_limit() {
    let over = vec![0u8; 1024 * 1024 + 1];
    assert!(matches!(
        validate_email_size(&over, 1),
        Err(AwsError::SesError(_))
    ));
}

#[test]
fn test_build_storage_key() {
    let id = MessageId::try_from("test-message-123".to_string()).unwrap();
    let key = build_storage_key("custom/prefix", &id).unwrap();
    assert_eq!(key.as_str(), "custom/prefix/test-message-123");
}

#[test]
fn test_build_from_display() {
    let from = build_from_display("Jane", "y.com", "fwd@y.com");
    assert_eq!(from, "\"Jane\" (via y.com) <fwd@y.com>");
}

#[test]
fn test_prepare_forward_end_to_end() {
    let raw = b"From: Jane <jane@x.com>\r\nSubject: Hi\r\n\r\nHello";
    let forward_to = EmailAddress::try_from("contact@y.com".to_string()).unwrap();
    let out = prepare_forward_email(raw, &forward_to, 10, "y.com", "fwd@y.com").unwrap();
    let s = String::from_utf8_lossy(&out);

    assert!(s.contains("From: \"Jane\" (via y.com) <fwd@y.com>"));
    assert!(s.contains("To: contact@y.com"));
    assert!(s.contains("Reply-To: jane@x.com"));
    assert!(s.contains("Subject: Hi"));
    assert!(s.ends_with("\r\n\r\nHello"));
}

#[test]
fn test_prepare_forward_prefers_reply_to() {
    let raw =
        b"From: noreply@x.com\r\nReply-To: Author <author@x.com>\r\nSubject: Hi\r\n\r\nBody";
    let forward_to = EmailAddress::try_from("inbox@y.com".to_string()).unwrap();
    let out = prepare_forward_email(raw, &forward_to, 10, "y.com", "fwd@y.com").unwrap();
    let s = String::from_utf8_lossy(&out);

    assert!(s.contains("Reply-To: author@x.com"));
    assert!(s.contains("From: \"Author\" (via y.com) <fwd@y.com>"));
    assert!(!s.contains("noreply@x.com"));
}

#[test]
fn test_prepare_forward_rejects_oversized_message() {
    let mut raw = b"From: a@b.cd\r\nSubject: big\r\n\r\n".to_vec();
    raw.resize(1024 * 1024 + 1, b'x');
    let forward_to = EmailAddress::try_from("inbox@y.com".to_string()).unwrap();
    assert!(matches!(
        prepare_forward_email(&raw, &forward_to, 1, "y.com", "fwd@y.com"),
        Err(AwsError::SesError(_))
    ));
}

#[test]
fn test_prepare_forward_requires_identity() {
    let raw = b"Subject: only\r\n\r\nBody";
    let forward_to = EmailAddress::try_from("inbox@y.com".to_string()).unwrap();
    assert!(matches!(
        prepare_forward_email(raw, &forward_to, 10, "y.com", "fwd@y.com"),
        Err(AwsError::EmailError(EmailError::MissingHeader(_)))
    ));
}

#[test]
fn test_prepare_forward_requires_boundary() {
    let raw = b"From: a@b.cd\nSubject: lf-only\n\nBody";
    let forward_to = EmailAddress::try_from("inbox@y.com".to_string()).unwrap();
    assert!(matches!(
        prepare_forward_email(raw, &forward_to, 10, "y.com", "fwd@y.com"),
        Err(AwsError::MimeError(_))
    ));
}
