use email_processor::EmailAddress;
use email_processor::EmailBody;
use email_processor::MessageId;
use email_processor::S3Key;
use email_processor::Subject;
use email_processor::extract_sender_name;
use email_processor::parse_email;

const TEST_EMAIL: &[u8] = b"From: John Doe <john@example.com>\r\n\
Subject: Test Email Subject\r\n\
Content-Type: text/plain; charset=utf-8\r\n\
\r\n\
This is a test email body with some content.";

const MULTIPART_EMAIL: &[u8] = b"From: Jane Smith <jane@example.com>\r\n\
Subject: Multipart Test\r\n\
Content-Type: multipart/alternative; boundary=\"boundary123\"\r\n\
\r\n\
--boundary123\r\n\
Content-Type: text/plain; charset=utf-8\r\n\
\r\n\
Plain text version of the email.\r\n\
--boundary123\r\n\
Content-Type: text/html; charset=utf-8\r\n\
\r\n\
<html><body>HTML version</body></html>\r\n\
--boundary123--";

#[test]
fn test_parse_simple_email_integration() {
    let result = parse_email(TEST_EMAIL);
    assert!(result.is_ok());

    let parsed = result.unwrap();
    assert_eq!(parsed.subject.as_str(), "Test Email Subject");
    assert_eq!(parsed.from.as_str(), "john@example.com");
    assert!(parsed.body.as_str().contains("test email body"));
}

#[test]
fn test_parse_multipart_email() {
    let result = parse_email(MULTIPART_EMAIL);
    assert!(result.is_ok());

    let parsed = result.unwrap();
    assert_eq!(parsed.subject.as_str(), "Multipart Test");
    assert_eq!(parsed.from.as_str(), "jane@example.com");
}

#[test]
fn test_extract_sender_name_with_quotes() {
    let name = extract_sender_name("\"John Doe\" <john@example.com>");
    assert_eq!(name, "John Doe");
}

#[test]
fn test_extract_sender_name_without_quotes() {
    let name = extract_sender_name("John Doe <john@example.com>");
    assert_eq!(name, "John Doe");
}

#[test]
fn test_extract_sender_name_email_only() {
    let name = extract_sender_name("john@example.com");
    assert_eq!(name, "john");
}

#[test]
fn test_email_parsing_edge_cases() {
    // Email with no subject
    let no_subject = b"From: test@example.com\r\n\r\nBody only";
    let result = parse_email(no_subject);
    assert!(result.is_ok());
    assert_eq!(result.unwrap().subject.as_str(), "Forwarded Email");

    // Email with special characters in subject
    let special_chars =
        b"From: test@example.com\r\nSubject: Test: Special [chars] & symbols!\r\n\r\nBody";
    let result = parse_email(special_chars);
    assert!(result.is_ok());
    assert_eq!(
        result.unwrap().subject.as_str(),
        "Test: Special [chars] & symbols!"
    );
}

#[test]
fn test_quoted_printable_handling() {
    let qp_email = b"From: test@example.com\r\n\
Subject: Test\r\n\
Content-Type: text/plain; charset=utf-8\r\n\
Content-Transfer-Encoding: quoted-printable\r\n\
\r\n\
This is a test with special chars: =C3=A9 =C3=A0";

    let result = parse_email(qp_email);
    assert!(result.is_ok());
    // mailparse should handle quoted-printable decoding
}

#[test]
fn test_domain_types_round_trip_values() {
    let email = EmailAddress::try_from("user@example.com".to_string()).unwrap();
    assert_eq!(email.as_str(), "user@example.com");
    let id = MessageId::try_from("abc".to_string()).unwrap();
    assert_eq!(id.as_str(), "abc");
    let key = S3Key::try_from("a/b".to_string()).unwrap();
    assert_eq!(key.as_str(), "a/b");
    let subject = Subject::try_from("s".to_string()).unwrap();
    assert_eq!(subject.as_str(), "s");
    let body = EmailBody::try_from("b".to_string()).unwrap();
    assert_eq!(body.as_str(), "b");
}
