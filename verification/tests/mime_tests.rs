use email_processor::MimeError;
use email_processor::find_header_body_boundary;
use email_processor::is_forbidden_header;
use email_processor::modify_email_headers;

#[test]
fn test_modify_simple_email() {
    let email =
        b"From: old@example.com\r\nTo: oldrecipient@example.com\r\nSubject: Test\r\n\r\nBody content";
    let result = modify_email_headers(
        email,
        "new@example.com",
        "newrecipient@example.com",
        "reply@example.com",
    );

    assert!(result.is_ok());
    let modified = result.unwrap();
    let modified_str = String::from_utf8_lossy(&modified);

    assert!(modified_str.contains("From: new@example.com"));
    assert!(modified_str.contains("To: newrecipient@example.com"));
    assert!(modified_str.contains("Reply-To: reply@example.com"));
    assert!(modified_str.contains("Subject: Test"));
    assert!(modified_str.contains("Body content"));
}

#[test]
fn test_strips_dkim_signature() {
    let email = b"From: old@example.com\r\nDKIM-Signature: v=1; a=rsa-sha256; c=relaxed/relaxed;\r\nSubject: Test\r\n\r\nBody";
    let result = modify_email_headers(
        email,
        "new@example.com",
        "newrecipient@example.com",
        "reply@example.com",
    );

    assert!(result.is_ok());
    let modified = result.unwrap();
    let modified_str = String::from_utf8_lossy(&modified);

    // Ensure DKIM-Signature is GONE
    assert!(
        !modified_str.contains("DKIM-Signature"),
        "DKIM-Signature should be removed"
    );
    assert!(modified_str.contains("Subject: Test"));
}

#[test]
fn test_modify_multipart_email() {
    let email = b"From: old@example.com\r\nTo: oldrecipient@example.com\r\nContent-Type: multipart/alternative; boundary=\"test\"\r\n\r\n--test\r\nContent-Type: text/plain\r\n\r\nPlain text\r\n--test\r\nContent-Type: text/html\r\n\r\n<html>HTML</html>\r\n--test--";
    let result = modify_email_headers(
        email,
        "new@example.com",
        "newrecipient@example.com",
        "reply@example.com",
    );

    assert!(result.is_ok());
    let modified = result.unwrap();
    let modified_str = String::from_utf8_lossy(&modified);

    assert!(modified_str.contains("Content-Type: multipart/alternative; boundary=\"test\""));
    assert!(modified_str.contains("--test\r\nContent-Type: text/plain"));
    assert!(modified_str.contains("Plain text"));
}

#[test]
fn test_find_boundary() {
    let email = b"H: V\r\n\r\nBody";

    let boundary = find_header_body_boundary(email);
    assert_eq!(boundary, Some(8));
}

#[test]
fn test_find_boundary_takes_first_occurrence() {
    let email = b"H: V\r\n\r\nbody\r\n\r\nmore body";
    assert_eq!(find_header_body_boundary(email), Some(8));
}

#[test]
fn test_find_boundary_absent() {
    assert_eq!(find_header_body_boundary(b"no boundary here"), None);
    assert_eq!(find_header_body_boundary(b"\r\n\r"), None);
    assert_eq!(find_header_body_boundary(b""), None);
}

#[test]
fn test_is_forbidden_header_cases() {
    assert!(is_forbidden_header("From"));
    assert!(is_forbidden_header("TO"));
    assert!(is_forbidden_header("Reply-To"));
    assert!(is_forbidden_header("dkim-signature"));
    assert!(is_forbidden_header("Return-Path"));
    assert!(is_forbidden_header("Sender"));
    assert!(is_forbidden_header("Message-Id"));
    assert!(is_forbidden_header("X-SES-Message-Id"));
    assert!(is_forbidden_header("X-SES-Outgoing"));
    assert!(!is_forbidden_header("Subject"));
    assert!(!is_forbidden_header("Content-Type"));
    assert!(!is_forbidden_header("Fromm"));
}

#[test]
fn test_modify_preserves_body_bytes() {
    let email = b"From: old@example.com\r\nSubject: Test\r\n\r\nline one\r\n\r\nline two";
    let modified = modify_email_headers(email, "f@x.com", "t@x.com", "r@x.com").unwrap();

    let original_body = &email[find_header_body_boundary(email).unwrap()..];
    let modified_body = &modified[find_header_body_boundary(&modified).unwrap()..];
    assert_eq!(original_body, modified_body);
}

#[test]
fn test_modify_twice_never_reintroduces_stripped_headers() {
    let email = b"From: old@example.com\r\nDKIM-Signature: v=1;\r\nMessage-Id: <1@x>\r\nSubject: T\r\n\r\nB";
    let once = modify_email_headers(email, "f@x.com", "t@x.com", "r@x.com").unwrap();
    let twice = modify_email_headers(&once, "f@x.com", "t@x.com", "r@x.com").unwrap();
    let s = String::from_utf8_lossy(&twice);

    assert!(!s.contains("DKIM-Signature"));
    assert!(!s.contains("Message-Id: <1@x>"));
    assert_eq!(s.matches("From:").count(), 1);
    assert_eq!(s.matches("To:").count(), 2); // "To:" also matches inside "Reply-To:"
    assert_eq!(s.matches("Reply-To:").count(), 1);
    assert!(s.ends_with("\r\n\r\nB"));
}

#[test]
fn test_modify_without_boundary_is_structure_error() {
    let email = b"From: old@example.com\nSubject: T\n\nLF-only message";
    assert!(matches!(
        modify_email_headers(email, "f@x.com", "t@x.com", "r@x.com"),
        Err(MimeError::InvalidStructure(_))
    ));
}
