use email_processor::Config;
use email_processor::DomainError;
use email_processor::RouteDecision;
use email_processor::RouteError;
use email_processor::SesEvent;
use email_processor::SesMail;
use email_processor::SesMessage;
use email_processor::SesRecord;
use email_processor::is_report_email;
use email_processor::route_ses_event;

fn event_for(message_id: &str, destination: Vec<String>) -> SesEvent {
    SesEvent {
        records: vec![SesRecord {
            ses: SesMessage {
                mail: SesMail {
                    message_id: message_id.to_string(),
                    source: "someone@elsewhere.example".to_string(),
                    destination,
                },
            },
        }],
    }
}

fn test_config() -> Config {
    Config::new(
        "test-bucket".to_string(),
        "incoming".to_string(),
        "forward@example.com".to_string(),
    )
}

#[test]
fn test_is_report_email_dmarc() {
    assert!(is_report_email("dmarc@jimmillerdrums.com"));
}

#[test]
fn test_is_report_email_reports() {
    assert!(is_report_email("reports@jimmillerdrums.com"));
}

#[test]
fn test_is_not_report_email() {
    assert!(!is_report_email("info@jimmillerdrums.com"));
    assert!(!is_report_email("contact@jimmillerdrums.com"));
    assert!(!is_report_email("hello@jimmillerdrums.com"));
}

#[test]
fn test_route_skips_report_destination() {
    let event = event_for("msg-1", vec!["dmarc@x.com".to_string()]);
    let decision = route_ses_event(&event, &test_config()).unwrap();
    assert!(matches!(decision, RouteDecision::Skip(m) if m.as_str() == "msg-1"));
}

#[test]
fn test_route_forwards_ordinary_destination() {
    let event = event_for("msg-2", vec!["hello@x.com".to_string()]);
    let decision = route_ses_event(&event, &test_config()).unwrap();
    match decision {
        RouteDecision::Forward(req) => {
            assert_eq!(req.bucket, "test-bucket");
            assert_eq!(req.incoming_path, "incoming");
            assert_eq!(req.message_id.as_str(), "msg-2");
            assert_eq!(req.forward_to.as_str(), "forward@example.com");
        }
        RouteDecision::Skip(_) => panic!("expected a forward decision"),
    }
}

#[test]
fn test_route_no_records() {
    let event = SesEvent { records: vec![] };
    assert!(matches!(
        route_ses_event(&event, &test_config()),
        Err(RouteError::NoRecords)
    ));
}

#[test]
fn test_route_no_destination() {
    let event = event_for("msg-3", vec![]);
    assert!(matches!(
        route_ses_event(&event, &test_config()),
        Err(RouteError::NoDestination)
    ));
}

#[test]
fn test_route_empty_message_id() {
    let event = event_for("", vec!["hello@x.com".to_string()]);
    assert!(matches!(
        route_ses_event(&event, &test_config()),
        Err(RouteError::Domain(DomainError::InvalidMessageId(_)))
    ));
}

#[test]
fn test_route_invalid_forward_address() {
    let event = event_for("msg-4", vec!["hello@x.com".to_string()]);
    let config = Config::new(
        "test-bucket".to_string(),
        "incoming".to_string(),
        "not-an-email".to_string(),
    );
    assert!(matches!(
        route_ses_event(&event, &config),
        Err(RouteError::Domain(DomainError::InvalidEmail(v))) if v == "not-an-email"
    ));
}
