//! Routing policy: administrative report addresses are never relayed to a
//! human inbox, everything else is forwarded to the configured
//! destination.

use vstd::prelude::*;
use crate::config::Config;
use crate::domain::DomainError;
use crate::domain::EmailAddress;
use crate::domain::MessageId;
use crate::domain::SesEvent;
use crate::domain::valid_email_chars;
use crate::pipeline::ForwardEmailRequest;
use crate::text::has_prefix;
use crate::text::str_has_prefix;

verus! {

/// An automated report destination: the address starts with `dmarc@` or
/// `reports@`.
pub open spec fn is_report_address(s: Seq<char>) -> bool {
    has_prefix(s, "dmarc@"@) || has_prefix(s, "reports@"@)
}

/// Whether a destination address receives automated reports and must not
/// be relayed.
pub fn is_report_email(destination: &str) -> (r: bool)
    ensures
        r == is_report_address(destination@),
{
    str_has_prefix(destination, "dmarc@") || str_has_prefix(destination, "reports@")
}

/// The outcome of routing one trigger event: skip the message or forward
/// it.
#[derive(Debug)]
pub enum RouteDecision {
    Skip(MessageId),
    Forward(ForwardEmailRequest),
}

#[derive(Debug)]
pub enum RouteError {
    NoRecords,
    NoDestination,
    Domain(DomainError),
}

/// Decide what to do with one trigger event: take the first record,
/// validate its message identifier, and skip administrative report
/// destinations; everything else becomes a forward request aimed at the
/// configured destination.
pub fn route_ses_event(event: &SesEvent, config: &Config) -> (r: Result<RouteDecision, RouteError>)
    ensures
        match r {
            Ok(d) => event.records@.len() > 0 && {
                let mail = event.records@[0].ses.mail;
                &&& mail.message_id@.len() > 0
                &&& mail.destination@.len() > 0
                &&& match d {
                    RouteDecision::Skip(m) => is_report_address(mail.destination@[0]@) && m@
                        == mail.message_id@,
                    RouteDecision::Forward(req) => {
                        &&& !is_report_address(mail.destination@[0]@)
                        &&& valid_email_chars(config.forward_to_email@)
                        &&& req.bucket@ == config.email_bucket@
                        &&& req.incoming_path@ == config.incoming_prefix@
                        &&& req.message_id@ == mail.message_id@
                        &&& req.forward_to@ == config.forward_to_email@
                    },
                }
            },
            Err(e) => match e {
                RouteError::NoRecords => event.records@.len() == 0,
                RouteError::NoDestination => event.records@.len() > 0 && {
                    let mail = event.records@[0].ses.mail;
                    mail.message_id@.len() > 0 && mail.destination@.len() == 0
                },
                RouteError::Domain(de) => event.records@.len() > 0 && {
                    let mail = event.records@[0].ses.mail;
                    match de {
                        DomainError::InvalidMessageId(s) => s@ == mail.message_id@ && s@.len()
                            == 0,
                        DomainError::InvalidEmail(s) => {
                            &&& mail.message_id@.len() > 0
                            &&& mail.destination@.len() > 0
                            &&& !is_report_address(mail.destination@[0]@)
                            &&& !valid_email_chars(config.forward_to_email@)
                            &&& s@ == config.forward_to_email@
                        },
                        _ => false,
                    }
                },
            },
        },
{
    if event.records.len() == 0 {
        return Err(RouteError::NoRecords);
    }
    let record = &event.records[0];
    let message_id = match MessageId::try_from(record.ses.mail.message_id.clone()) {
        Ok(m) => m,
        Err(e) => {
            return Err(RouteError::Domain(e));
        },
    };
    if record.ses.mail.destination.len() == 0 {
        return Err(RouteError::NoDestination);
    }
    let destination = &record.ses.mail.destination[0];
    if is_report_email(destination.as_str()) {
        return Ok(RouteDecision::Skip(message_id));
    }
    let forward_to = match EmailAddress::try_from(config.forward_to_email.clone()) {
        Ok(a) => a,
        Err(e) => {
            return Err(RouteError::Domain(e));
        },
    };
    Ok(
        RouteDecision::Forward(
            ForwardEmailRequest {
                bucket: config.email_bucket.clone(),
                incoming_path: config.incoming_prefix.clone(),
                message_id,
                forward_to,
            },
        ),
    )
}

} // verus!
