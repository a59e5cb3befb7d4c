//! The computational core of one forward attempt: size guard, storage-key
//! construction, outbound From display string, and the preparation of the
//! rewritten raw message handed to the outbound relay.

use vstd::prelude::*;
use crate::domain::DomainError;
use crate::domain::EmailAddress;
use crate::domain::MessageId;
use crate::domain::S3Key;
use crate::email::EmailError;
use crate::email::extract_reply_to_info;
use crate::email::resolved_identity;
use crate::mime::MimeError;
use crate::mime::boundary_of;
use crate::mime::modify_email_headers;
use crate::mime::rewritten_bytes;
use crate::parser::parsed_headers;

verus! {

#[derive(Debug, Clone)]
pub enum AwsError {
    S3Error(String),
    SesError(String),
    EmailError(EmailError),
    MimeError(MimeError),
    DomainError(DomainError),
}

/// One forward request, as decoded from a trigger record and the
/// configuration.
#[derive(Debug)]
pub struct ForwardEmailRequest {
    pub bucket: String,
    pub incoming_path: String,
    pub message_id: MessageId,
    pub forward_to: EmailAddress,
}

/// Enforce the size cap before any transmission is attempted: a message
/// of more than `max_size_mb` megabytes is rejected, one of exactly that
/// size passes.
pub fn validate_email_size(email_bytes: &[u8], max_size_mb: u32) -> (r: Result<(), AwsError>)
    ensures
        r is Ok <==> email_bytes@.len() <= max_size_mb as int * 1048576,
        r matches Err(e) ==> e is SesError,
{
    let size_bytes: u64 = email_bytes.len() as u64;
    let max_size_bytes: u64 = (max_size_mb as u64) * 1024 * 1024;
    if size_bytes > max_size_bytes {
        Err(AwsError::SesError(String::from_str("Email size exceeds the maximum allowed size")))
    } else {
        Ok(())
    }
}

/// The storage key of a stored message: prefix, slash, message
/// identifier.
pub fn build_storage_key(incoming_path: &str, message_id: &MessageId) -> (r: Result<
    S3Key,
    DomainError,
>)
    ensures
        r matches Ok(k) && k@ == incoming_path@ + "/"@ + message_id@,
{
    let mut s = String::from_str(incoming_path);
    s.append("/");
    s.append(message_id.as_str());
    proof {
        reveal_strlit("/");
        assert(s@.len() > 0);
    }
    match S3Key::try_from(s) {
        Ok(k) => Ok(k),
        Err(e) => Err(e),
    }
}

/// The outbound From display template: the sender's display name in
/// quotes, the relaying site in parentheses, and the forwarder mailbox in
/// angle brackets.
pub open spec fn from_display_chars(name: Seq<char>, domain: Seq<char>, fwd: Seq<char>) -> Seq<
    char,
> {
    "\""@ + name + "\" (via "@ + domain + ") <"@ + fwd + ">"@
}

pub fn build_from_display(sender_name: &str, site_domain: &str, forwarder_address: &str) -> (r:
    String)
    ensures
        r@ == from_display_chars(sender_name@, site_domain@, forwarder_address@),
{
    let mut r = String::from_str("\"");
    r.append(sender_name);
    r.append("\" (via ");
    r.append(site_domain);
    r.append(") <");
    r.append(forwarder_address);
    r.append(">");
    proof {
        assert(r@ =~= from_display_chars(sender_name@, site_domain@, forwarder_address@));
    }
    r
}

/// Prepare one forward: enforce the size cap, resolve the reply identity,
/// build the outbound From display string, and rewrite the envelope
/// headers, leaving the body bytes untouched. The result is the raw
/// message to hand to the outbound relay.
pub fn prepare_forward_email(
    email_bytes: &[u8],
    forward_to: &EmailAddress,
    max_size_mb: u32,
    site_domain: &str,
    forwarder_address: &str,
) -> (r: Result<Vec<u8>, AwsError>)
    ensures
        match r {
            Ok(out) => {
                &&& email_bytes@.len() <= max_size_mb as int * 1048576
                &&& parsed_headers(email_bytes@) matches Some(hs) && {
                    &&& resolved_identity(hs) matches Some(ident) && {
                        &&& boundary_of(email_bytes@) is Some
                        &&& out@ == rewritten_bytes(
                            hs,
                            from_display_chars(ident.1, site_domain@, forwarder_address@),
                            forward_to@,
                            ident.0,
                            email_bytes@,
                        )
                    }
                }
            },
            Err(e) => match e {
                AwsError::SesError(_) => email_bytes@.len() > max_size_mb as int * 1048576,
                AwsError::EmailError(ee) => match ee {
                    EmailError::ParseError(_) => parsed_headers(email_bytes@) is None,
                    EmailError::MissingHeader(_) => parsed_headers(email_bytes@) matches Some(hs)
                        && resolved_identity(hs) is None,
                    _ => false,
                },
                AwsError::MimeError(me) => me is InvalidStructure && parsed_headers(email_bytes@)
                    is Some && boundary_of(email_bytes@) is None,
                _ => false,
            },
        },
{
    match validate_email_size(email_bytes, max_size_mb) {
        Ok(_) => (),
        Err(e) => {
            return Err(e);
        },
    }
    let resolved = match extract_reply_to_info(email_bytes) {
        Ok(p) => p,
        Err(e) => {
            return Err(AwsError::EmailError(e));
        },
    };
    let from_display = build_from_display(resolved.1.as_str(), site_domain, forwarder_address);
    match modify_email_headers(
        email_bytes,
        from_display.as_str(),
        forward_to.as_str(),
        resolved.0.as_str(),
    ) {
        Ok(out) => Ok(out),
        Err(me) => Err(AwsError::MimeError(me)),
    }
}

} // verus!
