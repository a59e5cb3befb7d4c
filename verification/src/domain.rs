//! Validated domain value types: mailbox addresses, message identifiers,
//! storage keys, and free-text subject/body wrappers, together with the
//! notification-event records the relay consumes.

use vstd::prelude::*;
use crate::text::contains_char;
use crate::text::str_contains_char;
use vstd::utf8::encode_utf8;
use vstd::string::StringSliceAdditionalSpecFns;

verus! {

#[derive(Debug, Clone)]
pub enum DomainError {
    InvalidEmail(String),
    InvalidMessageId(String),
    InvalidS3Key(String),
    InvalidSubject(String),
    InvalidEmailBody(String),
}

/// Shape check on a mailbox address: an `@` somewhere and more than three
/// bytes in all. This is deliberately weak — a shape check, not an RFC
/// validator.
pub open spec fn valid_email_chars(s: Seq<char>) -> bool {
    contains_char(s, '@') && encode_utf8(s).len() > 3
}

/// A mailbox address that passed the shape check.
#[derive(Debug, Clone)]
pub struct EmailAddress(String);

impl View for EmailAddress {
    type V = Seq<char>;

    closed spec fn view(&self) -> Seq<char> {
        self.0@
    }
}

impl EmailAddress {
    /// Every constructed address satisfies the shape check.
    pub open spec fn wf(&self) -> bool {
        valid_email_chars(self@)
    }

    pub fn try_from(value: String) -> (r: Result<EmailAddress, DomainError>)
        ensures
            r is Ok <==> valid_email_chars(value@),
            r matches Ok(a) ==> a@ == value@ && a.wf(),
            r matches Err(e) ==> e matches DomainError::InvalidEmail(s) && s@ == value@,
    {
        let s = value.as_str();
        let bytes: &[u8] = s.as_bytes();
        proof {
            broadcast use vstd::slice::axiom_spec_len;

            assert(bytes@ == encode_utf8(value@));
        }
        if str_contains_char(s, '@') && bytes.len() > 3 {
            Ok(EmailAddress(value))
        } else {
            Err(DomainError::InvalidEmail(value))
        }
    }

    pub fn as_str(&self) -> (r: &str)
        ensures
            r@ == self@,
    {
        self.0.as_str()
    }
}

/// Identifier of a stored message; never empty.
#[derive(Debug, Clone)]
pub struct MessageId(String);

impl View for MessageId {
    type V = Seq<char>;

    closed spec fn view(&self) -> Seq<char> {
        self.0@
    }
}

impl MessageId {
    pub open spec fn wf(&self) -> bool {
        self@.len() > 0
    }

    pub fn try_from(value: String) -> (r: Result<MessageId, DomainError>)
        ensures
            r is Ok <==> value@.len() > 0,
            r matches Ok(m) ==> m@ == value@ && m.wf(),
            r matches Err(e) ==> e matches DomainError::InvalidMessageId(s) && s@ == value@,
    {
        if value.as_str().unicode_len() > 0 {
            Ok(MessageId(value))
        } else {
            Err(DomainError::InvalidMessageId(value))
        }
    }

    pub fn as_str(&self) -> (r: &str)
        ensures
            r@ == self@,
    {
        self.0.as_str()
    }
}

/// Locator for retrieving raw message bytes from the content store; never
/// empty.
#[derive(Debug, Clone)]
pub struct S3Key(String);

impl View for S3Key {
    type V = Seq<char>;

    closed spec fn view(&self) -> Seq<char> {
        self.0@
    }
}

impl S3Key {
    pub open spec fn wf(&self) -> bool {
        self@.len() > 0
    }

    pub fn try_from(value: String) -> (r: Result<S3Key, DomainError>)
        ensures
            r is Ok <==> value@.len() > 0,
            r matches Ok(k) ==> k@ == value@ && k.wf(),
            r matches Err(e) ==> e matches DomainError::InvalidS3Key(s) && s@ == value@,
    {
        if value.as_str().unicode_len() > 0 {
            Ok(S3Key(value))
        } else {
            Err(DomainError::InvalidS3Key(value))
        }
    }

    pub fn as_str(&self) -> (r: &str)
        ensures
            r@ == self@,
    {
        self.0.as_str()
    }
}

/// Free-text subject line; always constructible.
#[derive(Debug, Clone)]
pub struct Subject(String);

impl View for Subject {
    type V = Seq<char>;

    closed spec fn view(&self) -> Seq<char> {
        self.0@
    }
}

impl Subject {
    pub fn try_from(value: String) -> (r: Result<Subject, DomainError>)
        ensures
            r matches Ok(s) && s@ == value@,
    {
        Ok(Subject(value))
    }

    pub fn as_str(&self) -> (r: &str)
        ensures
            r@ == self@,
    {
        self.0.as_str()
    }
}

/// Free-text message body; always constructible.
#[derive(Debug, Clone)]
pub struct EmailBody(String);

impl View for EmailBody {
    type V = Seq<char>;

    closed spec fn view(&self) -> Seq<char> {
        self.0@
    }
}

impl EmailBody {
    pub fn try_from(value: String) -> (r: Result<EmailBody, DomainError>)
        ensures
            r matches Ok(b) && b@ == value@,
    {
        Ok(EmailBody(value))
    }

    pub fn as_str(&self) -> (r: &str)
        ensures
            r@ == self@,
    {
        self.0.as_str()
    }
}

/// A notification event: the records delivered with one trigger payload.
#[derive(Debug)]
pub struct SesEvent {
    pub records: Vec<SesRecord>,
}

#[derive(Debug)]
pub struct SesRecord {
    pub ses: SesMessage,
}

#[derive(Debug)]
pub struct SesMessage {
    pub mail: SesMail,
}

#[derive(Debug)]
pub struct SesMail {
    pub message_id: String,
    pub source: String,
    pub destination: Vec<String>,
}

} // verus!
