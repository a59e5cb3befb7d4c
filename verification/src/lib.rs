//! A verified core for an inbound-email relay.
//!
//! The library validates domain values (addresses, message identifiers,
//! storage keys), locates the header/body boundary of a raw MIME message,
//! resolves the sender identity from `Reply-To`/`From` headers, rewrites
//! envelope headers while preserving the body bytes, and decides whether a
//! destination address should be forwarded or skipped.

pub mod config;
pub mod domain;
pub mod email;
pub mod mime;
pub mod parser;
pub mod pipeline;
pub mod routing;
pub mod text;

pub use config::Config;
pub use config::ConfigError;
pub use domain::DomainError;
pub use domain::EmailAddress;
pub use domain::EmailBody;
pub use domain::MessageId;
pub use domain::S3Key;
pub use domain::SesEvent;
pub use domain::SesMail;
pub use domain::SesMessage;
pub use domain::SesRecord;
pub use domain::Subject;
pub use email::EmailError;
pub use email::ParsedEmail;
pub use email::extract_email_address;
pub use email::extract_reply_to_info;
pub use email::extract_sender_name;
pub use email::parse_email;
pub use mime::MimeError;
pub use mime::find_header_body_boundary;
pub use mime::is_forbidden_header;
pub use mime::modify_email_headers;
pub use pipeline::AwsError;
pub use pipeline::ForwardEmailRequest;
pub use pipeline::build_from_display;
pub use pipeline::build_storage_key;
pub use pipeline::prepare_forward_email;
pub use pipeline::validate_email_size;
pub use routing::RouteDecision;
pub use routing::RouteError;
pub use routing::is_report_email;
pub use routing::route_ses_event;
