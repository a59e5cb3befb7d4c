//! Process configuration: bucket, storage-key prefix, forward destination
//! and the size limit in megabytes. The size limit must lie between 1 and
//! 10; an invalid value is a configuration error, not a per-message one.

use vstd::prelude::*;

verus! {

#[derive(Debug, Clone)]
pub struct Config {
    pub email_bucket: String,
    pub incoming_prefix: String,
    pub forward_to_email: String,
    pub max_email_size_mb: u32,
}

#[derive(Debug, Clone)]
pub enum ConfigError {
    MissingEnvVar(String),
    InvalidValue(String),
}

impl Config {
    /// A configuration with the default size limit of 10 megabytes.
    pub fn new(email_bucket: String, incoming_prefix: String, forward_to_email: String) -> (r:
        Config)
        ensures
            r.email_bucket@ == email_bucket@,
            r.incoming_prefix@ == incoming_prefix@,
            r.forward_to_email@ == forward_to_email@,
            r.max_email_size_mb == 10,
    {
        Config { email_bucket, incoming_prefix, forward_to_email, max_email_size_mb: 10 }
    }

    /// A configuration with an externally supplied size limit: absent
    /// values default to 10, and the effective value must lie in
    /// `[1, 10]`.
    pub fn with_size_limit(
        email_bucket: String,
        incoming_prefix: String,
        forward_to_email: String,
        max_email_size_mb: Option<u32>,
    ) -> (r: Result<Config, ConfigError>)
        ensures
            ({
                let effective = match max_email_size_mb {
                    Some(v) => v,
                    None => 10u32,
                };
                &&& r is Ok <==> 1 <= effective <= 10
                &&& r matches Ok(c) ==> {
                    &&& c.email_bucket@ == email_bucket@
                    &&& c.incoming_prefix@ == incoming_prefix@
                    &&& c.forward_to_email@ == forward_to_email@
                    &&& c.max_email_size_mb == effective
                }
                &&& r matches Err(e) ==> e is InvalidValue
            }),
    {
        let effective: u32 = match max_email_size_mb {
            Some(v) => v,
            None => 10,
        };
        if 1 <= effective && effective <= 10 {
            Ok(
                Config {
                    email_bucket,
                    incoming_prefix,
                    forward_to_email,
                    max_email_size_mb: effective,
                },
            )
        } else {
            Err(
                ConfigError::InvalidValue(
                    String::from_str("MAX_EMAIL_SIZE_MB must be between 1 and 10"),
                ),
            )
        }
    }
}

} // verus!
