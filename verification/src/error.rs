//! Error type for email operations.
use vstd::prelude::*;
use crate::text::{copy_str, push_str};

verus! {

/// Error types for email operations. Errors raised by outside libraries are
/// carried as their message text.
#[derive(Debug)]
pub enum MailError {
    /// Invalid email message
    InvalidMessage(String),
    /// Failed to send email
    SendFailed(String),
    /// Template rendering error (render)
    TemplateRenderError(String),
    /// Template registration error
    TemplateError(String),
    /// SMTP transport error
    SmtpError(String),
    /// SMTP transport error (specific)
    SmtpTransportError(String),
    /// Email address parse error
    AddressError(String),
    /// IO error
    IoError(String),
    /// Serialization error
    SerializationError(String),
    /// Configuration error
    ConfigError(String),
}

/// Result type for email operations.
pub type MailResult<T> = Result<T, MailError>;

/// The human-readable description of an error: a prefix naming its kind,
/// `": "`, and the carried message.
pub open spec fn error_text(e: MailError) -> Seq<char> {
    match e {
        MailError::InvalidMessage(m) => "Invalid message: "@ + m@,
        MailError::SendFailed(m) => "Send failed: "@ + m@,
        MailError::TemplateRenderError(m) => "Template error: "@ + m@,
        MailError::TemplateError(m) => "Template registration error: "@ + m@,
        MailError::SmtpError(m) => "SMTP error: "@ + m@,
        MailError::SmtpTransportError(m) => "SMTP transport error: "@ + m@,
        MailError::AddressError(m) => "Address parse error: "@ + m@,
        MailError::IoError(m) => "IO error: "@ + m@,
        MailError::SerializationError(m) => "Serialization error: "@ + m@,
        MailError::ConfigError(m) => "Configuration error: "@ + m@,
    }
}

impl MailError {
    /// The human-readable description of this error.
    pub fn to_string(&self) -> (s: String)
        ensures
            s@ == error_text(*self),
    {
        let (prefix, m) = match self {
            MailError::InvalidMessage(m) => ("Invalid message: ", m),
            MailError::SendFailed(m) => ("Send failed: ", m),
            MailError::TemplateRenderError(m) => ("Template error: ", m),
            MailError::TemplateError(m) => ("Template registration error: ", m),
            MailError::SmtpError(m) => ("SMTP error: ", m),
            MailError::SmtpTransportError(m) => ("SMTP transport error: ", m),
            MailError::AddressError(m) => ("Address parse error: ", m),
            MailError::IoError(m) => ("IO error: ", m),
            MailError::SerializationError(m) => ("Serialization error: ", m),
            MailError::ConfigError(m) => ("Configuration error: ", m),
        };
        let mut s = copy_str(prefix);
        push_str(&mut s, m.as_str());
        s
    }
}

} // verus!
