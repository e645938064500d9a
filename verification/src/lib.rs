//! Email composition, validation and formatting for the RustForge mail layer:
//! addresses, messages and mails, their builders, markdown bodies with
//! components, the payloads of each delivery backend, driver configuration,
//! and the model metadata and naming conventions of the code generators.
use vstd::prelude::*;

pub mod address;
pub mod attachment;
pub mod await_transformer;
pub mod backends;
pub mod blade;
pub mod cache_macro;
pub mod builder;
pub mod config;
pub mod error;
pub mod facade;
pub mod field_types;
pub mod jobs;
pub mod laravel_model;
pub mod mail;
pub mod mail_builder;
pub mod mailable;
pub mod mailables;
pub mod manager;
pub mod markdown;
pub mod message;
pub mod naming;
pub mod outside;
pub mod request_rules;
pub mod rf_model;
pub mod routing;
pub mod simple_model;
pub mod text;
pub mod validate_dsl;
pub mod validation_rules;

pub use address::Address;
pub use attachment::Attachment;
pub use backends::file::FileMailer;
pub use backends::log::LogMailer;
pub use backends::mailgun::{MailgunConfig, MailgunMailer, MailgunRegion};
pub use backends::memory::MemoryMailer;
pub use backends::mock::MockMailer;
pub use backends::postmark::{PostmarkConfig, PostmarkMailer};
pub use backends::sendgrid::{SendGridConfig, SendGridMailer};
pub use backends::sendmail::SendmailMailer;
pub use backends::ses::{SesConfig, SesMailer};
pub use backends::smtp::SmtpConfig;
pub use builder::MessageBuilder;
pub use config::{Encryption, MailConfig, MailDriver, SendmailConfig, SmtpEnvConfig, SmtpMailConfig};
pub use error::{MailError, MailResult};
pub use facade::{Mail as MailFacade, Mailer as FacadeMailer};
pub use mail::{Mail, MailBody};
pub use mail_builder::MailBuilder;
pub use mailable::Mailable;
pub use mailables::order_shipped::OrderShippedMail;
pub use mailables::password_reset::PasswordResetEmail;
pub use mailables::welcome::WelcomeEmail;
pub use message::{Headers, Message};

verus! {
} // verus!
