//! Email backend implementations: their state, and the payloads they send.
pub mod api;
pub mod file;
pub mod json;
pub mod log;
pub mod mailgun;
pub mod memory;
pub mod mock;
pub mod plan;
pub mod postmark;
pub mod sendgrid;
pub mod sendmail;
pub mod ses;
pub mod smtp;
