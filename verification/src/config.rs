//! Mail configuration and transport settings.
use vstd::prelude::*;
use core::time::Duration;
use crate::address::{Address, opt_view};
use crate::error::MailError;
use crate::text::{copy_str, push_str};

verus! {

/// The duration `core::time::Duration::from_secs(secs)` makes: `secs`
/// whole seconds.
pub uninterp spec fn duration_of_secs(secs: u64) -> Duration;

/// `core::time::Duration::from_secs(secs)`, which is determined by `secs`
/// alone; `Duration` is opaque here, so its value is known by that name.
#[verifier::external_body]
pub(crate) fn duration_from_secs(secs: u64) -> (d: Duration)
    ensures
        d == duration_of_secs(secs),
{
    Duration::from_secs(secs)
}

/// Mail driver/transport type.
#[derive(Debug, Clone, Copy, PartialEq, Eq, Structural)]
pub enum MailDriver {
    /// SMTP transport
    Smtp,
    /// Sendmail transport
    Sendmail,
    /// Log to file (no actual sending)
    Log,
    /// In-memory storage (for testing)
    Memory,
}

/// Encryption type for SMTP.
#[derive(Debug, Clone, Copy, PartialEq, Eq, Structural)]
pub enum Encryption {
    /// No encryption
    Unencrypted,
    /// SSL/TLS encryption
    Tls,
    /// STARTTLS encryption
    StartTls,
}

/// Application-level SMTP connection configuration.
#[derive(Debug)]
pub struct SmtpEnvConfig {
    /// SMTP server host
    pub host: String,
    /// SMTP server port
    pub port: u16,
    /// Username for authentication
    pub username: Option<String>,
    /// Password for authentication
    pub password: Option<String>,
    /// Encryption type
    pub encryption: Encryption,
    /// Connection timeout
    pub timeout: Duration,
    /// Enable STARTTLS
    pub starttls: bool,
}

/// Deprecated alias for [`SmtpEnvConfig`].
pub type SmtpMailConfig = SmtpEnvConfig;

impl SmtpEnvConfig {
    /// Create a new SMTP configuration: no credentials, no encryption, a 30
    /// second timeout, STARTTLS off.
    pub fn new(host: &str, port: u16) -> (c: Self)
        ensures
            c.host@ == host@,
            c.port == port,
            c.username is None,
            c.password is None,
            c.encryption == Encryption::Unencrypted,
            c.timeout == duration_of_secs(30),
            !c.starttls,
    {
        SmtpEnvConfig {
            host: copy_str(host),
            port,
            username: None,
            password: None,
            encryption: Encryption::Unencrypted,
            timeout: duration_from_secs(30),
            starttls: false,
        }
    }

    /// Set authentication credentials.
    pub fn with_credentials(self, username: &str, password: &str) -> (c: Self)
        ensures
            opt_view(c.username) == Some(username@),
            opt_view(c.password) == Some(password@),
            c == (SmtpEnvConfig { username: c.username, password: c.password, ..self }),
    {
        let mut s = self;
        s.username = Some(copy_str(username));
        s.password = Some(copy_str(password));
        s
    }

    /// Set encryption type.
    pub fn with_encryption(self, encryption: Encryption) -> (c: Self)
        ensures
            c == (SmtpEnvConfig { encryption, ..self }),
    {
        let mut s = self;
        s.encryption = encryption;
        s
    }

    /// Set timeout.
    pub fn with_timeout(self, timeout: Duration) -> (c: Self)
        ensures
            c == (SmtpEnvConfig { timeout, ..self }),
    {
        let mut s = self;
        s.timeout = timeout;
        s
    }

    /// Enable STARTTLS.
    pub fn with_starttls(self) -> (c: Self)
        ensures
            c == (SmtpEnvConfig { starttls: true, ..self }),
    {
        let mut s = self;
        s.starttls = true;
        s
    }

    /// Common Gmail configuration: `smtp.gmail.com:587`, STARTTLS.
    pub fn gmail(username: &str, password: &str) -> (c: Self)
        ensures
            c.host@ == "smtp.gmail.com"@,
            c.port == 587,
            opt_view(c.username) == Some(username@),
            opt_view(c.password) == Some(password@),
            c.encryption == Encryption::StartTls,
            c.timeout == duration_of_secs(30),
            !c.starttls,
    {
        Self::new("smtp.gmail.com", 587).with_credentials(username, password).with_encryption(
            Encryption::StartTls,
        )
    }

    /// Common Mailgun configuration: `smtp.mailgun.org:587`, STARTTLS.
    pub fn mailgun(username: &str, password: &str) -> (c: Self)
        ensures
            c.host@ == "smtp.mailgun.org"@,
            c.port == 587,
            opt_view(c.username) == Some(username@),
            opt_view(c.password) == Some(password@),
            c.encryption == Encryption::StartTls,
            c.timeout == duration_of_secs(30),
            !c.starttls,
    {
        Self::new("smtp.mailgun.org", 587).with_credentials(username, password).with_encryption(
            Encryption::StartTls,
        )
    }

    /// Common SendGrid configuration: `smtp.sendgrid.net:587`, user `apikey`,
    /// STARTTLS.
    pub fn sendgrid(api_key: &str) -> (c: Self)
        ensures
            c.host@ == "smtp.sendgrid.net"@,
            c.port == 587,
            opt_view(c.username) == Some("apikey"@),
            opt_view(c.password) == Some(api_key@),
            c.encryption == Encryption::StartTls,
            c.timeout == duration_of_secs(30),
            !c.starttls,
    {
        Self::new("smtp.sendgrid.net", 587).with_credentials("apikey", api_key).with_encryption(
            Encryption::StartTls,
        )
    }

    /// Common AWS SES configuration: `email-smtp.<region>.amazonaws.com:587`,
    /// STARTTLS.
    pub fn ses(username: &str, password: &str, region: &str) -> (c: Self)
        ensures
            c.host@ == "email-smtp."@ + region@ + ".amazonaws.com"@,
            c.port == 587,
            opt_view(c.username) == Some(username@),
            opt_view(c.password) == Some(password@),
            c.encryption == Encryption::StartTls,
            c.timeout == duration_of_secs(30),
            !c.starttls,
    {
        let mut host = copy_str("email-smtp.");
        push_str(&mut host, region);
        push_str(&mut host, ".amazonaws.com");
        Self::new(host.as_str(), 587).with_credentials(username, password).with_encryption(
            Encryption::StartTls,
        )
    }
}

/// Sendmail configuration.
#[derive(Debug)]
pub struct SendmailConfig {
    /// Path to sendmail binary
    pub path: String,
    /// Additional command-line arguments
    pub args: Vec<String>,
}

impl SendmailConfig {
    /// Create new sendmail configuration: `/usr/sbin/sendmail`, no arguments.
    pub fn new() -> (c: Self)
        ensures
            c.path@ == "/usr/sbin/sendmail"@,
            c.args@.len() == 0,
    {
        SendmailConfig { path: copy_str("/usr/sbin/sendmail"), args: Vec::new() }
    }

    /// Set custom sendmail path.
    pub fn with_path(self, path: &str) -> (c: Self)
        ensures
            c.path@ == path@,
            c.args == self.args,
    {
        let mut s = self;
        s.path = copy_str(path);
        s
    }

    /// Add command-line argument.
    pub fn with_arg(self, arg: &str) -> (c: Self)
        ensures
            c.path == self.path,
            c.args@.len() == self.args@.len() + 1,
            c.args@.take(self.args@.len() as int) == self.args@,
            c.args@.last()@ == arg@,
    {
        let mut s = self;
        let ghost before = s.args@;
        s.args.push(copy_str(arg));
        proof {
            assert(s.args@.take(before.len() as int) =~= before);
        }
        s
    }
}

impl Default for SendmailConfig {
    fn default() -> (c: Self)
        ensures
            c.path@ == "/usr/sbin/sendmail"@,
            c.args@.len() == 0,
    {
        Self::new()
    }
}

/// Main mail configuration.
#[derive(Debug)]
pub struct MailConfig {
    /// Mail transport driver
    pub driver: MailDriver,
    /// Default from address
    pub from: Address,
    /// SMTP connection configuration (if using SMTP driver)
    pub smtp: Option<SmtpEnvConfig>,
    /// Sendmail configuration (if using Sendmail driver)
    pub sendmail: Option<SendmailConfig>,
    /// Log file path (if using Log driver)
    pub log_path: Option<String>,
}

/// The reason a configuration is incomplete for its driver, if it is.
pub open spec fn config_problem(c: MailConfig) -> Option<Seq<char>> {
    match c.driver {
        MailDriver::Smtp => if c.smtp is None {
            Some("SMTP config is required for SMTP driver"@)
        } else {
            None
        },
        MailDriver::Sendmail => if c.sendmail is None {
            Some("Sendmail config is required for Sendmail driver"@)
        } else {
            None
        },
        MailDriver::Log => if c.log_path is None {
            Some("Log path is required for Log driver"@)
        } else {
            None
        },
        MailDriver::Memory => None,
    }
}

impl MailConfig {
    /// Create a new configuration with no driver settings.
    pub fn new(driver: MailDriver, from: Address) -> (c: Self)
        ensures
            c == (MailConfig { driver, from, smtp: None, sendmail: None, log_path: None }),
    {
        MailConfig { driver, from, smtp: None, sendmail: None, log_path: None }
    }

    /// Create SMTP configuration.
    pub fn smtp(from: Address, smtp: SmtpEnvConfig) -> (c: Self)
        ensures
            c == (MailConfig {
                driver: MailDriver::Smtp,
                from,
                smtp: Some(smtp),
                sendmail: None,
                log_path: None,
            }),
    {
        MailConfig { driver: MailDriver::Smtp, from, smtp: Some(smtp), sendmail: None, log_path: None }
    }

    /// Create Sendmail configuration.
    pub fn sendmail(from: Address, sendmail: SendmailConfig) -> (c: Self)
        ensures
            c == (MailConfig {
                driver: MailDriver::Sendmail,
                from,
                smtp: None,
                sendmail: Some(sendmail),
                log_path: None,
            }),
    {
        MailConfig {
            driver: MailDriver::Sendmail,
            from,
            smtp: None,
            sendmail: Some(sendmail),
            log_path: None,
        }
    }

    /// Create Log configuration.
    pub fn log(from: Address, log_path: String) -> (c: Self)
        ensures
            c == (MailConfig {
                driver: MailDriver::Log,
                from,
                smtp: None,
                sendmail: None,
                log_path: Some(log_path),
            }),
    {
        MailConfig { driver: MailDriver::Log, from, smtp: None, sendmail: None, log_path: Some(log_path) }
    }

    /// Create Memory configuration (for testing).
    pub fn memory(from: Address) -> (c: Self)
        ensures
            c == (MailConfig {
                driver: MailDriver::Memory,
                from,
                smtp: None,
                sendmail: None,
                log_path: None,
            }),
    {
        MailConfig { driver: MailDriver::Memory, from, smtp: None, sendmail: None, log_path: None }
    }

    /// Validate configuration: the driver's own settings must be present.
    pub fn validate(&self) -> (r: Result<(), MailError>)
        ensures
            match r {
                Ok(()) => config_problem(*self) is None,
                Err(e) => e matches MailError::ConfigError(m) && config_problem(*self) == Some(m@),
            },
    {
        match self.driver {
            MailDriver::Smtp => if self.smtp.is_none() {
                return Err(MailError::ConfigError(copy_str("SMTP config is required for SMTP driver")));
            },
            MailDriver::Sendmail => if self.sendmail.is_none() {
                return Err(
                    MailError::ConfigError(copy_str("Sendmail config is required for Sendmail driver")),
                );
            },
            MailDriver::Log => if self.log_path.is_none() {
                return Err(MailError::ConfigError(copy_str("Log path is required for Log driver")));
            },
            MailDriver::Memory => {},
        }
        Ok(())
    }
}

} // verus!
