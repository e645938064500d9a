//! Choosing a mail driver from the process environment. The application
//! reads the variables and builds the chosen mailer; this module decides.
use vstd::prelude::*;
use crate::address::opt_view;
use crate::backends::mailgun::{MailgunConfig, MailgunRegion};
use crate::backends::postmark::PostmarkConfig;
use crate::backends::sendgrid::SendGridConfig;
use crate::backends::ses::SesConfig;
use crate::backends::smtp::SmtpConfig;
use crate::error::MailError;
use crate::outside::{str_lower, str_to_lowercase};
use crate::text::{chars_of, copy_str, decimal, digit_char, push_str, str_eq};

verus! {

/// The environment variables that driver selection reads; `None` for an
/// unset variable.
#[derive(Debug)]
pub struct MailEnv {
    /// `MAIL_DRIVER`
    pub driver: Option<String>,
    /// `SMTP_HOST`
    pub smtp_host: Option<String>,
    /// `SMTP_PORT`
    pub smtp_port: Option<String>,
    /// `SMTP_USERNAME`
    pub smtp_username: Option<String>,
    /// `SMTP_PASSWORD`
    pub smtp_password: Option<String>,
    /// `SMTP_FROM_ADDRESS`
    pub smtp_from_address: Option<String>,
    /// `MAIL_FROM_NAME`
    pub mail_from_name: Option<String>,
    /// `SENDMAIL_PATH`
    pub sendmail_path: Option<String>,
    /// `MAIL_LOG_PATH`
    pub mail_log_path: Option<String>,
    /// `MAILGUN_API_KEY`
    pub mailgun_api_key: Option<String>,
    /// `MAILGUN_DOMAIN`
    pub mailgun_domain: Option<String>,
    /// `MAILGUN_REGION`
    pub mailgun_region: Option<String>,
    /// `AWS_REGION`
    pub aws_region: Option<String>,
    /// `AWS_ACCESS_KEY_ID`
    pub aws_access_key_id: Option<String>,
    /// `AWS_SECRET_ACCESS_KEY`
    pub aws_secret_access_key: Option<String>,
    /// `SENDGRID_API_KEY`
    pub sendgrid_api_key: Option<String>,
    /// `POSTMARK_API_TOKEN`
    pub postmark_api_token: Option<String>,
}

/// The driver chosen from the environment, with its configuration.
#[derive(Debug)]
pub enum DriverChoice {
    /// SMTP transport
    Smtp(SmtpConfig),
    /// Sendmail, with a custom command when one is set
    Sendmail(Option<String>),
    /// Log file at the given path
    Log(String),
    /// Mailgun API
    Mailgun(MailgunConfig),
    /// AWS SES API
    Ses(SesConfig),
    /// SendGrid API
    SendGrid(SendGridConfig),
    /// Postmark API
    Postmark(PostmarkConfig),
    /// In-memory mailer
    Memory,
}

/// A variable's value, or `default` when it is unset.
pub open spec fn or_default(v: Option<String>, default: Seq<char>) -> Seq<char> {
    match v {
        Some(s) => s@,
        None => default,
    }
}

/// Whether `c` is an ASCII digit.
pub open spec fn is_digit(c: char) -> bool {
    '0' <= c && c <= '9'
}

/// The number written by the decimal digits `d`.
pub open spec fn digits_value(d: Seq<char>) -> nat
    decreases d.len(),
{
    if d.len() == 0 {
        0
    } else {
        digits_value(d.drop_last()) * 10 + ((d.last() as nat) - 48) as nat
    }
}

/// `s` without one leading `+`.
pub open spec fn unsigned_part(s: Seq<char>) -> Seq<char> {
    if s.len() > 0 && s[0] == '+' {
        s.drop_first()
    } else {
        s
    }
}

/// Whether every character of `d` is an ASCII digit.
pub open spec fn all_digits(d: Seq<char>) -> bool {
    forall|i: int| 0 <= i < d.len() ==> is_digit(#[trigger] d[i])
}

/// `s` read as a `u16` the way `str::parse::<u16>` does: an optional `+`,
/// then one or more ASCII digits, and a value that fits; `None` otherwise.
pub open spec fn parse_u16(s: Seq<char>) -> Option<u16> {
    let d = unsigned_part(s);
    if d.len() > 0 && all_digits(d) && digits_value(d) <= u16::MAX {
        Some(digits_value(d) as u16)
    } else {
        None
    }
}

/// Reads a decimal `u16` as [`parse_u16`] describes.
pub fn parse_port(s: &str) -> (r: Option<u16>)
    ensures
        r == parse_u16(s@),
{
    let v = chars_of(s);
    let start: usize = if v.len() > 0 && v[0] == '+' { 1 } else { 0 };
    let ghost d = unsigned_part(s@);
    proof {
        assert(d =~= v@.subrange(start as int, v@.len() as int));
    }
    if start >= v.len() {
        return None;
    }
    let mut value: u32 = 0;
    let mut i = start;
    while i < v.len()
        invariant
            start <= i <= v.len(),
            start < v.len(),
            v@ == s@,
            d == unsigned_part(s@),
            d == v@.subrange(start as int, v@.len() as int),
            forall|j: int| start <= j < i ==> is_digit(#[trigger] v@[j]),
            value == digits_value(v@.subrange(start as int, i as int)),
            value <= u16::MAX,
        decreases v.len() - i,
    {
        let c = v[i];
        if !('0' <= c && c <= '9') {
            proof {
                assert(d[i - start] == c);
                assert(!is_digit(d[i - start]));
                assert(!all_digits(d));
            }
            return None;
        }
        let digit = (c as u32) - 48;
        proof {
            assert(v@.subrange(start as int, i + 1).drop_last() =~= v@.subrange(start as int, i as int));
        }
        if value > 6553 || value * 10 + digit > 65535 {
            proof {
                assert(digits_value(v@.subrange(start as int, i + 1)) > u16::MAX);
                assert(v@.subrange(start as int, i + 1) =~= d.take(i + 1 - start));
                if all_digits(d) {
                    lemma_digits_value_prefix(d, i + 1 - start);
                }
            }
            return None;
        }
        value = value * 10 + digit;
        i = i + 1;
    }
    proof {
        assert(v@.subrange(start as int, i as int) =~= d);
        assert forall|j: int| 0 <= j < d.len() implies is_digit(#[trigger] d[j]) by {
            assert(d[j] == v@[start + j]);
        }
    }
    Some(value as u16)
}

/// A prefix of digits never writes a larger number than the whole.
pub proof fn lemma_digits_value_prefix(d: Seq<char>, n: int)
    requires
        0 <= n <= d.len(),
        forall|i: int| 0 <= i < d.len() ==> is_digit(#[trigger] d[i]),
    ensures
        digits_value(d.take(n)) <= digits_value(d),
    decreases d.len(),
{
    if n < d.len() {
        let e = d.drop_last();
        assert forall|i: int| 0 <= i < e.len() implies is_digit(#[trigger] e[i]) by {
            assert(e[i] == d[i]);
        }
        lemma_digits_value_prefix(e, n);
        assert(e.take(n) =~= d.take(n));
        assert(is_digit(d.last()));
    } else {
        assert(d.take(n) =~= d);
    }
}

/// The driver name: `MAIL_DRIVER` lowercased, `memory` when unset.
pub open spec fn driver_name(env: MailEnv) -> Seq<char> {
    str_lower(or_default(env.driver, "memory"@))
}

/// Whether `c` is the SMTP configuration the environment describes.
pub open spec fn is_env_smtp(c: SmtpConfig, env: MailEnv, port: u16) -> bool {
    &&& c.host@ == or_default(env.smtp_host, "127.0.0.1"@)
    &&& c.port == port
    &&& c.username@ == or_default(env.smtp_username, Seq::empty())
    &&& c.password@ == or_default(env.smtp_password, Seq::empty())
    &&& c.from_address@ == or_default(env.smtp_from_address, Seq::empty())
    &&& opt_view(c.from_name) == opt_view(env.mail_from_name)
}

/// Whether `c` is the default Mailgun configuration with the environment's
/// key, domain and region (`eu` in any case for EU, else US).
pub open spec fn is_env_mailgun(c: MailgunConfig, env: MailEnv) -> bool {
    &&& env.mailgun_api_key matches Some(k) && c.api_key@ == k@
    &&& env.mailgun_domain matches Some(d) && c.domain@ == d@
    &&& c.region == (if str_lower(or_default(env.mailgun_region, "us"@)) == "eu"@ {
        MailgunRegion::EU
    } else {
        MailgunRegion::US
    })
    &&& c.tags@.len() == 0
    &&& c.track_clicks && c.track_opens && !c.test_mode
}

/// Whether `c` is the default SES configuration with the environment's
/// region and credentials.
pub open spec fn is_env_ses(c: SesConfig, env: MailEnv) -> bool {
    &&& c.region@ == or_default(env.aws_region, "us-east-1"@)
    &&& c.access_key_id@ == or_default(env.aws_access_key_id, Seq::empty())
    &&& c.secret_access_key@ == or_default(env.aws_secret_access_key, Seq::empty())
    &&& c.session_token is None && c.configuration_set is None
    &&& c.tags@.len() == 0 && !c.use_raw
}

/// The error for a missing required variable.
pub open spec fn required_text(var: Seq<char>, driver: Seq<char>) -> Seq<char> {
    var + " is required for the "@ + driver + " driver"@
}

fn required(var: &str, driver: &str) -> (e: MailError)
    ensures
        e matches MailError::ConfigError(m) && m@ == required_text(var@, driver@),
{
    let mut m = copy_str(var);
    push_str(&mut m, " is required for the ");
    push_str(&mut m, driver);
    push_str(&mut m, " driver");
    MailError::ConfigError(m)
}

fn env_or(v: &Option<String>, default: &str) -> (s: String)
    ensures
        s@ == or_default(*v, default@),
{
    match v {
        Some(s) => copy_str(s.as_str()),
        None => copy_str(default),
    }
}

fn copy_opt_string(v: &Option<String>) -> (r: Option<String>)
    ensures
        opt_view(r) == opt_view(*v),
{
    match v {
        Some(s) => Some(copy_str(s.as_str())),
        None => None,
    }
}

fn smtp_choice(env: &MailEnv) -> (r: Result<DriverChoice, MailError>)
    ensures
        match parse_u16(or_default(env.smtp_port, "587"@)) {
            Some(port) => r matches Ok(DriverChoice::Smtp(c)) && is_env_smtp(c, *env, port),
            None => r matches Err(MailError::ConfigError(m)) && m@ == "SMTP_PORT must be a number"@,
        },
{
    proof {
        reveal_strlit("");
        assert(""@ =~= Seq::<char>::empty());
    }
    let port_text = env_or(&env.smtp_port, "587");
    match parse_port(port_text.as_str()) {
        None => Err(MailError::ConfigError(copy_str("SMTP_PORT must be a number"))),
        Some(port) => Ok(
            DriverChoice::Smtp(
                SmtpConfig {
                    host: env_or(&env.smtp_host, "127.0.0.1"),
                    port,
                    username: env_or(&env.smtp_username, ""),
                    password: env_or(&env.smtp_password, ""),
                    from_address: env_or(&env.smtp_from_address, ""),
                    from_name: copy_opt_string(&env.mail_from_name),
                },
            ),
        ),
    }
}

fn mailgun_choice(env: &MailEnv) -> (r: Result<DriverChoice, MailError>)
    ensures
        mailgun_outcome(*env, r),
{
    let api_key = match &env.mailgun_api_key {
        Some(k) => copy_str(k.as_str()),
        None => {
            return Err(required("MAILGUN_API_KEY", "mailgun"));
        },
    };
    let domain = match &env.mailgun_domain {
        Some(d) => copy_str(d.as_str()),
        None => {
            return Err(required("MAILGUN_DOMAIN", "mailgun"));
        },
    };
    let region_name = env_or(&env.mailgun_region, "us");
    let lowered = str_to_lowercase(region_name.as_str());
    let region = if str_eq(lowered.as_str(), "eu") {
        MailgunRegion::EU
    } else {
        MailgunRegion::US
    };
    let mut c = MailgunConfig::default();
    c.api_key = api_key;
    c.domain = domain;
    c.region = region;
    Ok(DriverChoice::Mailgun(c))
}

/// What a Mailgun driver choice gives: an error naming the first missing
/// required variable, else the environment's Mailgun configuration.
pub open spec fn mailgun_outcome(env: MailEnv, r: Result<DriverChoice, MailError>) -> bool {
    match (env.mailgun_api_key, env.mailgun_domain) {
        (None, _) => r matches Err(MailError::ConfigError(m)) && m@ == required_text(
            "MAILGUN_API_KEY"@,
            "mailgun"@,
        ),
        (Some(_), None) => r matches Err(MailError::ConfigError(m)) && m@ == required_text(
            "MAILGUN_DOMAIN"@,
            "mailgun"@,
        ),
        (Some(_), Some(_)) => r matches Ok(DriverChoice::Mailgun(c)) && is_env_mailgun(c, env),
    }
}

/// The outcome `choose_driver` gives for the environment `env`.
pub open spec fn driver_outcome(env: MailEnv, r: Result<DriverChoice, MailError>) -> bool {
    let name = driver_name(env);
    if name == "smtp"@ {
        match parse_u16(or_default(env.smtp_port, "587"@)) {
            Some(port) => r matches Ok(DriverChoice::Smtp(c)) && is_env_smtp(c, env, port),
            None => r matches Err(MailError::ConfigError(m)) && m@ == "SMTP_PORT must be a number"@,
        }
    } else if name == "sendmail"@ {
        r matches Ok(DriverChoice::Sendmail(p)) && opt_view(p) == opt_view(env.sendmail_path)
    } else if name == "log"@ {
        r matches Ok(DriverChoice::Log(p)) && p@ == or_default(env.mail_log_path, "mail.log"@)
    } else if name == "mailgun"@ {
        mailgun_outcome(env, r)
    } else if name == "ses"@ {
        r matches Ok(DriverChoice::Ses(c)) && is_env_ses(c, env)
    } else if name == "sendgrid"@ {
        match env.sendgrid_api_key {
            Some(k) => r matches Ok(DriverChoice::SendGrid(c)) && c.api_key@ == k@ && !c.sandbox_mode
                && c.ip_pool_name is None && c.custom_args@.len() == 0 && c.categories@.len() == 0
                && c.click_tracking && c.open_tracking,
            None => r matches Err(MailError::ConfigError(m)) && m@ == required_text(
                "SENDGRID_API_KEY"@,
                "sendgrid"@,
            ),
        }
    } else if name == "postmark"@ {
        match env.postmark_api_token {
            Some(t) => r matches Ok(DriverChoice::Postmark(c)) && c.server_token@ == t@ && opt_view(
                c.message_stream,
            ) == Some("outbound"@),
            None => r matches Err(MailError::ConfigError(m)) && m@ == required_text(
                "POSTMARK_API_TOKEN"@,
                "postmark"@,
            ),
        }
    } else {
        r matches Ok(DriverChoice::Memory)
    }
}

/// The SMTP driver takes its credentials straight from the environment:
/// the login is `SMTP_USERNAME` and the password `SMTP_PASSWORD` (each empty
/// when unset), the host `SMTP_HOST` (`127.0.0.1` when unset) and the sender
/// address `SMTP_FROM_ADDRESS`.
pub proof fn lemma_smtp_credentials(env: MailEnv, r: Result<DriverChoice, MailError>)
    requires
        driver_outcome(env, r),
    ensures
        r matches Ok(DriverChoice::Smtp(c)) ==> {
            &&& match env.smtp_username {
                Some(u) => c.username@ == u@,
                None => c.username@.len() == 0,
            }
            &&& match env.smtp_password {
                Some(p) => c.password@ == p@,
                None => c.password@.len() == 0,
            }
            &&& match env.smtp_host {
                Some(h) => c.host@ == h@,
                None => c.host@ == "127.0.0.1"@,
            }
            &&& match env.smtp_from_address {
                Some(a) => c.from_address@ == a@,
                None => c.from_address@.len() == 0,
            }
        },
{
}

/// The driver `MAIL_DRIVER` names, configured from the other variables.
/// Unrecognised names, and an unset `MAIL_DRIVER`, choose the in-memory
/// mailer. SMTP needs a numeric `SMTP_PORT` (587 when unset); Mailgun needs
/// `MAILGUN_API_KEY` and `MAILGUN_DOMAIN`, SendGrid `SENDGRID_API_KEY` and
/// Postmark `POSTMARK_API_TOKEN`.
pub fn choose_driver(env: &MailEnv) -> (r: Result<DriverChoice, MailError>)
    ensures
        driver_outcome(*env, r),
{
    let raw = env_or(&env.driver, "memory");
    let name = str_to_lowercase(raw.as_str());
    if str_eq(name.as_str(), "smtp") {
        smtp_choice(env)
    } else if str_eq(name.as_str(), "sendmail") {
        Ok(DriverChoice::Sendmail(copy_opt_string(&env.sendmail_path)))
    } else if str_eq(name.as_str(), "log") {
        Ok(DriverChoice::Log(env_or(&env.mail_log_path, "mail.log")))
    } else if str_eq(name.as_str(), "mailgun") {
        mailgun_choice(env)
    } else if str_eq(name.as_str(), "ses") {
        let mut c = SesConfig::default();
        c.region = env_or(&env.aws_region, "us-east-1");
        c.access_key_id = env_or(&env.aws_access_key_id, "");
        c.secret_access_key = env_or(&env.aws_secret_access_key, "");
        proof {
            reveal_strlit("");
            assert(""@ =~= Seq::<char>::empty());
        }
        Ok(DriverChoice::Ses(c))
    } else if str_eq(name.as_str(), "sendgrid") {
        match &env.sendgrid_api_key {
            Some(k) => {
                let mut c = SendGridConfig::default();
                c.api_key = copy_str(k.as_str());
                Ok(DriverChoice::SendGrid(c))
            },
            None => Err(required("SENDGRID_API_KEY", "sendgrid")),
        }
    } else if str_eq(name.as_str(), "postmark") {
        match &env.postmark_api_token {
            Some(t) => {
                let mut c = PostmarkConfig::default();
                c.server_token = copy_str(t.as_str());
                Ok(DriverChoice::Postmark(c))
            },
            None => Err(required("POSTMARK_API_TOKEN", "postmark")),
        }
    } else {
        Ok(DriverChoice::Memory)
    }
}

/// The decimal text of a number is all digits, starts with a digit and
/// reads back as the number.
pub proof fn lemma_decimal_reads_back(n: nat)
    ensures
        decimal(n).len() > 0,
        all_digits(decimal(n)),
        digits_value(decimal(n)) == n,
    decreases n,
{
    assert(digit_char(n % 10) as nat == 48 + n % 10);
    if n < 10 {
        assert(decimal(n).drop_last() =~= Seq::<char>::empty());
        assert(decimal(n).last() == digit_char(n));
        assert(digits_value(Seq::<char>::empty()) == 0);
        assert(digits_value(decimal(n)) == digits_value(decimal(n).drop_last()) * 10 + ((decimal(
            n,
        ).last() as nat) - 48) as nat);
    } else {
        lemma_decimal_reads_back(n / 10);
        let d = decimal(n / 10);
        let c = digit_char(n % 10);
        assert(decimal(n) == d.push(c));
        assert(n == (n / 10) * 10 + n % 10);
        assert(decimal(n).last() == c);
        assert(decimal(n).drop_last() =~= d);
        assert(digits_value(decimal(n)) == digits_value(d) * 10 + ((c as nat) - 48) as nat);
        assert forall|i: int| 0 <= i < decimal(n).len() implies is_digit(#[trigger] decimal(n)[i]) by {
            if i < d.len() {
                assert(decimal(n)[i] == d[i]);
            }
        }
    }
}

/// A port written in decimal reads back as the same port: reading undoes
/// writing.
pub proof fn lemma_port_round_trip(port: u16)
    ensures
        parse_u16(decimal(port as nat)) == Some(port),
{
    lemma_decimal_reads_back(port as nat);
    let d = decimal(port as nat);
    assert(is_digit(d[0]));
    assert(unsigned_part(d) == d);
}

} // verus!
