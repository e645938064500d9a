use rf_mail::{Address, Encryption, MailConfig, MailDriver, SendmailConfig, SmtpEnvConfig, SmtpMailConfig};

#[test]
fn test_smtp_env_config() {
    let config = SmtpEnvConfig::new("smtp.example.com", 587)
        .with_credentials("user", "pass")
        .with_encryption(Encryption::StartTls);

    assert_eq!(config.host, "smtp.example.com");
    assert_eq!(config.port, 587);
    assert_eq!(config.username, Some("user".into()));
    assert_eq!(config.encryption, Encryption::StartTls);
}

#[test]
fn test_smtp_env_config_presets() {
    let gmail = SmtpEnvConfig::gmail("user@gmail.com", "password");
    assert_eq!(gmail.host, "smtp.gmail.com");
    assert_eq!(gmail.port, 587);

    let sendgrid = SmtpEnvConfig::sendgrid("api_key");
    assert_eq!(sendgrid.host, "smtp.sendgrid.net");
    assert_eq!(sendgrid.username, Some("apikey".into()));
}

#[test]
fn test_mail_config() {
    let smtp = SmtpEnvConfig::new("localhost", 1025);
    let config = MailConfig::smtp(Address::new("test@example.com"), smtp);

    assert_eq!(config.driver, MailDriver::Smtp);
    assert!(config.smtp.is_some());
    assert!(config.validate().is_ok());
}

#[test]
fn test_sendmail_config() {
    let sendmail = SendmailConfig::new().with_arg("-t");
    let config = MailConfig::sendmail(Address::new("test@example.com"), sendmail);

    assert_eq!(config.driver, MailDriver::Sendmail);
    assert!(config.sendmail.is_some());
}

#[test]
fn test_config_validation() {
    let mut config = MailConfig::new(MailDriver::Smtp, Address::new("test@example.com"));
    assert!(config.validate().is_err());

    config.smtp = Some(SmtpEnvConfig::new("localhost", 1025));
    assert!(config.validate().is_ok());
}

#[allow(deprecated)]
#[test]
fn test_smtp_mail_config_deprecated_alias_resolves() {
    let via_alias: SmtpMailConfig = SmtpEnvConfig::new("mail.example.com", 465)
        .with_encryption(Encryption::Tls);
    assert_eq!(via_alias.host, "mail.example.com");
    assert_eq!(via_alias.port, 465);
    assert_eq!(via_alias.encryption, Encryption::Tls);
}

#[test]
fn smtp_env_config_defaults_and_presets() {
    let c = SmtpEnvConfig::new("h", 25);
    assert_eq!(c.username, None);
    assert_eq!(c.password, None);
    assert_eq!(c.encryption, Encryption::Unencrypted);
    assert!(!c.starttls);
    assert_eq!(c.timeout.as_secs(), 30);
    let c = c.with_starttls();
    assert!(c.starttls);

    let ses = SmtpEnvConfig::ses("u", "p", "eu-west-1");
    assert_eq!(ses.host, "email-smtp.eu-west-1.amazonaws.com");
    let mg = SmtpEnvConfig::mailgun("u", "p");
    assert_eq!(mg.host, "smtp.mailgun.org");
}

#[test]
fn config_validation_errors_for_each_driver() {
    let from = || Address::new("test@example.com");
    let sendmail = MailConfig::new(MailDriver::Sendmail, from());
    assert!(sendmail.validate().is_err());
    let log = MailConfig::new(MailDriver::Log, from());
    assert!(log.validate().is_err());
    assert!(MailConfig::log(from(), "mail.log".to_string()).validate().is_ok());
    assert!(MailConfig::memory(from()).validate().is_ok());
}
