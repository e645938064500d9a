use rf_mail::mailable::message_of;
use rf_mail::manager::{choose_driver, parse_port, DriverChoice, MailEnv};
use rf_mail::{Address, MailBuilder, MailError, MailgunRegion, Mailable, MemoryMailer, OrderShippedMail, PasswordResetEmail, WelcomeEmail};

#[test]
fn test_welcome_email() {
    let email = WelcomeEmail {
        to: Address::with_name("user@example.com", "Test User"),
        user_name: "Test".into(),
        app_name: "TestApp".into(),
    };

    let message = email.build().unwrap();

    assert_eq!(message.subject, "Welcome to TestApp!");
    assert_eq!(message.to.len(), 1);
    assert_eq!(message.to[0].email, "user@example.com");
    assert!(message.html.is_some());
    assert!(message.text.is_some());
    assert!(message.html.unwrap().contains("<h1>Welcome, Test!</h1>"));
    assert!(message.text.unwrap().starts_with("Welcome, Test!\n\nThank you for joining TestApp."));
    assert_eq!(message.from.name, Some("TestApp".to_string()));
}

#[test]
fn test_password_reset_email() {
    let email = PasswordResetEmail {
        to: Address::new("user@example.com"),
        reset_token: "test-token-123".into(),
        reset_url: "https://example.com/reset".into(),
        expires_minutes: 60,
    };

    let message = email.build().unwrap();

    assert_eq!(message.subject, "Reset Your Password");
    assert_eq!(message.to[0].email, "user@example.com");

    let html = message.html.unwrap();
    assert!(html.contains("test-token-123"));
    assert!(html.contains("60 minutes"));
    assert!(html.contains("href=\"https://example.com/reset?token=test-token-123\""));

    let text = message.text.unwrap();
    assert!(text.contains("test-token-123"));
}

#[test]
fn order_shipped_builds_markdown_mail() {
    let mail = OrderShippedMail {
        to: "customer@example.com".into(),
        customer_name: "Alice".into(),
        order_id: "ORD-12345".into(),
        tracking_url: "https://tracking.example.com/12345".into(),
    }
    .build()
    .build()
    .unwrap();
    assert_eq!(mail.subject, "Your Order #ORD-12345 Has Shipped!");
    assert_eq!(mail.from.email, "noreply@example.com");
    assert_eq!(mail.from.name, Some("Online Shop".to_string()));
    let html = mail.html().unwrap();
    assert!(html.contains("href=\"https://tracking.example.com/12345\""));
    assert!(html.contains("Track Your Shipment"));
    assert!(html.contains("Hello Alice,"));
    assert!(mail.text().unwrap().contains("Your order #ORD-12345 has been shipped!"));
}

struct TestMail {
    to: String,
}

impl Mailable for TestMail {
    fn build(&self) -> MailBuilder {
        MailBuilder::new()
            .from(Address::new("test@example.com"))
            .to(Address::new(&self.to))
            .subject("Test")
            .text("Hello")
    }
}

#[test]
fn test_mailable_send() {
    let mut mailer = MemoryMailer::new();
    let mailable = TestMail { to: "user@example.com".into() };

    let mail = mailable.build().build().unwrap();
    let message = message_of(&mail).unwrap();
    mailer.send(&message).unwrap();

    let sent = mailer.sent_messages();
    assert_eq!(sent.len(), 1);
    assert_eq!(sent[0].to[0].email, "user@example.com");
    assert_eq!(mailable.queue_name(), None);
}

fn env(driver: Option<&str>) -> MailEnv {
    MailEnv {
        driver: driver.map(|d| d.to_string()),
        smtp_host: None,
        smtp_port: None,
        smtp_username: None,
        smtp_password: None,
        smtp_from_address: None,
        mail_from_name: None,
        sendmail_path: None,
        mail_log_path: None,
        mailgun_api_key: None,
        mailgun_domain: None,
        mailgun_region: None,
        aws_region: None,
        aws_access_key_id: None,
        aws_secret_access_key: None,
        sendgrid_api_key: None,
        postmark_api_token: None,
    }
}

#[test]
fn test_manager_from_env_defaults_to_memory() {
    assert!(matches!(choose_driver(&env(None)), Ok(DriverChoice::Memory)));
    assert!(matches!(choose_driver(&env(Some("nonsense"))), Ok(DriverChoice::Memory)));
}

#[test]
fn test_manager_from_env_log_driver() {
    match choose_driver(&env(Some("LOG"))) {
        Ok(DriverChoice::Log(path)) => assert_eq!(path, "mail.log"),
        other => panic!("unexpected {other:?}"),
    }
    let mut e = env(Some("log"));
    e.mail_log_path = Some("/var/log/mail.log".to_string());
    match choose_driver(&e) {
        Ok(DriverChoice::Log(path)) => assert_eq!(path, "/var/log/mail.log"),
        other => panic!("unexpected {other:?}"),
    }
}

#[test]
fn manager_smtp_port_parsing() {
    match choose_driver(&env(Some("smtp"))) {
        Ok(DriverChoice::Smtp(c)) => {
            assert_eq!(c.host, "127.0.0.1");
            assert_eq!(c.port, 587);
            assert_eq!(c.username, "");
        }
        other => panic!("unexpected {other:?}"),
    }
    let mut e = env(Some("smtp"));
    e.smtp_port = Some("70000".to_string());
    match choose_driver(&e) {
        Err(MailError::ConfigError(m)) => assert_eq!(m, "SMTP_PORT must be a number"),
        other => panic!("unexpected {other:?}"),
    }
    assert_eq!(parse_port("+25"), Some(25));
    assert_eq!(parse_port("65535"), Some(65535));
    assert_eq!(parse_port("65536"), None);
    assert_eq!(parse_port(""), None);
    assert_eq!(parse_port("+"), None);
    assert_eq!(parse_port(" 25"), None);
    assert_eq!(parse_port("2a"), None);
}

#[test]
fn manager_provider_drivers_need_their_keys() {
    match choose_driver(&env(Some("mailgun"))) {
        Err(MailError::ConfigError(m)) => assert_eq!(m, "MAILGUN_API_KEY is required for the mailgun driver"),
        other => panic!("unexpected {other:?}"),
    }
    let mut e = env(Some("mailgun"));
    e.mailgun_api_key = Some("k".to_string());
    match choose_driver(&e) {
        Err(MailError::ConfigError(m)) => assert_eq!(m, "MAILGUN_DOMAIN is required for the mailgun driver"),
        other => panic!("unexpected {other:?}"),
    }
    e.mailgun_domain = Some("mg.test".to_string());
    e.mailgun_region = Some("EU".to_string());
    match choose_driver(&e) {
        Ok(DriverChoice::Mailgun(c)) => {
            assert_eq!(c.region, MailgunRegion::EU);
            assert_eq!(c.domain, "mg.test");
        }
        other => panic!("unexpected {other:?}"),
    }
    match choose_driver(&env(Some("postmark"))) {
        Err(MailError::ConfigError(m)) => assert_eq!(m, "POSTMARK_API_TOKEN is required for the postmark driver"),
        other => panic!("unexpected {other:?}"),
    }
    match choose_driver(&env(Some("sendgrid"))) {
        Err(MailError::ConfigError(m)) => assert_eq!(m, "SENDGRID_API_KEY is required for the sendgrid driver"),
        other => panic!("unexpected {other:?}"),
    }
    match choose_driver(&env(Some("ses"))) {
        Ok(DriverChoice::Ses(c)) => assert_eq!(c.region, "us-east-1"),
        other => panic!("unexpected {other:?}"),
    }
    match choose_driver(&env(Some("sendmail"))) {
        Ok(DriverChoice::Sendmail(p)) => assert_eq!(p, None),
        other => panic!("unexpected {other:?}"),
    }
}
