use rf_mail::backends::file::{format_address, format_address_list, sanitize};
use rf_mail::backends::plan::PartsPlan;
use rf_mail::backends::smtp::smtp_plan;
use rf_mail::mailable::mail_of_message;
use rf_mail::{
    Address, Attachment, FileMailer, LogMailer, MailBuilder, MailError, MemoryMailer, Message, MessageBuilder,
    MockMailer, SendmailMailer, SmtpConfig, SmtpEnvConfig,
};

fn sample(subject: &str) -> Message {
    MessageBuilder::new()
        .from(Address::new("sender@example.com"))
        .to(Address::new("user@example.com"))
        .subject(subject)
        .text("Hello")
        .build()
        .unwrap()
}

#[test]
fn test_memory_mailer() {
    let mut mailer = MemoryMailer::new();
    let message = sample("Test Email");

    mailer.send(&message).unwrap();

    assert_eq!(mailer.sent_count(), 1);
    assert!(mailer.was_sent_to("user@example.com"));
    assert!(mailer.was_sent_with_subject("Test Email"));

    let last = mailer.last_message().unwrap();
    assert_eq!(last.subject, "Test Email");
}

#[test]
fn test_memory_mailer_clear() {
    let mut mailer = MemoryMailer::new();
    let message = sample("Test");

    mailer.send(&message).unwrap();
    assert_eq!(mailer.sent_count(), 1);

    mailer.clear();
    assert_eq!(mailer.sent_count(), 0);
}

#[test]
fn memory_mailer_records_in_order() {
    let mut mailer = MemoryMailer::default();
    assert!(mailer.last_message().is_none());
    mailer.send(&sample("first")).unwrap();
    mailer.send(&sample("second")).unwrap();
    let sent = mailer.sent_messages();
    assert_eq!(sent.len(), 2);
    assert_eq!(sent[0].subject, "first");
    assert_eq!(sent[1].subject, "second");
    assert!(!mailer.was_sent_to("nobody@example.com"));
    assert!(!mailer.was_sent_with_subject("third"));
}

#[test]
fn test_mock_mailer_success() {
    let mailer = MockMailer::new();
    assert!(mailer.send(&sample("Test")).is_ok());
}

#[test]
fn test_mock_mailer_failure() {
    let mailer = MockMailer::with_failure();
    assert!(mailer.send(&sample("Test")).is_err());
}

#[test]
fn file_mailer_eml_text() {
    let mailer = FileMailer::new("/tmp/mailbox");
    assert_eq!(mailer.mailbox(), "/tmp/mailbox");
    let mail = MailBuilder::new()
        .from(Address::new("sender@example.com"))
        .to(Address::new("recipient@example.com"))
        .subject("Test Subject")
        .text("Hello, filesystem!")
        .build()
        .unwrap();
    let eml = FileMailer::to_eml_at(&mail, "Mon, 1 Jan 2024 00:00:00 +0000");
    assert!(eml.contains("Subject: Test Subject"));
    assert!(eml.contains("To: recipient@example.com"));
    assert!(eml.contains("From: sender@example.com"));
    assert!(eml.contains("Hello, filesystem!"));
    assert!(eml.contains("Content-Type: text/plain"));
    assert!(eml.starts_with("From: sender@example.com\r\nTo: recipient@example.com\r\nSubject: Test Subject\r\nDate: Mon, 1 Jan 2024 00:00:00 +0000\r\n"));
    assert!(eml.ends_with("\r\n\r\nHello, filesystem!\r\n"));
}

#[test]
fn file_mailer_multipart_eml() {
    let mail = MailBuilder::new()
        .from(Address::new("sender@example.com"))
        .to(Address::new("recipient@example.com"))
        .subject("Multipart")
        .html("<h1>Hi</h1>")
        .text("Hi")
        .build()
        .unwrap();
    let eml = FileMailer::to_eml(&mail);
    let boundary = format!("rustforge-{}", mail.id);
    assert!(eml.contains("multipart/alternative"));
    assert!(eml.contains(&format!("boundary=\"{boundary}\"")));
    assert!(eml.contains("text/plain"));
    assert!(eml.contains("text/html"));
    assert!(eml.contains("<h1>Hi</h1>"));
    assert!(eml.ends_with(&format!("--{boundary}--\r\n")));
}

#[test]
fn file_mailer_headers_cannot_be_injected() {
    let mail = MailBuilder::new()
        .from(Address::new("sender@example.com"))
        .to(Address::new("recipient@example.com"))
        .subject("Hi\r\nBcc: victim@example.com")
        .text("a\r\nb\nc")
        .build()
        .unwrap();
    let eml = FileMailer::to_eml_at(&mail, "d");
    assert!(eml.contains("Subject: Hi  Bcc: victim@example.com\r\n"));
    assert!(eml.ends_with("a\r\nb\r\nc\r\n"));
}

#[test]
fn file_mailer_names_and_addresses() {
    let mut mail = MailBuilder::new()
        .from(Address::new("s@example.com"))
        .to(Address::new("r@example.com"))
        .subject("S")
        .text("t")
        .build()
        .unwrap();
    mail.id = "a/b:c".to_string();
    assert_eq!(FileMailer::file_name_at(&mail, "20240101T000000000"), "20240101T000000000-a_b_c.eml");
    assert!(FileMailer::file_name(&mail).ends_with("-a_b_c.eml"));
    assert_eq!(sanitize("x.y-z_1"), "x_y-z_1");
    assert_eq!(format_address(&Address::with_name("e@x.test", "")), "e@x.test");
    assert_eq!(format_address(&Address::with_name("e@x.test", "N")), "N <e@x.test>");
    assert_eq!(
        format_address_list(&vec![Address::new("a@x.test"), Address::with_name("b@x.test", "B")]),
        "a@x.test, B <b@x.test>"
    );
}

#[test]
fn log_record_layout() {
    let mut message = MessageBuilder::new()
        .from(Address::new("sender@example.com"))
        .to(Address::new("recipient@example.com"))
        .cc(Address::with_name("cc@example.com", "Cee"))
        .subject("Test Email")
        .text("Hello, World!")
        .attach(Attachment::new("a.txt", "text/plain", vec![1, 2, 3]))
        .build()
        .unwrap();
    message.id = "ID1".to_string();
    let rule = "=".repeat(80);
    let text = LogMailer::format_message_at(&message, "2024-01-01T00:00:00+00:00");
    let expected = format!(
        "{rule}\nMessage ID: ID1\nFrom:  <sender@example.com>\nTo: recipient@example.com\nCC: cc@example.com\nSubject: Test Email\nTimestamp: 2024-01-01T00:00:00+00:00\nAttachments: 1\n  - a.txt (3 bytes)\n\n--- TEXT BODY ---\nHello, World!\n\n--- HTML BODY ---\n(no html body)\n{rule}\n\n"
    );
    assert_eq!(text, expected);
    let now = LogMailer::format_message(&message);
    assert!(now.contains("Test Email"));
    assert!(now.contains("sender@example.com"));
    assert!(now.contains("recipient@example.com"));
    assert!(now.contains("Hello, World!"));
    let mailer = LogMailer::new("mail.log");
    assert_eq!(mailer.log_path(), "mail.log");
}

#[test]
fn test_smtp_config_is_the_facade_config_not_smtp_env_config() {
    let cfg = SmtpConfig {
        host: "smtp.example.com".into(),
        port: 587,
        username: "user@example.com".into(),
        password: "s3cr3t".into(),
        from_address: "noreply@example.com".into(),
        from_name: Some("MyApp".into()),
    };
    assert_eq!(cfg.host, "smtp.example.com");
    assert_eq!(cfg.username, "user@example.com");
    assert_eq!(cfg.from_address, "noreply@example.com");

    let env_cfg = SmtpEnvConfig::new("smtp.example.com", 587).with_credentials("user@example.com", "s3cr3t");
    assert_eq!(env_cfg.host, "smtp.example.com");
    assert_eq!(env_cfg.username, Some("user@example.com".into()));
}

#[test]
fn smtp_plan_of_multipart_mail() {
    let mail = MailBuilder::new()
        .from(Address::new("sender@example.com"))
        .to(Address::with_name("recipient@example.com", "Recipient"))
        .subject("Test")
        .html("<h1>Hello</h1>")
        .text("Hello")
        .build()
        .unwrap();
    let plan = smtp_plan(&mail).unwrap();
    assert_eq!(plan.from, "sender@example.com");
    assert_eq!(plan.to, vec!["Recipient <recipient@example.com>".to_string()]);
    assert_eq!(plan.subject, "Test");
    match plan.parts {
        PartsPlan::Alternative { text, html } => {
            assert_eq!(text, "Hello");
            assert_eq!(html, "<h1>Hello</h1>");
        }
        other => panic!("unexpected {other:?}"),
    }
}

#[test]
fn sendmail_plan_and_refusal() {
    let message = MessageBuilder::new()
        .from(Address::with_name("sender@example.com", "Sender"))
        .to(Address::new("recipient@example.com"))
        .cc(Address::with_name("cc@example.com", "Cee"))
        .subject("Test")
        .text("Hello")
        .build()
        .unwrap();
    let plan = SendmailMailer::message_plan(&message).unwrap();
    assert_eq!(plan.from, "Sender <sender@example.com>");
    assert_eq!(plan.cc, vec!["cc@example.com".to_string()]);
    assert!(matches!(plan.parts, PartsPlan::SingleText(ref t) if t == "Hello"));

    let mut bare = Message::new();
    bare.from = Address::new("s@example.com");
    match SendmailMailer::message_plan(&bare) {
        Err(MailError::InvalidMessage(m)) => assert_eq!(m, "Message must have either HTML or text body"),
        other => panic!("unexpected {other:?}"),
    }
    let unnamed = SendmailMailer::message_plan(&sample("x")).unwrap();
    assert_eq!(unnamed.from, " <sender@example.com>");
    assert_eq!(SendmailMailer::new().unwrap().command(), None);
    assert_eq!(SendmailMailer::with_path("/usr/sbin/sendmail").unwrap().command(), Some("/usr/sbin/sendmail"));
}

#[test]
fn test_convert_to_lettre() {
    let message = MessageBuilder::new()
        .from(Address::with_name("sender@example.com", "Sender"))
        .to(Address::with_name("recipient@example.com", "Recipient"))
        .subject("Test")
        .text("Hello")
        .build()
        .unwrap();

    let mail = mail_of_message(message).unwrap();
    let lettre_msg = smtp_plan(&mail);
    assert!(lettre_msg.is_ok());
}

#[test]
fn test_convert_multipart() {
    let message = MessageBuilder::new()
        .from(Address::new("sender@example.com"))
        .to(Address::new("recipient@example.com"))
        .subject("Test")
        .html("<h1>Hello</h1>")
        .text("Hello")
        .build()
        .unwrap();

    let mail = mail_of_message(message).unwrap();
    let lettre_msg = smtp_plan(&mail);
    assert!(lettre_msg.is_ok());
}

#[test]
fn test_convert_message() {
    let message = MessageBuilder::new()
        .from(Address::with_name("sender@example.com", "Sender"))
        .to(Address::new("recipient@example.com"))
        .subject("Test")
        .text("Hello")
        .build()
        .unwrap();

    let lettre_msg = SendmailMailer::message_plan(&message);
    assert!(lettre_msg.is_ok());
}

#[test]
fn log_record_header_lines_follow_recipients() {
    let mut message = MessageBuilder::new()
        .from(Address::new("sender@example.com"))
        .to(Address::new("recipient@example.com"))
        .reply_to(Address::new("reply@example.com"))
        .subject("Plain")
        .html("<p>x</p>")
        .build()
        .unwrap();
    message.id = "ID2".to_string();
    let text = LogMailer::format_message(&message);
    let header: Vec<&str> = text.lines().take_while(|l| !l.starts_with("Subject: ")).collect();
    assert!(!header.iter().any(|l| l.starts_with("CC: ")));
    assert!(!header.iter().any(|l| l.starts_with("BCC: ")));
    assert!(header.contains(&"Reply-To: reply@example.com"));
    assert!(header.contains(&"Message ID: ID2"));
    assert!(text.contains("Subject: Plain\n"));
    assert!(text.contains("--- TEXT BODY ---\n(no text body)\n"));
}
