use rf_mail::{Address, Mail, MailBody};

#[test]
fn test_mail_new() {
    let mail = Mail::new();
    assert!(!mail.id.is_empty());
    assert!(mail.to.is_empty());
}

#[test]
fn test_mail_validate() {
    let mut mail = Mail::new();

    // Missing from
    assert!(mail.validate().is_err());

    mail.from = Address::new("sender@example.com");

    // Missing to
    assert!(mail.validate().is_err());

    mail.to.push(Address::new("recipient@example.com"));

    // Missing subject
    assert!(mail.validate().is_err());

    mail.subject = "Test".into();

    // Empty body
    assert!(mail.validate().is_err());

    mail.body = MailBody::Text("Hello".into());

    // Valid
    assert!(mail.validate().is_ok());
}

#[test]
fn test_mail_body_variants() {
    let html_mail = Mail {
        body: MailBody::Html("<h1>Hello</h1>".into()),
        ..Mail::new()
    };
    assert!(html_mail.has_html());
    assert!(!html_mail.has_text());

    let text_mail = Mail {
        body: MailBody::Text("Hello".into()),
        ..Mail::new()
    };
    assert!(!text_mail.has_html());
    assert!(text_mail.has_text());

    let both_mail = Mail {
        body: MailBody::Both {
            html: "<h1>Hello</h1>".into(),
            text: "Hello".into(),
        },
        ..Mail::new()
    };
    assert!(both_mail.has_html());
    assert!(both_mail.has_text());
}

#[test]
fn test_mail_getters() {
    let mail = Mail {
        body: MailBody::Both {
            html: "<h1>Hello</h1>".into(),
            text: "Hello".into(),
        },
        ..Mail::new()
    };

    assert_eq!(mail.html(), Some("<h1>Hello</h1>"));
    assert_eq!(mail.text(), Some("Hello"));
}

#[test]
fn mail_counts_recipients_and_attachment_bytes() {
    let mut mail = Mail::new();
    mail.to.push(Address::new("a@example.com"));
    mail.cc.push(Address::new("b@example.com"));
    mail.bcc.push(Address::new("c@example.com"));
    mail.bcc.push(Address::new("d@example.com"));
    assert_eq!(mail.recipient_count(), 4);
    mail.attachments.push(rf_mail::Attachment::new("a", "text/plain", vec![0; 5]));
    mail.attachments.push(rf_mail::Attachment::new("b", "text/plain", vec![0; 7]));
    assert_eq!(mail.attachment_size(), 12);
}

#[test]
fn mail_validation_messages() {
    let mut mail = Mail::new();
    mail.from = Address::new("s@example.com");
    mail.to.push(Address::new("r@example.com"));
    mail.subject = "S".into();
    mail.body = MailBody::Html(String::new());
    assert_eq!(mail.validate(), Err("HTML body cannot be empty".to_string()));
    mail.body = MailBody::Both { html: String::new(), text: String::new() };
    assert_eq!(mail.validate(), Err("At least one body part must be non-empty".to_string()));
    mail.body = MailBody::Both { html: String::new(), text: "t".into() };
    assert_eq!(mail.validate(), Ok(()));
}
