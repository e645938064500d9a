use rf_mail::{Address, Attachment, MailBody, MailBuilder, MailError};

#[test]
fn mail_builder_test_builder_basic() {
    let mail = MailBuilder::new()
        .from(Address::new("sender@example.com"))
        .to(Address::new("recipient@example.com"))
        .subject("Test")
        .text("Hello")
        .build()
        .unwrap();

    assert_eq!(mail.from.email, "sender@example.com");
    assert_eq!(mail.to.len(), 1);
    assert_eq!(mail.subject, "Test");
    assert!(mail.has_text());
}

#[test]
fn test_builder_html_and_text() {
    let mail = MailBuilder::new()
        .from(Address::new("sender@example.com"))
        .to(Address::new("recipient@example.com"))
        .subject("Test")
        .html("<h1>Hello</h1>")
        .text("Hello")
        .build()
        .unwrap();

    assert!(matches!(mail.body, MailBody::Both { .. }));
    assert_eq!(mail.html(), Some("<h1>Hello</h1>"));
    assert_eq!(mail.text(), Some("Hello"));
}

#[test]
fn mail_builder_test_builder_validation() {
    let result = MailBuilder::new().build();
    assert!(result.is_err());
}

#[test]
fn mail_builder_test_builder_to_many() {
    let addresses = vec![
        Address::new("user1@example.com"),
        Address::new("user2@example.com"),
    ];

    let mail = MailBuilder::new()
        .from(Address::new("sender@example.com"))
        .to_many(addresses)
        .subject("Test")
        .text("Hello")
        .build()
        .unwrap();

    assert_eq!(mail.to.len(), 2);
}

#[test]
fn test_builder_attach_data() {
    let data = b"Hello, World!".to_vec();

    let mail = MailBuilder::new()
        .from(Address::new("sender@example.com"))
        .to(Address::new("recipient@example.com"))
        .subject("Test")
        .text("Hello")
        .attach_data(data, "hello.txt", "text/plain")
        .build()
        .unwrap();

    assert_eq!(mail.attachments.len(), 1);
    assert_eq!(mail.attachments[0].filename, "hello.txt");
}

#[test]
fn mail_builder_error_messages() {
    match MailBuilder::new().build() {
        Err(MailError::InvalidMessage(m)) => {
            assert_eq!(m, "At least one body type (html, text, or markdown) is required")
        }
        other => panic!("unexpected {other:?}"),
    }
    match MailBuilder::new().text("x").build() {
        Err(MailError::InvalidMessage(m)) => assert_eq!(m, "From address is required"),
        other => panic!("unexpected {other:?}"),
    }
    match MailBuilder::new().text("").from(Address::new("a@example.com")).to(Address::new("b@example.com")).subject("S").build() {
        Err(MailError::InvalidMessage(m)) => assert_eq!(m, "Text body cannot be empty"),
        other => panic!("unexpected {other:?}"),
    }
}

#[test]
fn mail_builder_markdown_gives_both_parts() {
    let mail = MailBuilder::new()
        .from(Address::new("sender@example.com"))
        .to(Address::new("recipient@example.com"))
        .subject("Md")
        .markdown("# Hello\n\nSome **bold** text.")
        .build()
        .unwrap();
    let html = mail.html().unwrap();
    assert!(html.contains("<h1>Hello</h1>"));
    assert!(html.contains("<strong>bold</strong>"));
    assert_eq!(mail.text(), Some("Hello\n\nSome bold text."));
}

#[test]
fn mail_builder_keeps_cc_bcc_reply_to_and_attachments() {
    let mail = MailBuilder::new()
        .from(Address::new("sender@example.com"))
        .to(Address::new("recipient@example.com"))
        .cc(Address::new("cc@example.com"))
        .bcc(Address::new("bcc@example.com"))
        .reply_to(Address::new("reply@example.com"))
        .subject("Test")
        .html("<p>x</p>")
        .attach_attachment(Attachment::new("a.txt", "text/plain", vec![1]))
        .build()
        .unwrap();
    assert_eq!(mail.cc[0].email, "cc@example.com");
    assert_eq!(mail.bcc[0].email, "bcc@example.com");
    assert_eq!(mail.reply_to.as_ref().unwrap().email, "reply@example.com");
    assert_eq!(mail.attachments.len(), 1);
    assert_eq!(mail.id.len(), 36);
    assert!(matches!(mail.body, MailBody::Html(_)));
}
