use rf_mail::facade::{prepare, prepare_built, with_recipient, Mail};
use rf_mail::MailError;
use rf_mail::{Address, MailBody, MailBuilder, Mailable};

struct SmokeMail {
    to: String,
    subject: String,
    body: String,
}

impl Mailable for SmokeMail {
    fn build(&self) -> MailBuilder {
        MailBuilder::new()
            .from(Address::new("noreply@rustforge.test"))
            .to(Address::new(&self.to))
            .subject(&self.subject)
            .text(&self.body)
    }
}

#[test]
fn test_mail_to() {
    let mailer = Mail::to("test@example.com");
    assert_eq!(mailer.to, "test@example.com");
}

#[test]
fn test_facade_mailable_builds_expected_fields() {
    let mail = SmokeMail {
        to: "user@example.com".into(),
        subject: "Hello".into(),
        body: "Body text".into(),
    }
    .build()
    .build()
    .expect("mailable should build a valid Mail");

    assert_eq!(mail.to.len(), 1);
    assert_eq!(mail.to[0].email, "user@example.com");
    assert_eq!(mail.from.email, "noreply@rustforge.test");
    assert_eq!(mail.subject, "Hello");
    match &mail.body {
        MailBody::Text(text) => assert_eq!(text, "Body text"),
        other => panic!("expected text body, got {other:?}"),
    }
}

#[test]
fn test_facade_html_and_text_produce_multipart_body() {
    let mail = MailBuilder::new()
        .from(Address::new("noreply@rustforge.test"))
        .to(Address::new("user@example.com"))
        .subject("Multipart")
        .html("<p>Hi</p>")
        .text("Hi")
        .build()
        .expect("builder with html+text should succeed");

    match &mail.body {
        MailBody::Both { html, text } => {
            assert_eq!(html, "<p>Hi</p>");
            assert_eq!(text, "Hi");
        }
        other => panic!("expected multipart body, got {other:?}"),
    }
}

#[test]
fn draft_uses_default_sender_and_given_fields() {
    let mail = Mail::to("recipient@example.com")
        .subject("Upload complete")
        .text("Your file is ready.")
        .build("sender@rustforge.test")
        .unwrap();
    assert_eq!(mail.subject, "Upload complete");
    assert_eq!(mail.from.email, "sender@rustforge.test");
    assert_eq!(mail.to.len(), 1);
    assert_eq!(mail.to[0].email, "recipient@example.com");
    assert_eq!(mail.text(), Some("Your file is ready."));
}

#[test]
fn draft_sender_override_wins() {
    let mail = Mail::to("builder@example.com")
        .subject("Hi there")
        .text("builder body")
        .from("other@rustforge.test")
        .build("sender@rustforge.test")
        .unwrap();
    assert_eq!(mail.from.email, "other@rustforge.test");
    assert_eq!(mail.text(), Some("builder body"));
}

#[test]
fn draft_without_body_is_sent_with_empty_text() {
    let mail = Mail::to("user@example.com").subject("Hi").build("s@example.com").unwrap();
    assert_eq!(mail.from.email, "s@example.com");
    assert_eq!(mail.to.len(), 1);
    assert_eq!(mail.to[0].email, "user@example.com");
    assert_eq!(mail.subject, "Hi");
    assert!(matches!(mail.body, MailBody::Text(ref t) if t.is_empty()));
    let no_subject = Mail::to("user@example.com").subject("").build("s@example.com").unwrap_err();
    assert_eq!(no_subject.to_string(), "Invalid message: Subject is required");
    let no_sender = Mail::to("user@example.com").subject("Hi").build("").unwrap_err();
    assert_eq!(no_sender.to_string(), "Invalid message: From address is required");
}

#[test]
fn draft_with_html_only_has_html_body() {
    let mail = Mail::to("a@example.com").html("<b>x</b>").subject("S").build("s@example.com").unwrap();
    assert!(matches!(mail.body, MailBody::Html(_)));
}

#[test]
fn recipient_override_applies_only_without_recipients() {
    let without = MailBuilder::new()
        .from(Address::new("s@example.com"))
        .subject("S")
        .text("t")
        .build();
    assert!(without.is_err());

    let mut mail = MailBuilder::new()
        .from(Address::new("s@example.com"))
        .to(Address::new("own@example.com"))
        .subject("S")
        .text("t")
        .build()
        .unwrap();
    mail = with_recipient(mail, Some("override@example.com"));
    assert_eq!(mail.to.len(), 1);
    assert_eq!(mail.to[0].email, "own@example.com");

    mail.to.clear();
    mail = with_recipient(mail, Some("override@example.com"));
    assert_eq!(mail.to[0].email, "override@example.com");
}

#[test]
fn prepare_keeps_the_mailables_recipients() {
    let mailable = SmokeMail { to: "a@example.com".to_string(), subject: "Hi".to_string(), body: "Body".to_string() };
    let mail = prepare(&mailable, Some("override@example.com")).unwrap();
    assert_eq!(mail.to.len(), 1);
    assert_eq!(mail.to[0].email, "a@example.com");
}

#[test]
fn prepare_built_refuses_a_mail_without_recipients() {
    let builder = MailBuilder::new().from(Address::new("s@example.com")).subject("Hi").text("Body");
    match prepare_built(builder, Some("override@example.com")) {
        Err(MailError::InvalidMessage(m)) => assert_eq!(m, "At least one To address is required"),
        other => panic!("unexpected {other:?}"),
    }
}
