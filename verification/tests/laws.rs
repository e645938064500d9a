use rf_mail::backends::file::sanitize;
use rf_mail::mailable::message_of;
use rf_mail::manager::parse_port;
use rf_mail::{Address, FileMailer, Headers, MailBody, MailBuilder, MemoryMailer, MessageBuilder};

#[test]
fn stored_header_reads_back_and_others_keep() {
    let mut h = Headers::new();
    h.insert("A".to_string(), "1".to_string());
    h.insert("B".to_string(), "2".to_string());
    h.insert("A".to_string(), "3".to_string());
    assert_eq!(h.get("A"), Some(&"3".to_string()));
    assert_eq!(h.get("B"), Some(&"2".to_string()));
    let pairs = h.pairs();
    assert_eq!(pairs, vec![("A".to_string(), "3".to_string()), ("B".to_string(), "2".to_string())]);
}

#[test]
fn sent_message_is_recorded() {
    let mut mailer = MemoryMailer::new();
    let first = MessageBuilder::new()
        .from(Address::new("s@example.com"))
        .to(Address::new("one@example.com"))
        .subject("First")
        .text("x")
        .build()
        .unwrap();
    let second = MessageBuilder::new()
        .from(Address::new("s@example.com"))
        .to(Address::new("two@example.com"))
        .subject("Second")
        .text("y")
        .build()
        .unwrap();
    mailer.send(&first).unwrap();
    mailer.send(&second).unwrap();
    assert!(mailer.was_sent_to("one@example.com"));
    assert!(mailer.was_sent_to("two@example.com"));
    assert!(mailer.was_sent_with_subject("First"));
    assert!(mailer.was_sent_with_subject("Second"));
}

#[test]
fn built_mail_validates_and_converts() {
    let mail = MailBuilder::new()
        .from(Address::new("s@example.com"))
        .to(Address::new("r@example.com"))
        .cc(Address::new("c@example.com"))
        .subject("S")
        .html("<p>h</p>")
        .text("t")
        .build()
        .unwrap();
    assert!(mail.validate().is_ok());
    let message = message_of(&mail).unwrap();
    assert!(message.validate().is_ok());
    assert_eq!(message.html, Some("<p>h</p>".to_string()));
    assert_eq!(message.text, Some("t".to_string()));
    assert!(message.cc.is_empty());
}

#[test]
fn markdown_wins_over_html_and_text() {
    let mail = MailBuilder::new()
        .from(Address::new("s@example.com"))
        .to(Address::new("r@example.com"))
        .subject("S")
        .html("<p>ignored</p>")
        .text("ignored")
        .markdown("**md**")
        .build()
        .unwrap();
    match mail.body {
        MailBody::Both { html, text } => {
            assert!(html.contains("<strong>md</strong>"));
            assert_eq!(text, "md");
        }
        other => panic!("unexpected {other:?}"),
    }
}

#[test]
fn eml_body_has_crlf_line_endings_only() {
    let mail = MailBuilder::new()
        .from(Address::new("s@example.com"))
        .to(Address::new("r@example.com"))
        .subject("S")
        .text("one\ntwo\r\nthree\r\r\nfour")
        .build()
        .unwrap();
    let eml = FileMailer::to_eml_at(&mail, "d");
    let bytes = eml.as_bytes();
    for (i, b) in bytes.iter().enumerate() {
        if *b == b'\n' {
            assert!(i > 0 && bytes[i - 1] == b'\r');
        }
    }
    assert!(eml.ends_with("one\r\ntwo\r\nthree\r\nfour\r\n"));
}

#[test]
fn sanitized_names_are_safe() {
    let s = sanitize("../etc/passwd ñ");
    assert_eq!(s, "___etc_passwd__");
    assert!(s.chars().all(|c| c.is_ascii_alphanumeric() || c == '-' || c == '_'));
    assert_eq!(sanitize("already-safe_1"), "already-safe_1");
}

#[test]
fn port_text_reads_back() {
    for port in [0u16, 7, 25, 587, 1025, 65535] {
        assert_eq!(parse_port(&port.to_string()), Some(port));
    }
}
