use rf_mail::{Address, MailError, MessageBuilder};

#[test]
fn builder_test_builder_basic() {
    let message = MessageBuilder::new()
        .from(Address::new("sender@example.com"))
        .to(Address::new("recipient@example.com"))
        .subject("Test")
        .text("Hello")
        .build()
        .unwrap();

    assert_eq!(message.from.email, "sender@example.com");
    assert_eq!(message.to.len(), 1);
    assert_eq!(message.subject, "Test");
    assert_eq!(message.text, Some("Hello".into()));
}

#[test]
fn builder_test_builder_validation() {
    let result = MessageBuilder::new().build();
    assert!(result.is_err());
}

#[test]
fn builder_test_builder_to_many() {
    let addresses = vec![
        Address::new("user1@example.com"),
        Address::new("user2@example.com"),
    ];

    let message = MessageBuilder::new()
        .from(Address::new("sender@example.com"))
        .to_many(addresses)
        .subject("Test")
        .text("Hello")
        .build()
        .unwrap();

    assert_eq!(message.to.len(), 2);
}

#[test]
fn test_builder_headers() {
    let message = MessageBuilder::new()
        .from(Address::new("sender@example.com"))
        .to(Address::new("recipient@example.com"))
        .subject("Test")
        .text("Hello")
        .header("X-Custom", "value")
        .build()
        .unwrap();

    assert_eq!(message.headers.get("X-Custom"), Some(&"value".to_string()));
}

#[test]
fn builder_reports_first_missing_part() {
    match MessageBuilder::new().build() {
        Err(MailError::InvalidMessage(m)) => assert_eq!(m, "From address is required"),
        other => panic!("unexpected {other:?}"),
    }
    match MessageBuilder::new().from(Address::new("a@example.com")).build() {
        Err(MailError::InvalidMessage(m)) => assert_eq!(m, "At least one To address is required"),
        other => panic!("unexpected {other:?}"),
    }
    match MessageBuilder::new()
        .from(Address::new("a@example.com"))
        .to(Address::new("b@example.com"))
        .build()
    {
        Err(MailError::InvalidMessage(m)) => assert_eq!(m, "Subject is required"),
        other => panic!("unexpected {other:?}"),
    }
    match MessageBuilder::new()
        .from(Address::new("a@example.com"))
        .to(Address::new("b@example.com"))
        .subject("S")
        .build()
    {
        Err(MailError::InvalidMessage(m)) => assert_eq!(m, "Either HTML or text body is required"),
        other => panic!("unexpected {other:?}"),
    }
}

#[test]
fn builder_header_overwrites_same_name() {
    let message = MessageBuilder::new()
        .from(Address::new("sender@example.com"))
        .to(Address::new("recipient@example.com"))
        .subject("Test")
        .text("Hello")
        .header("X-A", "1")
        .header("X-B", "2")
        .header("X-A", "3")
        .build()
        .unwrap();
    assert_eq!(message.headers.len(), 2);
    assert_eq!(message.headers.get("X-A"), Some(&"3".to_string()));
    assert_eq!(message.headers.get("X-B"), Some(&"2".to_string()));
    assert_eq!(message.headers.get("X-C"), None);
}
