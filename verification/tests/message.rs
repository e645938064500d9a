use rf_mail::{Address, Attachment, Message};

#[test]
fn test_message_new() {
    let msg = Message::new();
    assert!(!msg.id.is_empty());
    assert!(msg.to.is_empty());
}

#[test]
fn test_message_validate() {
    let mut msg = Message::new();

    // Missing from
    assert!(msg.validate().is_err());

    msg.from = Address::new("sender@example.com");

    // Missing to
    assert!(msg.validate().is_err());

    msg.to.push(Address::new("recipient@example.com"));

    // Missing subject
    assert!(msg.validate().is_err());

    msg.subject = "Test".into();

    // Missing body
    assert!(msg.validate().is_err());

    msg.text = Some("Hello".into());

    // Valid
    assert!(msg.validate().is_ok());
}

#[test]
fn test_recipient_count() {
    let mut msg = Message::new();
    msg.to.push(Address::new("to@example.com"));
    msg.cc.push(Address::new("cc@example.com"));
    msg.bcc.push(Address::new("bcc@example.com"));

    assert_eq!(msg.recipient_count(), 3);
}

#[test]
fn message_attachment_size_sums_bytes() {
    let mut msg = Message::new();
    assert_eq!(msg.attachment_size(), 0);
    msg.attachments.push(Attachment::new("a", "text/plain", vec![1, 2, 3]));
    msg.attachments.push(Attachment::new("b", "text/plain", vec![4]));
    assert_eq!(msg.attachment_size(), 4);
}

#[test]
fn message_ids_are_uuid_length() {
    let a = Message::new();
    assert_eq!(a.id.len(), 36);
}
