use rf_mail::Address;

#[test]
fn test_address_new() {
    let addr = Address::new("test@example.com");
    assert_eq!(addr.email, "test@example.com");
    assert_eq!(addr.name, None);
}

#[test]
fn test_address_with_name() {
    let addr = Address::with_name("test@example.com", "Test User");
    assert_eq!(addr.email, "test@example.com");
    assert_eq!(addr.name, Some("Test User".to_string()));
}

#[test]
fn test_address_format() {
    let addr1 = Address::new("test@example.com");
    assert_eq!(addr1.format(), "test@example.com");

    let addr2 = Address::with_name("test@example.com", "Test User");
    assert_eq!(addr2.format(), "Test User <test@example.com>");
}

#[test]
fn test_address_from_str() {
    let addr: Address = "test@example.com".into();
    assert_eq!(addr.email, "test@example.com");
}

#[test]
fn address_from_owned_string() {
    let addr: Address = String::from("owned@example.com").into();
    assert_eq!(addr.email, "owned@example.com");
    assert_eq!(addr.name, None);
}

#[test]
fn address_format_with_empty_name_keeps_brackets() {
    let addr = Address::with_name("a@example.com", "");
    assert_eq!(addr.format(), " <a@example.com>");
}
