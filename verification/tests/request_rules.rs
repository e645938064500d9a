use rf_mail::request_rules::{parse_i32_exec, rule_named, validate_request, RequestField, RequestRule};

fn field(name: &str, rules: Vec<RequestRule>) -> RequestField {
    RequestField { name: name.to_string(), validations: rules }
}

fn values(v: &[&str]) -> Vec<String> {
    v.iter().map(|s| s.to_string()).collect()
}

fn create_user() -> Vec<RequestField> {
    vec![
        field("email", vec![RequestRule::Email]),
        field("name", vec![RequestRule::Length { min: Some(3), max: Some(50) }]),
        field(
            "password",
            vec![RequestRule::Length { min: Some(8), max: None }, RequestRule::Uppercase, RequestRule::Number],
        ),
        field("age", vec![RequestRule::Range { min: 18, max: 120 }]),
    ]
}

#[test]
fn every_failing_rule_is_reported_in_order() {
    let errors = validate_request(&create_user(), &values(&["bob", "Al", "secret", "12"])).unwrap_err();
    assert_eq!(
        errors,
        values(&[
            "email must be a valid email",
            "name must be between 3 and 50 characters",
            "password must be at least 8 characters",
            "password must contain at least one uppercase letter",
            "password must contain at least one number",
            "age must be between 18 and 120",
        ])
    );
}

#[test]
fn a_valid_form_passes() {
    assert!(validate_request(&create_user(), &values(&["bob@x.io", "Alice", "Secret123", "30"])).is_ok());
    assert!(validate_request(&vec![], &vec![]).is_ok());
}

#[test]
fn range_reads_an_i32() {
    let f = vec![field("x", vec![RequestRule::Range { min: -10, max: -1 }])];
    assert!(validate_request(&f, &values(&["abc"])).is_ok());
    assert!(validate_request(&f, &values(&["-5"])).is_ok());
    assert_eq!(validate_request(&f, &values(&["+0"])).unwrap_err(), values(&["x must be between -10 and -1"]));
    assert!(validate_request(&f, &values(&["99999999999"])).is_ok());
    assert_eq!(parse_i32_exec("-2147483648"), Some(i32::MIN));
    assert_eq!(parse_i32_exec("2147483648"), None);
    assert_eq!(parse_i32_exec("+42"), Some(42));
    assert_eq!(parse_i32_exec("-"), None);
    assert_eq!(parse_i32_exec(" 1"), None);
}

#[test]
fn length_counts_bytes() {
    let f = vec![field("w", vec![RequestRule::Length { min: Some(3), max: None }])];
    assert!(validate_request(&f, &values(&["éé"])).is_ok());
    assert_eq!(validate_request(&f, &values(&["é"])).unwrap_err(), values(&["w must be at least 3 characters"]));
}

#[test]
fn unicode_letters_and_digits_count() {
    let f = vec![field("p", vec![RequestRule::Uppercase, RequestRule::Number])];
    assert!(validate_request(&f, &values(&["Ä٣"])).is_ok());
}

#[test]
fn rule_words() {
    assert_eq!(rule_named("uppercase"), Some(RequestRule::Uppercase));
    assert_eq!(rule_named("number"), Some(RequestRule::Number));
    assert_eq!(rule_named("optional"), Some(RequestRule::Optional));
    assert_eq!(rule_named("length"), None);
    assert_eq!(rule_named("range"), None);
    assert_eq!(rule_named("email"), Some(RequestRule::Email));
    assert_eq!(rule_named("whatever"), Some(RequestRule::Email));
    assert!(field("a", vec![RequestRule::Optional]).is_optional());
    assert!(!field("a", vec![RequestRule::Email]).is_optional());
    let opt = vec![field("nick", vec![RequestRule::Optional])];
    assert!(validate_request(&opt, &values(&[""])).is_ok());
}
