use rf_mail::backends::api::api_outcome;
use rf_mail::backends::json::string_array;
use rf_mail::backends::ses::parse_response;
use rf_mail::{
    Address, Attachment, Headers, MailError, MailBuilder, MailgunConfig, MailgunMailer, MailgunRegion,
    PostmarkConfig, PostmarkMailer, SendGridConfig, SendGridMailer, SesConfig, SesMailer,
};

#[test]
fn test_mailgun_config() {
    let config = MailgunConfig {
        api_key: "test-key".to_string(),
        domain: "mg.example.com".to_string(),
        region: MailgunRegion::EU,
        tags: vec!["test".to_string()],
        track_clicks: true,
        track_opens: false,
        test_mode: true,
    };

    assert_eq!(config.api_key, "test-key");
    assert_eq!(config.domain, "mg.example.com");
    assert_eq!(config.region, MailgunRegion::EU);
    assert_eq!(config.tags, vec!["test"]);
    assert!(config.track_clicks);
    assert!(!config.track_opens);
    assert!(config.test_mode);
}

#[test]
fn test_mailgun_region() {
    assert_eq!(MailgunRegion::US.api_base(), "https://api.mailgun.net/v3");
    assert_eq!(MailgunRegion::EU.api_base(), "https://api.eu.mailgun.net/v3");
}

#[test]
fn test_mailgun_mailer_creation() {
    let config = MailgunConfig {
        api_key: "test-key".to_string(),
        domain: "mg.example.com".to_string(),
        ..Default::default()
    };

    let mailer = MailgunMailer::new(config);
    assert_eq!(mailer.config().api_key, "test-key");
    assert_eq!(mailer.config().domain, "mg.example.com");
}

#[test]
fn mailgun_test_build_mail() {
    let mail = MailBuilder::new()
        .from(Address::new("sender@example.com"))
        .to(Address::new("recipient@example.com"))
        .subject("Test")
        .text("Body")
        .build()
        .unwrap();

    assert_eq!(mail.subject, "Test");
    assert_eq!(mail.to.len(), 1);
}

#[test]
fn mailgun_form_and_url() {
    let config = MailgunConfig {
        api_key: "k".to_string(),
        domain: "mg.example.com".to_string(),
        region: MailgunRegion::EU,
        tags: vec!["one".to_string(), "two".to_string()],
        track_clicks: false,
        track_opens: true,
        test_mode: true,
    };
    let mailer = MailgunMailer::new(config);
    assert_eq!(mailer.url(), "https://api.eu.mailgun.net/v3/mg.example.com/messages");
    let mail = MailBuilder::new()
        .from(Address::with_name("s@example.com", "Sender"))
        .to(Address::new("a@example.com"))
        .to(Address::with_name("b@example.com", "Bee"))
        .subject("Hello")
        .html("<p>h</p>")
        .text("t")
        .build()
        .unwrap();
    let form = mailer.form(&mail);
    let part = |k: &str| -> Vec<String> { form.iter().filter(|(key, _)| key == k).map(|(_, v)| v.clone()).collect() };
    assert_eq!(part("from"), vec!["Sender <s@example.com>".to_string()]);
    assert_eq!(part("to"), vec!["a@example.com, Bee <b@example.com>".to_string()]);
    assert!(part("cc").is_empty());
    assert_eq!(part("subject"), vec!["Hello".to_string()]);
    assert_eq!(part("text"), vec!["t".to_string()]);
    assert_eq!(part("html"), vec!["<p>h</p>".to_string()]);
    assert_eq!(part("o:tracking-clicks"), vec!["no".to_string()]);
    assert_eq!(part("o:tracking-opens"), vec!["yes".to_string()]);
    assert_eq!(part("o:testmode"), vec!["yes".to_string()]);
    // One part per tag, in order, after the other fields.
    assert_eq!(part("o:tag"), vec!["one".to_string(), "two".to_string()]);
    let n = form.len();
    assert_eq!(form[n - 2], ("o:tag".to_string(), "one".to_string()));
    assert_eq!(form[n - 1], ("o:tag".to_string(), "two".to_string()));
}

#[test]
fn test_postmark_config() {
    let config = PostmarkConfig {
        server_token: "test-token".to_string(),
        message_stream: Some("outbound".to_string()),
    };

    assert_eq!(config.server_token, "test-token");
    assert_eq!(config.message_stream, Some("outbound".to_string()));
}

#[test]
fn test_postmark_mailer_creation() {
    let config = PostmarkConfig {
        server_token: "test-token".to_string(),
        message_stream: Some("outbound".to_string()),
    };

    let mailer = PostmarkMailer::new(config);
    assert_eq!(mailer.config().server_token, "test-token");
}

#[test]
fn postmark_test_build_mail() {
    let mail = MailBuilder::new()
        .from(Address::new("sender@example.com"))
        .to(Address::new("recipient@example.com"))
        .subject("Test")
        .text("Body")
        .build()
        .unwrap();

    assert_eq!(mail.subject, "Test");
    assert_eq!(mail.to.len(), 1);
}

#[test]
fn postmark_payload_is_json_object() {
    let mailer = PostmarkMailer::new(PostmarkConfig::default());
    let mail = MailBuilder::new()
        .from(Address::new("s@example.com"))
        .to(Address::new("a@example.com"))
        .to(Address::new("b@example.com"))
        .subject("Hi \"there\"")
        .text("line1\nline2")
        .attach_data(b"Hello".to_vec(), "h.txt", "text/plain")
        .build()
        .unwrap();
    let payload = mailer.payload(&mail);
    assert_eq!(
        payload,
        "{\"Attachments\":[{\"Content\":\"SGVsbG8=\",\"ContentType\":\"text/plain\",\"Name\":\"h.txt\"}],\"From\":\"s@example.com\",\"MessageStream\":\"outbound\",\"Subject\":\"Hi \\\"there\\\"\",\"TextBody\":\"line1\\nline2\",\"To\":\"a@example.com,b@example.com\"}"
    );
}

#[test]
fn test_sendgrid_config() {
    let mut custom_args = Headers::new();
    custom_args.insert("campaign".to_string(), "welcome".to_string());

    let config = SendGridConfig {
        api_key: "test-key".to_string(),
        sandbox_mode: true,
        ip_pool_name: Some("transactional".to_string()),
        custom_args,
        categories: vec!["welcome".to_string()],
        click_tracking: true,
        open_tracking: false,
    };

    assert_eq!(config.api_key, "test-key");
    assert!(config.sandbox_mode);
    assert_eq!(config.ip_pool_name, Some("transactional".to_string()));
    assert_eq!(config.categories, vec!["welcome"]);
    assert!(config.click_tracking);
    assert!(!config.open_tracking);
}

#[test]
fn test_sendgrid_mailer_creation() {
    let config = SendGridConfig {
        api_key: "test-key".to_string(),
        ..Default::default()
    };

    let mailer = SendGridMailer::new(config);
    assert_eq!(mailer.config().api_key, "test-key");
}

#[test]
fn sendgrid_test_build_mail() {
    let mail = MailBuilder::new()
        .from(Address::new("sender@example.com"))
        .to(Address::new("recipient@example.com"))
        .subject("Test")
        .text("Body")
        .build()
        .unwrap();

    assert_eq!(mail.subject, "Test");
    assert_eq!(mail.to.len(), 1);
}

#[test]
fn sendgrid_payload_is_json_object() {
    let mut custom_args = Headers::new();
    custom_args.insert("campaign".to_string(), "welcome".to_string());
    let mailer = SendGridMailer::new(SendGridConfig {
        api_key: "key".to_string(),
        sandbox_mode: true,
        ip_pool_name: Some("pool".to_string()),
        custom_args,
        categories: vec!["c1".to_string()],
        click_tracking: true,
        open_tracking: false,
    });
    assert_eq!(mailer.authorization(), "Bearer key");
    let mail = MailBuilder::new()
        .from(Address::with_name("s@example.com", "S"))
        .to(Address::new("a@example.com"))
        .subject("Sub")
        .html("<b>h</b>")
        .text("t")
        .build()
        .unwrap();
    assert_eq!(
        mailer.payload(&mail),
        "{\"categories\":[\"c1\"],\"content\":[{\"type\":\"text/plain\",\"value\":\"t\"},{\"type\":\"text/html\",\"value\":\"<b>h</b>\"}],\"from\":{\"email\":\"s@example.com\",\"name\":\"S\"},\"ip_pool_name\":\"pool\",\"mail_settings\":{\"sandbox_mode\":{\"enable\":true}},\"personalizations\":[{\"custom_args\":{\"campaign\":\"welcome\"},\"to\":[{\"email\":\"a@example.com\"}]}],\"subject\":\"Sub\",\"tracking_settings\":{\"click_tracking\":{\"enable\":true},\"open_tracking\":{\"enable\":false}}}"
    );
}

#[test]
fn test_ses_config() {
    let mut tags = Headers::new();
    tags.insert("campaign".to_string(), "welcome".to_string());

    let config = SesConfig {
        region: "eu-west-1".to_string(),
        access_key_id: "test-key".to_string(),
        secret_access_key: "test-secret".to_string(),
        session_token: Some("test-token".to_string()),
        configuration_set: Some("my-config".to_string()),
        tags,
        use_raw: true,
    };

    assert_eq!(config.region, "eu-west-1");
    assert_eq!(config.access_key_id, "test-key");
    assert_eq!(config.secret_access_key, "test-secret");
    assert_eq!(config.session_token, Some("test-token".to_string()));
    assert_eq!(config.configuration_set, Some("my-config".to_string()));
    assert!(config.use_raw);
}

#[test]
fn test_ses_endpoint() {
    let config = SesConfig {
        region: "us-west-2".to_string(),
        ..Default::default()
    };

    let mailer = SesMailer::new(config);
    assert_eq!(mailer.endpoint_url(), "https://email.us-west-2.amazonaws.com");
}

#[test]
fn test_ses_mailer_creation() {
    let config = SesConfig {
        region: "us-east-1".to_string(),
        access_key_id: "test-key".to_string(),
        secret_access_key: "test-secret".to_string(),
        ..Default::default()
    };

    let mailer = SesMailer::new(config);
    assert_eq!(mailer.config().region, "us-east-1");
    assert_eq!(mailer.config().access_key_id, "test-key");
}

#[test]
fn ses_test_build_mail() {
    let mail = MailBuilder::new()
        .from(Address::new("sender@example.com"))
        .to(Address::new("recipient@example.com"))
        .subject("Test")
        .text("Body")
        .build()
        .unwrap();

    assert_eq!(mail.subject, "Test");
    assert_eq!(mail.to.len(), 1);
}

#[test]
fn ses_request_body_is_form_encoded() {
    let mailer = SesMailer::new(SesConfig::default());
    let mail = MailBuilder::new()
        .from(Address::new("s@example.com"))
        .to(Address::new("a@example.com"))
        .to(Address::new("b@example.com"))
        .subject("Hi there")
        .text("Body & more")
        .build()
        .unwrap();
    assert_eq!(
        mailer.request_body(&mail).unwrap(),
        "Action=SendEmail&Source=s%40example.com&Destination.ToAddresses.member.1=a%40example.com&Destination.ToAddresses.member.2=b%40example.com&Message.Subject.Data=Hi%20there&Message.Subject.Charset=UTF-8&Message.Body.Text.Data=Body%20%26%20more&Message.Body.Text.Charset=UTF-8"
    );
}

#[test]
fn ses_refuses_attachments_without_raw_mode() {
    let mailer = SesMailer::new(SesConfig::default());
    let mail = MailBuilder::new()
        .from(Address::new("s@example.com"))
        .to(Address::new("a@example.com"))
        .subject("S")
        .text("t")
        .attach_attachment(Attachment::new("a.txt", "text/plain", vec![1]))
        .build()
        .unwrap();
    match mailer.request_body(&mail) {
        Err(MailError::SendFailed(m)) => {
            assert_eq!(m, "SES SendEmail does not support attachments. Use use_raw=true for attachments")
        }
        other => panic!("unexpected {other:?}"),
    }
}

#[test]
fn ses_authorization_header_shape() {
    let mailer = SesMailer::new(SesConfig {
        access_key_id: "AKID".to_string(),
        secret_access_key: "secret".to_string(),
        ..Default::default()
    });
    let auth = mailer.authorization_at("20240101", "20240101T000000Z");
    assert!(auth.starts_with("AWS4-HMAC-SHA256 Credential=AKID/20240101/us-east-1/ses/aws4_request, SignedHeaders=host;x-amz-date, Signature="));
    let sig = auth.rsplit('=').next().unwrap();
    assert_eq!(sig.len(), 64);
    assert!(sig.chars().all(|c| c.is_ascii_hexdigit() && !c.is_ascii_uppercase()));
    assert_eq!(auth, mailer.authorization_at("20240101", "20240101T000000Z"));
    assert_ne!(auth, mailer.authorization_at("20240102", "20240102T000000Z"));
}

#[test]
fn ses_response_message_id() {
    let ok = parse_response("<SendEmailResponse><MessageId>abc-123</MessageId></SendEmailResponse>").unwrap();
    assert_eq!(ok.message_id, "abc-123");
    match parse_response("<Error>nope</Error>") {
        Err(MailError::SendFailed(m)) => assert_eq!(m, "Failed to parse SES response"),
        other => panic!("unexpected {other:?}"),
    }
}

#[test]
fn provider_outcome_names_status_and_body() {
    assert!(api_outcome("Mailgun", true, "200 OK", "{}").is_ok());
    match api_outcome("Postmark", false, "422 Unprocessable Entity", "bad") {
        Err(MailError::SendFailed(m)) => assert_eq!(m, "Postmark API error (422 Unprocessable Entity): bad"),
        other => panic!("unexpected {other:?}"),
    }
}

#[test]
fn json_quoting_escapes() {
    assert_eq!(string_array(&vec!["\u{1}\t\u{8}\u{c}\r\u{1f}é".to_string()]), "[\"\\u0001\\t\\b\\f\\r\\u001fé\"]");
    assert_eq!(string_array(&vec!["a\"b\\c\n".to_string()]), "[\"a\\\"b\\\\c\\n\"]");
}
