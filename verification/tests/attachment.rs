use rf_mail::attachment::guess_content_type;
use rf_mail::Attachment;

#[test]
fn test_attachment_new() {
    let data = b"Hello, World!".to_vec();
    let attachment = Attachment::new("hello.txt", "text/plain", data.clone());

    assert_eq!(attachment.filename, "hello.txt");
    assert_eq!(attachment.content_type, "text/plain");
    assert_eq!(attachment.data, data);
}

#[test]
fn test_attachment_size() {
    let data = b"Hello, World!".to_vec();
    let attachment = Attachment::new("hello.txt", "text/plain", data);

    assert_eq!(attachment.size(), 13);
}

#[test]
fn attachment_from_data_keeps_fields() {
    let a = Attachment::from_data(vec![1, 2, 3], "x.bin".to_string(), "application/octet-stream".to_string());
    assert_eq!(a.filename, "x.bin");
    assert_eq!(a.content_type, "application/octet-stream");
    assert_eq!(a.size(), 3);
}

#[test]
fn guessing_content_types_by_extension() {
    assert_eq!(guess_content_type("report.PDF"), "application/pdf");
    assert_eq!(guess_content_type("photo.jpeg"), "image/jpeg");
    assert_eq!(guess_content_type("notes.txt"), "text/plain");
    assert_eq!(guess_content_type("archive.unknownext"), "application/octet-stream");
}
