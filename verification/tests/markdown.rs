use rf_mail::markdown::{button, markdown_to_text, panel, process_buttons, process_components, process_panels, render_markdown, table};

#[test]
fn test_render_markdown() {
    let md = "# Hello\n\nThis is **bold** text.";
    let html = render_markdown(md).unwrap();

    assert!(html.contains("<h1>"));
    assert!(html.contains("<strong>"));
}

#[test]
fn test_markdown_to_text() {
    let md = "# Hello\n\n**Bold** and *italic* text.";
    let text = markdown_to_text(md);

    assert!(!text.contains('#'));
    assert!(!text.contains('*'));
    assert!(text.contains("Hello"));
    assert!(text.contains("Bold"));
}

#[test]
fn test_button_component() {
    let md = "@button(https://example.com)\nClick Me\n@endbutton";
    let result = process_buttons(md).unwrap();

    assert!(result.contains("href=\"https://example.com\""));
    assert!(result.contains("Click Me"));
    assert!(result.contains("<a"));
}

#[test]
fn test_panel_component() {
    let md = "@panel\nImportant message\n@endpanel";
    let result = process_panels(md).unwrap();

    assert!(result.contains("Important message"));
    assert!(result.contains("<div"));
    assert!(result.contains("background-color"));
}

#[test]
fn test_table_component() {
    let md = r#"@table
| Name | Age | City |
|------|-----|------|
| Alice | 30 | NYC |
| Bob | 25 | LA |
@endtable"#;

    let result = process_components(md).unwrap();

    assert!(result.contains("<table"));
    assert!(result.contains("Name"));
    assert!(result.contains("Alice"));
    assert!(result.contains("NYC"));
}

#[test]
fn test_button_helper() {
    let component = button("Click Here", "https://example.com");
    assert!(component.contains("@button(https://example.com)"));
    assert!(component.contains("Click Here"));
}

#[test]
fn test_table_helper() {
    let component = table(
        vec!["Name", "Age"],
        vec![vec!["Alice", "30"], vec!["Bob", "25"]],
    );
    assert!(component.contains("@table"));
    assert!(component.contains("Name"));
    assert!(component.contains("Alice"));
}

#[test]
fn helpers_give_exact_component_text() {
    assert_eq!(button("Go", "https://x.test"), "@button(https://x.test)\nGo\n@endbutton");
    assert_eq!(panel("Note"), "@panel\nNote\n@endpanel");
    assert_eq!(
        table(vec!["A", "B"], vec![vec!["1", "2"]]),
        "@table\n| A | B |\n|---|---|\n| 1 | 2 |\n@endtable"
    );
}

#[test]
fn table_helper_output_renders_as_html_table() {
    let md = table(vec!["Name", "Age"], vec![vec!["Alice", "30"], vec!["Bob", "25"]]);
    let html = process_components(&md).unwrap();
    assert!(html.contains("<th"));
    assert!(html.contains(">Name</th>"));
    assert!(html.contains(">Alice</td>"));
    assert!(html.contains(">25</td>"));
    assert!(!html.contains("@table"));
}

#[test]
fn markdown_to_text_strips_links_and_headers() {
    assert_eq!(markdown_to_text("## Title\nSee [docs](https://d.test) now"), "Title\nSee docs now");
}

#[test]
fn text_without_components_is_unchanged() {
    let md = "plain *text* with no components";
    assert_eq!(process_components(md).unwrap(), md);
}

#[test]
fn multi_line_panel_is_rendered() {
    let md = "@panel\nline one\nline two\n@endpanel";
    let result = process_panels(md).unwrap();
    assert!(result.contains("line one\nline two"));
    assert!(result.starts_with("<div"));
    assert!(!result.contains("@endpanel"));
}
