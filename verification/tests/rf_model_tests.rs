use rf_mail::rf_model::{ModelMeta, RfAttr};

fn strings(items: &[&str]) -> Vec<String> {
    items.iter().map(|s| s.to_string()).collect()
}

fn user() -> ModelMeta {
    ModelMeta::derive(
        "User",
        &vec![
            RfAttr::Table("users".to_string()),
            RfAttr::Hidden(strings(&["password", "remember_token"])),
            RfAttr::Fillable(strings(&["name", "email", "password"])),
            RfAttr::Guarded(strings(&["id"])),
            RfAttr::Timestamps,
        ],
    )
    .unwrap()
}

fn product() -> ModelMeta {
    ModelMeta::derive("Product", &vec![]).unwrap()
}

fn post() -> ModelMeta {
    ModelMeta::derive(
        "Post",
        &vec![
            RfAttr::Table("posts".to_string()),
            RfAttr::Fillable(strings(&["title", "body"])),
            RfAttr::SoftDelete,
        ],
    )
    .unwrap()
}

fn setting() -> ModelMeta {
    ModelMeta::derive(
        "Setting",
        &vec![RfAttr::Table("settings".to_string()), RfAttr::Guarded(strings(&["id", "key"]))],
    )
    .unwrap()
}

#[test]
fn test_table_name_explicit() {
    assert_eq!(user().table_name(), "users");
}

#[test]
fn test_table_name_default_snake_case_plural() {
    assert_eq!(product().table_name(), "products");
}

#[test]
fn test_table_name_explicit_posts() {
    assert_eq!(post().table_name(), "posts");
}

#[test]
fn test_hidden_fields_contains_password() {
    assert!(user().hidden_fields().contains(&"password"), "hidden_fields should contain 'password'");
}

#[test]
fn test_hidden_fields_contains_remember_token() {
    assert!(
        user().hidden_fields().contains(&"remember_token"),
        "hidden_fields should contain 'remember_token'"
    );
}

#[test]
fn test_hidden_fields_length() {
    assert_eq!(user().hidden_fields().len(), 2);
}

#[test]
fn test_fillable_fields_user() {
    let u = user();
    let fillable = u.fillable_fields();
    assert!(fillable.contains(&"name"));
    assert!(fillable.contains(&"email"));
    assert!(fillable.contains(&"password"));
    assert_eq!(fillable.len(), 3);
}

#[test]
fn test_fillable_fields_post() {
    let p = post();
    let fillable = p.fillable_fields();
    assert!(fillable.contains(&"title"));
    assert!(fillable.contains(&"body"));
}

#[test]
fn test_fillable_fields_empty_when_not_set() {
    assert_eq!(product().fillable_fields().len(), 0);
}

#[test]
fn test_guarded_fields_user() {
    let u = user();
    let guarded = u.guarded_fields();
    assert!(guarded.contains(&"id"));
    assert_eq!(guarded.len(), 1);
}

#[test]
fn test_guarded_fields_setting() {
    let s = setting();
    let guarded = s.guarded_fields();
    assert!(guarded.contains(&"id"));
    assert!(guarded.contains(&"key"));
    assert_eq!(guarded.len(), 2);
}

#[test]
fn test_uses_timestamps_true() {
    assert!(user().uses_timestamps(), "User should use timestamps");
}

#[test]
fn test_uses_timestamps_false_by_default() {
    assert!(!product().uses_timestamps(), "Product should not use timestamps");
}

#[test]
fn test_uses_soft_delete_false_by_default() {
    assert!(!user().uses_soft_delete(), "User should not use soft delete");
}

#[test]
fn test_uses_soft_delete_true_when_set() {
    assert!(post().uses_soft_delete(), "Post should use soft delete");
}

#[test]
fn test_table_name_is_static_str() {
    let u = user();
    let p = product();
    let _: &str = u.table_name();
    let _: &str = p.table_name();
}

#[test]
fn test_methods_callable_multiple_times() {
    let u = user();
    assert_eq!(u.hidden_fields(), u.hidden_fields());
    assert_eq!(u.fillable_fields(), u.fillable_fields());
    assert_eq!(u.guarded_fields(), u.guarded_fields());
    assert_eq!(u.table_name(), u.table_name());
}

#[test]
fn default_table_name_splits_camel_case() {
    assert_eq!(ModelMeta::derive("BlogPost", &vec![]).unwrap().table_name(), "blog_posts");
}

#[test]
fn unknown_attribute_is_refused() {
    let err = ModelMeta::derive("X", &vec![RfAttr::Unknown("tabel".to_string())]).unwrap_err();
    assert_eq!(
        err,
        "Unknown rf attribute: `tabel`. Expected one of: table, hidden, fillable, guarded, timestamps, soft_delete"
    );
}

#[test]
fn repeated_list_attributes_extend() {
    let m = ModelMeta::derive(
        "X",
        &vec![RfAttr::Hidden(strings(&["a"])), RfAttr::Hidden(strings(&["b", "c"])), RfAttr::Table("t1".to_string()), RfAttr::Table("t2".to_string())],
    )
    .unwrap();
    assert_eq!(m.hidden_fields(), vec!["a", "b", "c"]);
    assert_eq!(m.table_name(), "t2");
}
