use rf_mail::laravel_model::{model_impl, ModelMember, RelationMethod};

fn field(n: &str, t: &str) -> ModelMember {
    ModelMember::Field { name: n.to_string(), ty: t.to_string() }
}

#[test]
fn documented_post_model() {
    let members = vec![
        field("id", "i32"),
        field("user_id", "i32"),
        field("title", "String"),
        ModelMember::Timestamps,
        ModelMember::BelongsTo { model: "User".to_string(), foreign_key: "user_id".to_string() },
        ModelMember::HasMany { model: "Comment".to_string() },
    ];
    let m = model_impl("Post", "posts", &members);
    assert_eq!(m.name, "Post");
    assert_eq!(m.table, "posts");
    let names: Vec<&str> = m.fields.iter().map(|f| f.0.as_str()).collect();
    assert_eq!(names, vec!["id", "user_id", "title", "created_at", "updated_at"]);
    assert_eq!(m.fields[3].1, "Option<chrono::DateTime<chrono::Utc>>");
    assert_eq!(
        m.relations,
        vec![
            RelationMethod { method: "user".into(), related: "User".into(), foreign_key: "user_id".into(), many: false },
            RelationMethod {
                method: "comments".into(),
                related: "Comment".into(),
                foreign_key: "post_id".into(),
                many: true,
            },
        ]
    );
}

#[test]
fn camel_case_names_are_lowercased_whole() {
    let m = model_impl("BlogPost", "blog_posts", &vec![ModelMember::HasMany { model: "TagLink".to_string() }]);
    assert_eq!(m.relations[0].method, "taglinks");
    assert_eq!(m.relations[0].foreign_key, "blogpost_id");
    assert!(m.fields.is_empty());
}
