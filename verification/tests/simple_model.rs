use rf_mail::field_types::{GenericArg, Segment, TypeExpr};
use rf_mail::simple_model::{
    generate_full_model, generate_simple_model, simple_model_impl, str_sorts_first, FieldOverride, InferredField,
    ModelDef, ModelItem, ModelPlan, RelationType, Relationship, SimpleField,
};

fn path(name: &str) -> TypeExpr {
    TypeExpr::Path(vec![Segment { ident: name.to_string(), args: vec![] }])
}

fn option_of(inner: TypeExpr) -> TypeExpr {
    TypeExpr::Path(vec![Segment { ident: "Option".to_string(), args: vec![GenericArg::Type(inner)] }])
}

fn field(name: &str, ty: TypeExpr) -> SimpleField {
    SimpleField { hidden: false, name: name.to_string(), ty, overrides: vec![] }
}

fn relation(rel_type: RelationType, name: &str, related: &str) -> Relationship {
    Relationship { rel_type, name: name.to_string(), related: related.to_string(), foreign_key: None, pivot_table: None }
}

fn rule(f: &str, k: &str, r: bool) -> (String, String, bool) {
    (f.to_string(), k.to_string(), r)
}

fn user_plan() -> ModelPlan {
    let mut email = field("email", path("String"));
    email.overrides.push(FieldOverride::Email);
    let mut password = field("password", path("String"));
    password.hidden = true;
    let fields = vec![field("name", path("String")), email, password, field("age", option_of(path("i64")))];
    let rels = vec![
        relation(RelationType::HasMany, "posts", "Post"),
        relation(RelationType::BelongsTo, "team", "Team"),
        relation(RelationType::BelongsToMany, "roles", "Role"),
    ];
    generate_full_model("User", &None, &fields, &rels, true, false, false)
}

#[test]
fn full_model_columns_and_rules() {
    let plan = user_plan();
    assert_eq!(plan.name, "User");
    assert_eq!(plan.table, "users");
    assert_eq!(plan.fillable, vec!["name".to_string(), "email".to_string(), "age".to_string()]);
    assert_eq!(plan.hidden, vec!["password".to_string()]);
    assert!(plan.timestamps);
    assert!(!plan.soft_deletes);
    assert_eq!(
        plan.rules,
        vec![rule("name", "string", true), rule("email", "string", true), rule("password", "string", true), rule("age", "integer", false)]
    );
    assert_eq!(plan.create_name, "CreateUser");
    assert_eq!(plan.update_name, "UpdateUser");
    assert_eq!(
        plan.update_rules,
        vec![rule("name", "string", false), rule("email", "string", false), rule("password", "string", false), rule("age", "integer", false)]
    );
    assert_eq!(plan.update_wrapped, vec![true, true, true, false]);
}

#[test]
fn full_model_request_checks() {
    let plan = user_plan();
    let checks = plan.dto_checks.expect("an override opts the model in");
    assert_eq!(checks.create.len(), 4);
    assert_eq!(checks.create[0].field, "name");
    assert!(!checks.create[0].optional);
    assert_eq!(checks.create[0].presence, Some("The name field is required.".to_string()));
    assert!(checks.create[0].checks.is_empty());
    assert_eq!(checks.create[1].checks.len(), 1);
    assert!(matches!(checks.create[1].checks[0].rule, FieldOverride::Email));
    assert_eq!(checks.create[1].checks[0].message, "The email field must be a valid email address.");
    assert!(checks.create[3].optional);
    assert_eq!(checks.create[3].presence, None);
    for c in &checks.update {
        assert!(c.optional);
        assert_eq!(c.presence, None);
    }
    assert_eq!(checks.update[1].checks.len(), 1);
}

#[test]
fn full_model_relations() {
    let plan = user_plan();
    let posts = &plan.relations[0];
    assert_eq!(posts.related_table, "posts");
    assert_eq!(posts.foreign_key, Some("user_id".to_string()));
    assert_eq!(posts.loader, Some("load_posts_for".to_string()));
    assert_eq!(posts.pivot_table, None);
    let team = &plan.relations[1];
    assert_eq!(team.rel_type, RelationType::BelongsTo);
    assert_eq!(team.related_table, "teams");
    assert_eq!(team.foreign_key, Some("team_id".to_string()));
    let roles = &plan.relations[2];
    assert_eq!(roles.foreign_key, None);
    assert_eq!(roles.loader, None);
    assert_eq!(roles.pivot_table, Some("role_user".to_string()));
}

#[test]
fn with_relations_dispatch_and_refusal() {
    let plan = user_plan();
    let ok = plan.with_relations(&vec!["team".to_string(), "posts".to_string()]).unwrap();
    assert_eq!(ok, vec!["load_team_for".to_string(), "load_posts_for".to_string()]);
    assert_eq!(plan.with_relations(&vec![]).unwrap(), Vec::<String>::new());
    let err = plan.with_relations(&vec!["posts".to_string(), "roles".to_string(), "ghost".to_string()]).unwrap_err();
    assert_eq!(err, "with_relations: unknown or non-eager relation `roles` on users");
}

#[test]
fn explicit_table_and_no_checks() {
    let fields = vec![field("title", path("String"))];
    let plan = generate_full_model("Post", &Some("articles".to_string()), &fields, &vec![], false, true, false);
    assert_eq!(plan.table, "articles");
    assert!(!plan.timestamps);
    assert!(plan.soft_deletes);
    assert!(plan.dto_checks.is_none());
    assert!(plan.relations.is_empty());
}

#[test]
fn validated_marker_emits_checks_and_camel_case_table() {
    let fields = vec![field("count", path("u32"))];
    let plan = generate_full_model("BlogPost", &None, &fields, &vec![], true, false, true);
    assert_eq!(plan.table, "blog_posts");
    let checks = plan.dto_checks.unwrap();
    assert_eq!(checks.create[0].presence, None);
    assert!(checks.create[0].checks.is_empty());
}

#[test]
fn length_overrides_apply_to_strings_only() {
    let mut title = field("title", path("String"));
    title.overrides = vec![FieldOverride::Min(3), FieldOverride::Max(200), FieldOverride::Regex("^[a-z]+$".to_string())];
    let mut age = field("age", path("i32"));
    age.overrides = vec![FieldOverride::Max(5), FieldOverride::Email, FieldOverride::Url];
    let plan = generate_full_model("Item", &None, &vec![title, age], &vec![], true, false, false);
    let checks = plan.dto_checks.unwrap();
    let t = &checks.create[0].checks;
    assert_eq!(t.len(), 3);
    assert_eq!(t[0].message, "The title field must be at least 3 characters.");
    assert_eq!(t[1].message, "The title field must be at most 200 characters.");
    assert_eq!(t[2].message, "The title field must match the pattern ^[a-z]+$.");
    let a = &checks.create[1].checks;
    assert_eq!(a.len(), 1);
    assert_eq!(a[0].message, "The age field must be a valid email address.");
}

#[test]
fn compact_syntax_plan() {
    let fields = vec![
        InferredField { hidden: false, name: "body".to_string() },
        InferredField { hidden: true, name: "secret".to_string() },
    ];
    let plan = generate_simple_model("Comment", &fields);
    assert_eq!(plan.table, "comments");
    assert_eq!(plan.fillable, vec!["body".to_string()]);
    assert_eq!(plan.hidden, vec!["secret".to_string()]);
    assert_eq!(plan.rules, vec![rule("body", "string", true), rule("secret", "string", true)]);
    assert_eq!(plan.update_rules, vec![rule("body", "string", false), rule("secret", "string", false)]);
    assert_eq!(plan.update_wrapped, vec![true, true]);
    assert!(plan.timestamps);
    assert!(plan.dto_checks.is_none());
}

#[test]
fn compact_syntax_matches_full_syntax_of_strings() {
    let compact = generate_simple_model(
        "Tag",
        &vec![InferredField { hidden: false, name: "label".to_string() }, InferredField { hidden: true, name: "key".to_string() }],
    );
    let mut key = field("key", path("String"));
    key.hidden = true;
    let full = generate_full_model("Tag", &None, &vec![field("label", path("String")), key], &vec![], true, false, false);
    assert_eq!(compact.table, full.table);
    assert_eq!(compact.fillable, full.fillable);
    assert_eq!(compact.hidden, full.hidden);
    assert_eq!(compact.rules, full.rules);
    assert_eq!(compact.update_rules, full.update_rules);
    assert_eq!(compact.update_wrapped, full.update_wrapped);
}

#[test]
fn pivot_table_is_the_same_from_either_side() {
    let post = generate_full_model("Post", &None, &vec![], &vec![relation(RelationType::BelongsToMany, "tags", "Tag")], true, false, false);
    let tag = generate_full_model("Tag", &None, &vec![], &vec![relation(RelationType::BelongsToMany, "posts", "Post")], true, false, false);
    assert_eq!(post.relations[0].pivot_table, Some("post_tag".to_string()));
    assert_eq!(tag.relations[0].pivot_table, Some("post_tag".to_string()));
    assert!(str_sorts_first("post", "tag"));
    assert!(!str_sorts_first("tag", "post"));
    assert!(str_sorts_first("tag", "tags"));
    assert!(str_sorts_first("", ""));
}

#[test]
fn explicit_keys_win() {
    let mut rel = relation(RelationType::HasOne, "profile", "Profile");
    rel.foreign_key = Some("owner".to_string());
    let mut many = relation(RelationType::BelongsToMany, "groups", "Group");
    many.pivot_table = Some("memberships".to_string());
    let plan = generate_full_model("User", &None, &vec![], &vec![rel, many], true, false, false);
    assert_eq!(plan.relations[0].foreign_key, Some("owner".to_string()));
    assert_eq!(plan.relations[0].loader, Some("load_profile_for".to_string()));
    assert_eq!(plan.relations[1].pivot_table, Some("memberships".to_string()));
}

#[test]
fn body_items_fold_into_declaration() {
    let items = vec![
        ModelItem::Table("first".to_string()),
        ModelItem::Field(field("a", path("String"))),
        ModelItem::Timestamps(false),
        ModelItem::Relation(relation(RelationType::HasMany, "bs", "B")),
        ModelItem::SoftDeletes,
        ModelItem::Table("second".to_string()),
        ModelItem::Field(field("c", path("bool"))),
    ];
    let def = ModelDef::full("Thing".to_string(), items);
    match &def {
        ModelDef::Full { name, table, fields, relationships, timestamps, soft_deletes, validated } => {
            assert_eq!(name, "Thing");
            assert_eq!(table, &Some("second".to_string()));
            assert_eq!(fields.len(), 2);
            assert_eq!(fields[1].name, "c");
            assert_eq!(relationships.len(), 1);
            assert!(!*timestamps);
            assert!(*soft_deletes);
            assert!(!*validated);
        }
        ModelDef::Simple { .. } => panic!("expected the full syntax"),
    }
    let plan = simple_model_impl(&def);
    assert_eq!(plan.table, "second");
    assert_eq!(plan.rules, vec![rule("a", "string", true), rule("c", "boolean", true)]);

    let defaults = ModelDef::full("Empty".to_string(), vec![ModelItem::Validated]);
    match defaults {
        ModelDef::Full { table, timestamps, soft_deletes, validated, .. } => {
            assert_eq!(table, None);
            assert!(timestamps);
            assert!(!soft_deletes);
            assert!(validated);
        }
        ModelDef::Simple { .. } => panic!("expected the full syntax"),
    }
}
