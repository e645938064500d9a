use rf_mail::validate_dsl::{file_check, validate_impl, FieldDecl, Modifier, RulePlan};

fn m(name: &str, args: usize) -> Modifier {
    Modifier { name: name.to_string(), args }
}

fn f(name: &str, ty: &str, ops: Vec<Modifier>) -> FieldDecl {
    FieldDecl { name: name.to_string(), ty: ty.to_string(), ops }
}

#[test]
fn documented_example_rules() {
    let fields = vec![
        f("title", "string", vec![m("max", 1)]),
        f("email", "email", vec![]),
        f("age", "int", vec![m("min", 1)]),
        f("bio", "string", vec![m("optional", 0)]),
        f("ref_id", "int", vec![m("exists", 2)]),
    ];
    let plan = validate_impl(&fields).unwrap();
    assert!(plan.files.is_empty());
    let names: Vec<&str> = plan.rules.iter().map(|r| r.field.as_str()).collect();
    assert_eq!(names, vec!["title", "email", "age", "bio", "ref_id"]);
    assert_eq!(plan.rules[0].rules, vec![RulePlan::Required, RulePlan::Base("StringRule"), RulePlan::MaxLength(0)]);
    assert_eq!(plan.rules[1].rules, vec![RulePlan::Required, RulePlan::Base("EmailRule")]);
    assert_eq!(plan.rules[2].rules, vec![RulePlan::Required, RulePlan::Base("IntegerRule"), RulePlan::Min(0)]);
    assert_eq!(plan.rules[3].rules, vec![RulePlan::Base("StringRule")]);
    assert_eq!(plan.rules[4].rules, vec![RulePlan::Required, RulePlan::Base("IntegerRule"), RulePlan::Exists(0)]);
}

#[test]
fn type_decides_length_or_number() {
    let fields = vec![
        f("count", "float", vec![m("max", 1), m("min", 1)]),
        f("code", "text", vec![m("nullable", 0), m("min", 1), m("between", 2)]),
        f("flag", "bool", vec![]),
        f("maybe", "boolean", vec![m("optional", 0)]),
        f("nick", "string", vec![m("unique", 2)]),
    ];
    let plan = validate_impl(&fields).unwrap();
    assert_eq!(plan.rules[0].rules, vec![RulePlan::Required, RulePlan::Base("NumericRule"), RulePlan::Max(0), RulePlan::Min(1)]);
    assert_eq!(plan.rules[1].rules, vec![RulePlan::Base("StringRule"), RulePlan::MinLength(1), RulePlan::Between(2)]);
    assert_eq!(plan.rules[2].rules, vec![RulePlan::Required]);
    assert!(plan.rules[3].rules.is_empty());
    assert_eq!(plan.rules[4].rules, vec![RulePlan::Required, RulePlan::Base("StringRule"), RulePlan::Unique(0)]);
}

#[test]
fn refusals() {
    let unknown_type = validate_impl(&vec![f("x", "money", vec![])]).unwrap_err();
    assert_eq!(
        unknown_type,
        "validate!: unknown field type `money` (expected string/text/email/url/uuid/ip/int/float/decimal/date/array/bool/image/file)"
    );
    let unknown_mod = validate_impl(&vec![f("x", "string", vec![m("trim", 0)])]).unwrap_err();
    assert_eq!(unknown_mod, "validate!: unknown modifier `.trim`");
    let unique = validate_impl(&vec![f("x", "string", vec![m("unique", 1)])]).unwrap_err();
    assert_eq!(unique, "validate!: `.unique(table, column)` requires exactly two arguments");
    let exists = validate_impl(&vec![f("x", "int", vec![m("exists", 3)])]).unwrap_err();
    assert_eq!(exists, "validate!: `.exists(table, column)` requires exactly two arguments");
    let first_wins = validate_impl(&vec![f("a", "money", vec![]), f("b", "string", vec![m("trim", 0)])]).unwrap_err();
    assert!(first_wins.starts_with("validate!: unknown field type `money`"));
}

#[test]
fn file_fields() {
    let fields = vec![
        f("title", "string", vec![]),
        f("avatar", "image", vec![m("max", 1), m("mime", 2)]),
        f("doc", "file", vec![m("optional", 0), m("min", 1), m("mimes", 1), m("min", 0)]),
    ];
    let plan = validate_impl(&fields).unwrap();
    assert_eq!(plan.rules.len(), 1);
    assert_eq!(plan.files.len(), 2);
    let avatar = &plan.files[0];
    assert_eq!(avatar.field, "avatar");
    assert!(!avatar.optional);
    assert!(avatar.image);
    assert_eq!(avatar.mime, vec![(1, 0), (1, 1)]);
    assert_eq!(avatar.min, None);
    assert_eq!(avatar.max, Some(0));
    let doc = &plan.files[1];
    assert!(doc.optional);
    assert!(!doc.image);
    assert_eq!(doc.mime, vec![(2, 0)]);
    assert_eq!(doc.min, None);
}

#[test]
fn file_modifier_refused() {
    let e = file_check(&f("doc", "file", vec![m("between", 2)])).unwrap_err();
    assert_eq!(e, "validate!: unknown modifier `.between` for a file field (expected optional/min/max/mime)");
    let via_plan = validate_impl(&vec![f("pic", "image", vec![m("exists", 2)])]).unwrap_err();
    assert_eq!(via_plan, "validate!: unknown modifier `.exists` for a image field (expected optional/min/max/mime)");
    let ok = file_check(&f("doc", "file", vec![m("min", 1)])).unwrap();
    assert_eq!(ok.min, Some(0));
}
