use rf_mail::field_types::{infer_field_rule, is_option_type, GenericArg, Segment, TypeExpr};
use rf_mail::naming::rule_type_name;
use rf_mail::validation_rules::{
    direct_attr_rule, parse_rule_with_args, parse_single_rule, rule_constructor, AttrForm, CallArgs, NestedTail,
    RuleSyntaxError, ValidationRule,
};

#[test]
fn nested_rules_by_name() {
    assert!(matches!(parse_single_rule("required", &NestedTail::Nothing), Ok(ValidationRule::Required)));
    assert!(matches!(parse_single_rule("alpha_num", &NestedTail::Nothing), Ok(ValidationRule::AlphaNum)));
    match parse_single_rule("min", &NestedTail::Parens("3".to_string())) {
        Ok(ValidationRule::Min(v)) => assert_eq!(v, "3"),
        other => panic!("unexpected {other:?}"),
    }
    match parse_single_rule("maxLength", &NestedTail::Parens("255".to_string())) {
        Ok(ValidationRule::MaxLength(v)) => assert_eq!(v, "255"),
        other => panic!("unexpected {other:?}"),
    }
    match parse_single_rule("same", &NestedTail::Parens("password".to_string())) {
        Ok(ValidationRule::Same(v)) => assert_eq!(v, "password"),
        other => panic!("unexpected {other:?}"),
    }
}

#[test]
fn nested_rule_errors() {
    assert!(matches!(parse_single_rule("min", &NestedTail::Nothing), Err(RuleSyntaxError::ExpectedParentheses)));
    assert!(matches!(parse_single_rule("required", &NestedTail::Parens("x".to_string())), Err(RuleSyntaxError::ExpectedComma)));
    // A two-argument rule needs a comma between its arguments.
    assert!(matches!(
        parse_single_rule("between", &NestedTail::Parens("1".to_string())),
        Err(RuleSyntaxError::ExpectedComma)
    ));
    // A comma inside brackets or a string literal separates nothing.
    assert!(matches!(
        parse_single_rule("unique", &NestedTail::Parens("f(a, b) \"x,y\"".to_string())),
        Err(RuleSyntaxError::ExpectedComma)
    ));
    assert!(matches!(parse_single_rule("custom", &NestedTail::Other), Err(RuleSyntaxError::ExpectedComma)));
}

#[test]
fn custom_nested_rules() {
    match parse_single_rule("strong_password", &NestedTail::Nothing) {
        Ok(ValidationRule::Custom(name, args)) => {
            assert_eq!(name, "strong_password");
            assert!(args.is_empty());
        }
        other => panic!("unexpected {other:?}"),
    }
    match parse_single_rule("in_range", &NestedTail::Parens("1, 10".to_string())) {
        Ok(ValidationRule::Custom(name, args)) => {
            assert_eq!(name, "in_range");
            assert_eq!(args, vec!["1, 10".to_string()]);
        }
        other => panic!("unexpected {other:?}"),
    }
}

#[test]
fn attribute_rules() {
    assert!(matches!(direct_attr_rule("email", &AttrForm::Path), Some(ValidationRule::Email)));
    assert!(direct_attr_rule("serde", &AttrForm::Path).is_none());
    match direct_attr_rule("min", &AttrForm::List("8".to_string())) {
        Some(ValidationRule::Min(v)) => assert_eq!(v, "8"),
        other => panic!("unexpected {other:?}"),
    }
    match parse_rule_with_args("between", "1, 5") {
        ValidationRule::Custom(name, args) => {
            assert_eq!(name, "between");
            assert_eq!(args, vec!["1, 5".to_string()]);
        }
        other => panic!("unexpected {other:?}"),
    }
}

#[test]
fn rule_constructors() {
    let (path, args) = rule_constructor(&ValidationRule::AlphaNum);
    assert_eq!(path, "rf_validation::rules::AlphaNumericRule");
    assert!(matches!(args, CallArgs::NoCall));
    let (path, args) = rule_constructor(&ValidationRule::Unique("users".to_string(), "email".to_string()));
    assert_eq!(path, "rf_validation::rules::SimpleUniqueRule");
    match args {
        CallArgs::Args(a) => assert_eq!(a, vec!["users".to_string(), "email".to_string()]),
        other => panic!("unexpected {other:?}"),
    }
    let (path, args) = rule_constructor(&ValidationRule::Custom("MyRule".to_string(), vec![]));
    assert_eq!(path, "MyRule");
    assert!(matches!(args, CallArgs::NoCall));
    let (_, args) = rule_constructor(&ValidationRule::In(vec!["a".to_string(), "b".to_string()]));
    assert!(matches!(args, CallArgs::StringList(ref v) if v.len() == 2));
    assert_eq!(rule_type_name("min"), "MinRule");
}

fn path(name: &str, args: Vec<GenericArg>) -> TypeExpr {
    TypeExpr::Path(vec![Segment { ident: name.to_string(), args }])
}

#[test]
fn field_type_inference() {
    assert_eq!(infer_field_rule(&path("String", vec![]), true), ("string".to_string(), true));
    assert_eq!(infer_field_rule(&path("i64", vec![]), true), ("integer".to_string(), true));
    assert_eq!(infer_field_rule(&path("MyType", vec![]), true), ("".to_string(), true));
    let opt = path("Option", vec![GenericArg::Type(path("bool", vec![]))]);
    assert_eq!(infer_field_rule(&opt, true), ("boolean".to_string(), false));
    assert!(is_option_type(&opt));
    assert!(!is_option_type(&TypeExpr::Other));
    let nested = path("Option", vec![GenericArg::Type(path("Option", vec![GenericArg::Type(path("f64", vec![]))]))]);
    assert_eq!(infer_field_rule(&nested, true), ("numeric".to_string(), false));
    assert_eq!(infer_field_rule(&path("Option", vec![GenericArg::Other]), true), ("".to_string(), false));
    assert_eq!(infer_field_rule(&TypeExpr::Other, true), ("".to_string(), true));
}

#[test]
fn nested_pair_rules() {
    match parse_single_rule("between", &NestedTail::Parens("1, 5".to_string())) {
        Ok(ValidationRule::Between(a, b)) => {
            assert_eq!(a, "1");
            assert_eq!(b, "5");
        }
        other => panic!("unexpected {other:?}"),
    }
    match parse_single_rule("unique", &NestedTail::Parens("\"users\", \"email\"".to_string())) {
        Ok(ValidationRule::Unique(a, b)) => {
            assert_eq!(a, "\"users\"");
            assert_eq!(b, "\"email\"");
        }
        other => panic!("unexpected {other:?}"),
    }
    match parse_single_rule("exists", &NestedTail::Parens("f(a, b) , [1, 2]".to_string())) {
        Ok(ValidationRule::Exists(a, b)) => {
            assert_eq!(a, "f(a, b)");
            assert_eq!(b, "[1, 2]");
        }
        other => panic!("unexpected {other:?}"),
    }
    match parse_single_rule("between", &NestedTail::Parens("\"a\\\",b\", 2".to_string())) {
        Ok(ValidationRule::Between(a, b)) => {
            assert_eq!(a, "\"a\\\",b\"");
            assert_eq!(b, "2");
        }
        other => panic!("unexpected {other:?}"),
    }
}
