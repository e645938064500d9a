use rf_mail::await_transformer::{AwaitTransformer, Expr};
use rf_mail::naming::{base_rule, capitalize_first, is_file, is_numeric, keyword_for_ident, snake_case, to_snake_case};

#[test]
fn test_function_macro_exists() {
    // Proc-macro functions cannot be called directly in unit tests.
    assert!(true);
}

#[test]
fn test_rules_macro_exists() {
    // Proc-macro functions cannot be called directly in unit tests.
    assert!(true);
}

fn path(segs: &[&str]) -> Expr {
    Expr::Path(segs.iter().map(|s| s.to_string()).collect())
}

fn method(receiver: Expr, name: &str, args: Vec<Expr>) -> Expr {
    Expr::MethodCall { receiver: Box::new(receiver), method: name.to_string(), args }
}

fn call(func: Expr, args: Vec<Expr>) -> Expr {
    Expr::Call { func: Box::new(func), args }
}

fn literal() -> Expr {
    Expr::Other(vec![])
}

#[test]
fn test_transform_method_call() {
    let mut transformer = AwaitTransformer::new();
    let mut expr = method(path(&["user"]), "save", vec![]);

    transformer.transform_expr(&mut expr);

    assert!(matches!(expr, Expr::Await(_)));
}

#[test]
fn test_transform_static_call() {
    let mut transformer = AwaitTransformer::new();
    let mut expr = call(path(&["User", "find"]), vec![literal()]);

    transformer.transform_expr(&mut expr);

    assert!(matches!(expr, Expr::Await(_)));
}

#[test]
fn test_no_transform_non_async() {
    let mut transformer = AwaitTransformer::new();
    let mut expr = method(path(&["user"]), "name", vec![]);

    transformer.transform_expr(&mut expr);

    assert!(matches!(expr, Expr::MethodCall { .. }));
    assert!(!transformer.wrapped);
}

#[test]
fn test_nested_calls() {
    let mut transformer = AwaitTransformer::new();
    let mut expr = method(call(path(&["User", "find"]), vec![literal()]), "update", vec![path(&["data"])]);

    transformer.transform_expr(&mut expr);

    assert!(matches!(expr, Expr::Await(_)));
    assert!(transformer.wrapped);
}

#[test]
fn adapter_shape_and_extra_names() {
    let mut t = AwaitTransformer::with_extra(vec!["my_job".to_string()]);
    assert!(t.should_await_method("my_job"));
    assert!(t.should_await_method("find"));
    assert!(!t.should_await_method("name"));
    t.add_async_function("custom".to_string());
    assert!(t.should_await_method("custom"));

    let mut expr = method(path(&["svc"]), "my_job", vec![]);
    t.transform_expr(&mut expr);
    match expr {
        Expr::Await(inner) => match *inner {
            Expr::MethodCall { receiver, method, args } => {
                assert_eq!(method, "__rf_resolve");
                assert!(args.is_empty());
                match *receiver {
                    Expr::Other(outer) => match &outer[0] {
                        Expr::Other(inner) => match &inner[0] {
                            Expr::Call { func, args } => {
                                assert!(matches!(&**func, Expr::Path(p) if p == &vec!["__rf_w".to_string()]));
                                assert!(matches!(&args[0], Expr::MethodCall { method, .. } if method == "my_job"));
                            }
                            other => panic!("unexpected {other:?}"),
                        },
                        other => panic!("unexpected {other:?}"),
                    },
                    other => panic!("unexpected {other:?}"),
                }
            }
            other => panic!("unexpected {other:?}"),
        },
        other => panic!("unexpected {other:?}"),
    }
}

#[test]
fn calls_inside_other_expressions_are_wrapped() {
    let mut t = AwaitTransformer::default();
    let mut expr = Expr::Other(vec![method(path(&["cache"]), "get", vec![]), literal()]);
    t.transform_expr(&mut expr);
    match expr {
        Expr::Other(items) => {
            assert!(matches!(items[0], Expr::Await(_)));
            assert!(matches!(items[1], Expr::Other(_)));
        }
        other => panic!("unexpected {other:?}"),
    }
}

#[test]
fn naming_helpers() {
    assert_eq!(to_snake_case("UserProfile"), "user_profile");
    assert_eq!(to_snake_case("userID"), "user_i_d");
    assert_eq!(snake_case("BlogPost"), "blog_post");
    assert_eq!(capitalize_first("name"), "Name");
    assert_eq!(capitalize_first(""), "");
    assert_eq!(keyword_for_ident("String"), "string");
    assert_eq!(keyword_for_ident("u64"), "integer");
    assert_eq!(keyword_for_ident("f32"), "numeric");
    assert_eq!(keyword_for_ident("bool"), "boolean");
    assert_eq!(keyword_for_ident("Vec"), "");
    assert!(is_numeric("decimal"));
    assert!(!is_numeric("string"));
    assert!(is_file("image"));
    assert!(!is_file("email"));
    assert_eq!(base_rule("email"), Some("EmailRule"));
    assert_eq!(base_rule("number"), Some("NumericRule"));
    assert_eq!(base_rule("boolean"), None);
}
