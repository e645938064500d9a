use rf_mail::blade::{BladeToken, Delim};
use rf_mail::cache_macro::{cache_plan, CacheMethod, CachePlan, CacheSyntaxError, TokenRange};

fn ident(s: &str) -> BladeToken {
    BladeToken::Ident(s.to_string())
}

fn punct(c: char) -> BladeToken {
    BladeToken::Punct(c)
}

fn lit(s: &str) -> BladeToken {
    BladeToken::Literal(s.to_string())
}

fn r(start: usize, end: usize) -> Option<TokenRange> {
    Some(TokenRange { start, end })
}

fn plan(method: CacheMethod, key: Option<usize>) -> CachePlan {
    CachePlan { method, key, value: None, ttl: None, closure: None, default: None }
}

#[test]
fn cache_documented_forms() {
    assert_eq!(cache_plan(&vec![lit("\"key\"")]), Ok(plan(CacheMethod::Get, Some(0))));
    let put = vec![ident("put"), punct(':'), lit("\"key\""), punct(','), ident("value"), punct(','), lit("3600")];
    assert_eq!(cache_plan(&put), Ok(CachePlan { value: r(4, 5), ttl: r(6, 7), ..plan(CacheMethod::Put, Some(2)) }));
    let forget = vec![ident("forget"), punct(':'), lit("\"key\"")];
    assert_eq!(cache_plan(&forget), Ok(plan(CacheMethod::Forget, Some(2))));
}

#[test]
fn cache_other_forms() {
    assert_eq!(cache_plan(&vec![ident("flush")]), Ok(plan(CacheMethod::Flush, None)));
    assert_eq!(
        cache_plan(&vec![ident("has"), punct(':'), lit("r\"k\"")]),
        Ok(plan(CacheMethod::Has, Some(2)))
    );
    let forever = vec![ident("forever"), punct(':'), lit("\"k\""), punct(','), ident("a"), punct('+'), ident("b")];
    assert_eq!(cache_plan(&forever), Ok(CachePlan { value: r(4, 7), ..plan(CacheMethod::Forever, Some(2)) }));
    let body = BladeToken::Group { delim: Delim::Brace, inner: vec![ident("x")], stream_text: "x".into(), text: "{ x }".into() };
    let remember = vec![
        ident("remember"), punct(':'), lit("\"k\""), punct(','), lit("60"), punct(','),
        punct('|'), ident("a"), punct(','), ident("b"), punct('|'), body,
    ];
    assert_eq!(
        cache_plan(&remember),
        Ok(CachePlan { ttl: r(4, 5), closure: r(6, 12), ..plan(CacheMethod::Remember, Some(2)) })
    );
    let forever_closure = vec![
        ident("remember_forever"), punct(':'), lit("\"k\""), punct(','), ident("move"), punct('|'), punct('|'), ident("f"),
    ];
    assert_eq!(
        cache_plan(&forever_closure),
        Ok(CachePlan { closure: r(4, 8), ..plan(CacheMethod::RememberForever, Some(2)) })
    );
    let default = vec![lit("\"k\""), punct(','), ident("fallback"), punct('('), punct(')')];
    assert_eq!(cache_plan(&default), Ok(CachePlan { default: r(2, 5), ..plan(CacheMethod::Get, Some(0)) }));
}

#[test]
fn cache_refusals() {
    assert_eq!(cache_plan(&vec![]), Err(CacheSyntaxError::ExpectedKey(0)));
    assert_eq!(cache_plan(&vec![ident("key")]), Err(CacheSyntaxError::ExpectedKey(0)));
    assert_eq!(cache_plan(&vec![ident("put"), lit("\"k\"")]), Err(CacheSyntaxError::ExpectedColon(1)));
    assert_eq!(cache_plan(&vec![ident("has"), punct(':'), ident("k")]), Err(CacheSyntaxError::ExpectedKey(2)));
    assert_eq!(
        cache_plan(&vec![ident("put"), punct(':'), lit("\"k\""), punct(','), ident("v")]),
        Err(CacheSyntaxError::ExpectedComma(5))
    );
    assert_eq!(cache_plan(&vec![lit("\"k\""), punct(',')]), Err(CacheSyntaxError::ExpectedExpr(2)));
    assert_eq!(cache_plan(&vec![lit("\"k\""), ident("x")]), Err(CacheSyntaxError::Unexpected(1)));
    assert_eq!(cache_plan(&vec![ident("flush"), punct(',')]), Err(CacheSyntaxError::Unexpected(1)));
    assert_eq!(
        cache_plan(&vec![ident("forget"), punct(':'), lit("\"k\""), punct(','), ident("v")]),
        Err(CacheSyntaxError::Unexpected(3))
    );
}
