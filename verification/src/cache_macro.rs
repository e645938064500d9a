//! The `cache!` forms: `cache!("key")`, `cache!("key", default)`,
//! `cache!(put: "key", value, ttl)`, `cache!(forever: "key", value)`,
//! `cache!(forget: "key")`, `cache!(has: "key")`, `cache!(flush)`,
//! `cache!(remember: "key", ttl, closure)` and
//! `cache!(remember_forever: "key", closure)`, each a call of the `Cache`
//! method of the same name.
//!
//! The input is a token sequence (see [`BladeToken`]); the plan names the
//! method and where in the sequence its arguments stand. An argument
//! expression runs from its first token to the next `,` outside any group;
//! a closure's `|..|` parameter list (after an optional `move`) is part of
//! it, commas included.
use vstd::prelude::*;
use crate::blade::{BladeToken, is_ident, is_punct, token_text};
use crate::text::str_eq;

verus! {

/// A token of a macro's input.
pub type MacroToken = BladeToken;

/// The `Cache` method a `cache!` form calls.
#[derive(Debug, Clone, Copy, PartialEq, Eq, Structural)]
pub enum CacheMethod {
    Get,
    Put,
    Forever,
    Forget,
    Has,
    Flush,
    Remember,
    RememberForever,
}

/// The tokens `start..end` of an argument expression.
#[derive(Debug, Clone, Copy, PartialEq, Eq, Structural)]
pub struct TokenRange {
    pub start: usize,
    pub end: usize,
}

/// The call a `cache!` form makes: the method, the index of the key literal
/// (none for `flush`), and the half-open token ranges of the value, the ttl,
/// the closure and the default, where the form has them.
#[derive(Debug, Clone, Copy, PartialEq, Eq, Structural)]
pub struct CachePlan {
    pub method: CacheMethod,
    pub key: Option<usize>,
    pub value: Option<TokenRange>,
    pub ttl: Option<TokenRange>,
    pub closure: Option<TokenRange>,
    pub default: Option<TokenRange>,
}

/// Why a `cache!` input is refused, with the index of the token (or the end)
/// where it goes wrong.
#[derive(Debug, Clone, Copy, PartialEq, Eq, Structural)]
pub enum CacheSyntaxError {
    /// a string literal key was expected
    ExpectedKey(usize),
    /// `:` was expected after the method word
    ExpectedColon(usize),
    /// `,` was expected before the next argument
    ExpectedComma(usize),
    /// an argument expression was expected
    ExpectedExpr(usize),
    /// the form is complete but tokens follow
    Unexpected(usize),
}

/// The method a leading word names, for the forms written `word: ..` (and
/// `flush`).
pub open spec fn cache_word(w: Seq<char>) -> Option<CacheMethod> {
    if w == "put"@ {
        Some(CacheMethod::Put)
    } else if w == "forever"@ {
        Some(CacheMethod::Forever)
    } else if w == "forget"@ {
        Some(CacheMethod::Forget)
    } else if w == "has"@ {
        Some(CacheMethod::Has)
    } else if w == "flush"@ {
        Some(CacheMethod::Flush)
    } else if w == "remember"@ {
        Some(CacheMethod::Remember)
    } else if w == "remember_forever"@ {
        Some(CacheMethod::RememberForever)
    } else {
        None
    }
}

/// Whether `t` is a string literal (`"..."` or a raw `r"..."` / `r#"..."#`).
pub open spec fn is_str_lit(t: BladeToken) -> bool {
    t matches BladeToken::Literal(s) && s@.len() > 0 && (s@[0] == '"' || (s@[0] == 'r' && s@.len() > 1 && (
    s@[1] == '"' || s@[1] == '#')))
}

/// The index of the first token at or after `i` that is the punctuation
/// `c` (the length if none).
pub open spec fn punct_from(ts: Seq<BladeToken>, i: int, c: char) -> int
    decreases ts.len() - i,
{
    if i >= ts.len() {
        ts.len() as int
    } else if is_punct(ts[i], c) {
        i
    } else {
        punct_from(ts, i + 1, c)
    }
}

/// The end of the argument expression that starts at `i`: the next
/// top-level `,` (or the end), looking past a leading closure parameter list.
pub open spec fn expr_end(ts: Seq<BladeToken>, i: int) -> int {
    if i < ts.len() && is_punct(ts[i], '|') {
        let k = punct_from(ts, i + 1, '|');
        if k < ts.len() {
            punct_from(ts, k + 1, ',')
        } else {
            ts.len() as int
        }
    } else if i + 1 < ts.len() && is_ident(ts[i], "move"@) && is_punct(ts[i + 1], '|') {
        let k = punct_from(ts, i + 2, '|');
        if k < ts.len() {
            punct_from(ts, k + 1, ',')
        } else {
            ts.len() as int
        }
    } else {
        punct_from(ts, i, ',')
    }
}

/// `, expr` read from index `i`: the expression's token range.
pub open spec fn comma_expr(ts: Seq<BladeToken>, i: int) -> Result<TokenRange, CacheSyntaxError> {
    if !(i < ts.len() && is_punct(ts[i], ',')) {
        Err(CacheSyntaxError::ExpectedComma(i as usize))
    } else if !(i + 1 < ts.len()) || is_punct(ts[i + 1], ',') {
        Err(CacheSyntaxError::ExpectedExpr((i + 1) as usize))
    } else {
        Ok(TokenRange { start: (i + 1) as usize, end: expr_end(ts, i + 1) as usize })
    }
}

/// `plan` when the tokens end at `i`, else the token there is unexpected.
pub open spec fn finish(ts: Seq<BladeToken>, i: int, plan: CachePlan) -> Result<CachePlan, CacheSyntaxError> {
    if i == ts.len() {
        Ok(plan)
    } else {
        Err(CacheSyntaxError::Unexpected(i as usize))
    }
}

/// A plan with the method and key and no arguments.
pub open spec fn bare_plan(method: CacheMethod, key: Option<usize>) -> CachePlan {
    CachePlan { method, key, value: None, ttl: None, closure: None, default: None }
}

/// The keyword forms after `word:` and the key at index 2.
pub open spec fn keyed_form(ts: Seq<BladeToken>, m: CacheMethod) -> Result<CachePlan, CacheSyntaxError> {
    let plan = bare_plan(m, Some(2));
    match m {
        CacheMethod::Put | CacheMethod::Remember => match comma_expr(ts, 3) {
            Err(e) => Err(e),
            Ok(a) => match comma_expr(ts, a.end as int) {
                Err(e) => Err(e),
                Ok(b) => finish(
                    ts,
                    b.end as int,
                    if m == CacheMethod::Put {
                        CachePlan { value: Some(a), ttl: Some(b), ..plan }
                    } else {
                        CachePlan { ttl: Some(a), closure: Some(b), ..plan }
                    },
                ),
            },
        },
        CacheMethod::Forever | CacheMethod::RememberForever => match comma_expr(ts, 3) {
            Err(e) => Err(e),
            Ok(a) => finish(
                ts,
                a.end as int,
                if m == CacheMethod::Forever {
                    CachePlan { value: Some(a), ..plan }
                } else {
                    CachePlan { closure: Some(a), ..plan }
                },
            ),
        },
        _ => finish(ts, 3, plan),
    }
}

/// The `cache!` grammar: a leading method word (`put`, `forever`,
/// `forget`, `has`, `remember`, `remember_forever`, followed by `:` and the
/// key; or `flush` alone) or else the get form, a key with an optional
/// `, default`.
pub open spec fn cache_grammar(ts: Seq<BladeToken>) -> Result<CachePlan, CacheSyntaxError> {
    if ts.len() > 0 && ts[0] is Ident && cache_word(token_text(ts[0])) is Some {
        let m = cache_word(token_text(ts[0]))->Some_0;
        if m == CacheMethod::Flush {
            finish(ts, 1, bare_plan(CacheMethod::Flush, None))
        } else if !(1 < ts.len() && is_punct(ts[1], ':')) {
            Err(CacheSyntaxError::ExpectedColon(1))
        } else if !(2 < ts.len() && is_str_lit(ts[2])) {
            Err(CacheSyntaxError::ExpectedKey(2))
        } else {
            keyed_form(ts, m)
        }
    } else if !(0 < ts.len() && is_str_lit(ts[0])) {
        Err(CacheSyntaxError::ExpectedKey(0))
    } else if ts.len() == 1 {
        Ok(bare_plan(CacheMethod::Get, Some(0)))
    } else if !is_punct(ts[1], ',') {
        Err(CacheSyntaxError::Unexpected(1))
    } else {
        match comma_expr(ts, 1) {
            Err(e) => Err(e),
            Ok(a) => finish(ts, a.end as int, CachePlan { default: Some(a), ..bare_plan(CacheMethod::Get, Some(0)) }),
        }
    }
}

proof fn lemma_punct_bounds(ts: Seq<BladeToken>, i: int, c: char)
    requires
        0 <= i,
    ensures
        i <= ts.len() ==> i <= punct_from(ts, i, c) <= ts.len(),
        i > ts.len() ==> punct_from(ts, i, c) == ts.len(),
    decreases ts.len() - i,
{
    if i < ts.len() {
        lemma_punct_bounds(ts, i + 1, c);
    }
}

fn is_punct_exec(t: &BladeToken, c: char) -> (r: bool)
    ensures
        r == is_punct(*t, c),
{
    match t {
        BladeToken::Punct(p) => *p == c,
        _ => false,
    }
}

fn is_ident_exec(t: &BladeToken, name: &str) -> (r: bool)
    ensures
        r == is_ident(*t, name@),
{
    match t {
        BladeToken::Ident(s) => str_eq(s.as_str(), name),
        _ => false,
    }
}

fn is_str_lit_exec(t: &BladeToken) -> (r: bool)
    ensures
        r == is_str_lit(*t),
{
    match t {
        BladeToken::Literal(s) => {
            let v = crate::text::chars_of(s.as_str());
            v.len() > 0 && (v[0] == '"' || (v[0] == 'r' && v.len() > 1 && (v[1] == '"' || v[1] == '#')))
        },
        _ => false,
    }
}

fn punct_index(ts: &Vec<BladeToken>, i: usize, c: char) -> (j: usize)
    requires
        i <= ts.len(),
    ensures
        j == punct_from(ts@, i as int, c),
{
    let mut j = i;
    while j < ts.len() && !is_punct_exec(&ts[j], c)
        invariant
            i <= j <= ts.len(),
            punct_from(ts@, i as int, c) == punct_from(ts@, j as int, c),
        decreases ts.len() - j,
    {
        j = j + 1;
    }
    j
}

fn expr_end_exec(ts: &Vec<BladeToken>, i: usize) -> (e: usize)
    requires
        i < ts.len(),
    ensures
        e == expr_end(ts@, i as int),
        i <= e <= ts.len(),
{
    proof {
        lemma_punct_bounds(ts@, i as int, ',');
        lemma_punct_bounds(ts@, i + 1, '|');
    }
    if is_punct_exec(&ts[i], '|') {
        let k = punct_index(ts, i + 1, '|');
        if k < ts.len() {
            proof {
                lemma_punct_bounds(ts@, k + 1, ',');
            }
            punct_index(ts, k + 1, ',')
        } else {
            ts.len()
        }
    } else if i + 1 < ts.len() && is_ident_exec(&ts[i], "move") && is_punct_exec(&ts[i + 1], '|') {
        proof {
            lemma_punct_bounds(ts@, i + 2, '|');
        }
        let k = punct_index(ts, i + 2, '|');
        if k < ts.len() {
            proof {
                lemma_punct_bounds(ts@, k + 1, ',');
            }
            punct_index(ts, k + 1, ',')
        } else {
            ts.len()
        }
    } else {
        punct_index(ts, i, ',')
    }
}

fn comma_expr_exec(ts: &Vec<BladeToken>, i: usize) -> (r: Result<TokenRange, CacheSyntaxError>)
    requires
        i <= ts.len(),
    ensures
        r == comma_expr(ts@, i as int),
        r matches Ok(a) ==> a.end <= ts.len(),
{
    if !(i < ts.len() && is_punct_exec(&ts[i], ',')) {
        Err(CacheSyntaxError::ExpectedComma(i))
    } else if !(i + 1 < ts.len()) || is_punct_exec(&ts[i + 1], ',') {
        Err(CacheSyntaxError::ExpectedExpr(i + 1))
    } else {
        Ok(TokenRange { start: i + 1, end: expr_end_exec(ts, i + 1) })
    }
}

fn finish_exec(ts: &Vec<BladeToken>, i: usize, plan: CachePlan) -> (r: Result<CachePlan, CacheSyntaxError>)
    ensures
        r == finish(ts@, i as int, plan),
{
    if i == ts.len() {
        Ok(plan)
    } else {
        Err(CacheSyntaxError::Unexpected(i))
    }
}

fn word_of(t: &BladeToken) -> (r: Option<CacheMethod>)
    ensures
        r == (if *t is Ident {
            cache_word(token_text(*t))
        } else {
            None
        }),
{
    match t {
        BladeToken::Ident(s) => {
            let w = s.as_str();
            if str_eq(w, "put") {
                Some(CacheMethod::Put)
            } else if str_eq(w, "forever") {
                Some(CacheMethod::Forever)
            } else if str_eq(w, "forget") {
                Some(CacheMethod::Forget)
            } else if str_eq(w, "has") {
                Some(CacheMethod::Has)
            } else if str_eq(w, "flush") {
                Some(CacheMethod::Flush)
            } else if str_eq(w, "remember") {
                Some(CacheMethod::Remember)
            } else if str_eq(w, "remember_forever") {
                Some(CacheMethod::RememberForever)
            } else {
                None
            }
        },
        _ => None,
    }
}

fn keyed_form_exec(ts: &Vec<BladeToken>, m: CacheMethod) -> (r: Result<CachePlan, CacheSyntaxError>)
    requires
        3 <= ts.len(),
    ensures
        r == keyed_form(ts@, m),
{
    let plan = CachePlan { method: m, key: Some(2), value: None, ttl: None, closure: None, default: None };
    match m {
        CacheMethod::Put | CacheMethod::Remember => match comma_expr_exec(ts, 3) {
            Err(e) => Err(e),
            Ok(a) => match comma_expr_exec(ts, a.end) {
                Err(e) => Err(e),
                Ok(b) => finish_exec(
                    ts,
                    b.end,
                    if m == CacheMethod::Put {
                        CachePlan { value: Some(a), ttl: Some(b), ..plan }
                    } else {
                        CachePlan { ttl: Some(a), closure: Some(b), ..plan }
                    },
                ),
            },
        },
        CacheMethod::Forever | CacheMethod::RememberForever => match comma_expr_exec(ts, 3) {
            Err(e) => Err(e),
            Ok(a) => finish_exec(
                ts,
                a.end,
                if m == CacheMethod::Forever {
                    CachePlan { value: Some(a), ..plan }
                } else {
                    CachePlan { closure: Some(a), ..plan }
                },
            ),
        },
        _ => finish_exec(ts, 3, plan),
    }
}

/// The call a `cache!` form makes, or where its tokens break the grammar
/// (see [`cache_grammar`]).
pub fn cache_plan(ts: &Vec<MacroToken>) -> (r: Result<CachePlan, CacheSyntaxError>)
    ensures
        r == cache_grammar(ts@),
{
    let word = if ts.len() > 0 {
        word_of(&ts[0])
    } else {
        None
    };
    match word {
        Some(m) => {
            if m == CacheMethod::Flush {
                finish_exec(
                    ts,
                    1,
                    CachePlan { method: CacheMethod::Flush, key: None, value: None, ttl: None, closure: None, default: None },
                )
            } else if !(1 < ts.len() && is_punct_exec(&ts[1], ':')) {
                Err(CacheSyntaxError::ExpectedColon(1))
            } else if !(2 < ts.len() && is_str_lit_exec(&ts[2])) {
                Err(CacheSyntaxError::ExpectedKey(2))
            } else {
                keyed_form_exec(ts, m)
            }
        },
        None => {
            let get = CachePlan {
                method: CacheMethod::Get,
                key: Some(0),
                value: None,
                ttl: None,
                closure: None,
                default: None,
            };
            if !(0 < ts.len() && is_str_lit_exec(&ts[0])) {
                Err(CacheSyntaxError::ExpectedKey(0))
            } else if ts.len() == 1 {
                Ok(get)
            } else if !is_punct_exec(&ts[1], ',') {
                Err(CacheSyntaxError::Unexpected(1))
            } else {
                match comma_expr_exec(ts, 1) {
                    Err(e) => Err(e),
                    Ok(a) => finish_exec(ts, a.end, CachePlan { default: Some(a), ..get }),
                }
            }
        },
    }
}

} // verus!
