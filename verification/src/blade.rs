//! Blade-style templates: how a template's tokens become the
//! operations that build its output.
//!
//! A template is a sequence of tokens. `@if cond { .. }`, `@else`,
//! `@foreach x in xs { .. }`, `@for`, `@while`, `@match`, `@isset(v) { .. }`,
//! `@empty(v) { .. }`, `@auth`, `@guest`, `@csrf`, `@method(..)`,
//! `@include(..)`, `@json(..)`, `@raw { .. }`, `@verbatim { .. }`,
//! `@rust { .. }` (or `@php`), `@env(..)` and `@class(..)` are directives;
//! `{{ expr }}` prints an escaped value and `{!! expr !!}` an unescaped one;
//! string literals and `<...>` tags are copied to the output; anything else
//! is passed through as code. Operations refer to the tokens they use by
//! their index in the token sequence they were read from.
use vstd::prelude::*;
use crate::text::{push_char, push_str, str_eq};

verus! {

/// The delimiter of a token group.
#[derive(Debug, Clone, Copy, PartialEq, Eq, Structural)]
pub enum Delim {
    /// `{ .. }`
    Brace,
    /// `( .. )`
    Paren,
    /// `[ .. ]`
    Bracket,
    /// an invisible group
    Invisible,
}

/// A template token. A group holds its tokens, the text of its contents and
/// its own text; an identifier or literal is held by its text.
#[derive(Debug)]
pub enum BladeToken {
    Ident(String),
    Punct(char),
    Literal(String),
    Group { delim: Delim, inner: Vec<BladeToken>, stream_text: String, text: String },
}

/// The directives of the form `@name head { body }`.
#[derive(Debug, Clone, Copy, PartialEq, Eq, Structural)]
pub enum Guard {
    If,
    ElseIf,
    For,
    While,
    Match,
}

/// The directives of the form `@name(argument)` (`@rust { .. }` too).
#[derive(Debug, Clone, Copy, PartialEq, Eq, Structural)]
pub enum ArgDirective {
    Method,
    Include,
    Json,
    Rust,
    Env,
    Class,
}

/// One operation of a compiled template. Indices refer to the token
/// sequence the operation was read from; `head` ranges are half-open.
#[derive(Debug, PartialEq, Eq)]
pub enum BladeOp {
    /// append text to the output
    Text(String),
    /// append the escaped value of the expression in the inner braces of
    /// the group at this index (`{{ expr }}`)
    Escaped(usize),
    /// append the value of the expression with this source text (`{!! expr !!}`)
    Unescaped(String),
    /// `kind head { body }`: the head tokens, the body group and its operations
    Guarded { kind: Guard, head: (usize, usize), body: usize, ops: Vec<BladeOp> },
    /// `for var in collection { body }`
    Foreach { var: (usize, usize), collection: (usize, usize), body: usize, ops: Vec<BladeOp> },
    /// `else { body }`
    Else { body: usize, ops: Vec<BladeOp> },
    /// the body when the value in group `var` is present (`@isset`) or, with
    /// `empty`, when it is empty (`@empty`)
    Presence { empty: bool, var: usize, body: usize, ops: Vec<BladeOp> },
    /// the body for an authenticated visitor, or with `guest` for a guest
    Auth { guest: bool, body: usize, ops: Vec<BladeOp> },
    /// append the CSRF token field
    Csrf,
    /// a directive with the group at `arg` as its argument
    WithArg { kind: ArgDirective, arg: usize },
    /// a plain `{ .. }` block of the template, compiled
    Block { group: usize, ops: Vec<BladeOp> },
    /// the token at this index, passed through as code
    Pass(usize),
}

/// What an operation is, with text as characters and indices as integers.
pub enum OpView {
    Text(Seq<char>),
    Escaped(int),
    Unescaped(Seq<char>),
    Guarded(Guard, int, int, int, Seq<OpView>),
    Foreach(int, int, int, int, int, Seq<OpView>),
    Else(int, Seq<OpView>),
    Presence(bool, int, int, Seq<OpView>),
    Auth(bool, int, Seq<OpView>),
    Csrf,
    WithArg(ArgDirective, int),
    Block(int, Seq<OpView>),
    Pass(int),
}

/// The view of an operation.
pub open spec fn op_view(o: BladeOp) -> OpView
    decreases o,
{
    match o {
        BladeOp::Text(s) => OpView::Text(s@),
        BladeOp::Escaped(g) => OpView::Escaped(g as int),
        BladeOp::Unescaped(s) => OpView::Unescaped(s@),
        BladeOp::Guarded { kind, head, body, ops } => OpView::Guarded(
            kind,
            head.0 as int,
            head.1 as int,
            body as int,
            ops_view(ops@),
        ),
        BladeOp::Foreach { var, collection, body, ops } => OpView::Foreach(
            var.0 as int,
            var.1 as int,
            collection.0 as int,
            collection.1 as int,
            body as int,
            ops_view(ops@),
        ),
        BladeOp::Else { body, ops } => OpView::Else(body as int, ops_view(ops@)),
        BladeOp::Presence { empty, var, body, ops } => OpView::Presence(
            empty,
            var as int,
            body as int,
            ops_view(ops@),
        ),
        BladeOp::Auth { guest, body, ops } => OpView::Auth(guest, body as int, ops_view(ops@)),
        BladeOp::Csrf => OpView::Csrf,
        BladeOp::WithArg { kind, arg } => OpView::WithArg(kind, arg as int),
        BladeOp::Block { group, ops } => OpView::Block(group as int, ops_view(ops@)),
        BladeOp::Pass(i) => OpView::Pass(i as int),
    }
}

/// The views of a sequence of operations.
pub open spec fn ops_view(s: Seq<BladeOp>) -> Seq<OpView>
    decreases s,
{
    if s.len() == 0 {
        Seq::empty()
    } else {
        ops_view(s.drop_last()).push(op_view(s.last()))
    }
}

/// The text of a token.
pub open spec fn token_text(t: BladeToken) -> Seq<char> {
    match t {
        BladeToken::Ident(s) => s@,
        BladeToken::Punct(c) => seq![c],
        BladeToken::Literal(s) => s@,
        BladeToken::Group { text, .. } => text@,
    }
}

/// Whether `t` is a `{ .. }` group.
pub open spec fn is_brace_group(t: BladeToken) -> bool {
    t matches BladeToken::Group { delim: Delim::Brace, .. }
}

/// Whether `t` is the identifier `name`.
pub open spec fn is_ident(t: BladeToken, name: Seq<char>) -> bool {
    t matches BladeToken::Ident(s) && s@ == name
}

/// Whether `t` is the punctuation character `c`.
pub open spec fn is_punct(t: BladeToken, c: char) -> bool {
    t matches BladeToken::Punct(p) && p == c
}

/// The index of the first `{ .. }` group at or after `i` (the length if none).
pub open spec fn brace_from(ts: Seq<BladeToken>, i: int) -> int
    decreases ts.len() - i,
{
    if i >= ts.len() {
        ts.len() as int
    } else if is_brace_group(ts[i]) {
        i
    } else {
        brace_from(ts, i + 1)
    }
}

/// The index of the first identifier `in` at or after `i` (the length if none).
pub open spec fn in_from(ts: Seq<BladeToken>, i: int) -> int
    decreases ts.len() - i,
{
    if i >= ts.len() {
        ts.len() as int
    } else if is_ident(ts[i], "in"@) {
        i
    } else {
        in_from(ts, i + 1)
    }
}

/// The index of the first `>` at or after `i` (the length if none).
pub open spec fn close_from(ts: Seq<BladeToken>, i: int) -> int
    decreases ts.len() - i,
{
    if i >= ts.len() {
        ts.len() as int
    } else if is_punct(ts[i], '>') {
        i
    } else {
        close_from(ts, i + 1)
    }
}

/// The texts of the tokens `ts[i..j]`, concatenated.
pub open spec fn texts(ts: Seq<BladeToken>, i: int, j: int) -> Seq<char>
    decreases j - i,
{
    if j <= i {
        Seq::empty()
    } else {
        texts(ts, i, j - 1) + token_text(ts[j - 1])
    }
}

/// `s` without its leading repetitions of `!!`.
pub open spec fn strip_leading_bangs(s: Seq<char>) -> Seq<char>
    decreases s.len(),
{
    if s.len() >= 2 && s[0] == '!' && s[1] == '!' {
        strip_leading_bangs(s.skip(2))
    } else {
        s
    }
}

/// `s` without its trailing repetitions of `!!`.
pub open spec fn strip_trailing_bangs(s: Seq<char>) -> Seq<char>
    decreases s.len(),
{
    if s.len() >= 2 && s[s.len() - 2] == '!' && s[s.len() - 1] == '!' {
        strip_trailing_bangs(s.take(s.len() - 2))
    } else {
        s
    }
}

/// Whether `s` begins and ends with `!!`.
pub open spec fn bang_framed(s: Seq<char>) -> bool {
    s.len() >= 2 && s[0] == '!' && s[1] == '!' && s[s.len() - 2] == '!' && s[s.len() - 1] == '!'
}

/// Whether a literal's text is a string literal, `"..."`.
pub open spec fn quoted(t: Seq<char>) -> bool {
    t.len() > 0 && t[0] == '"' && t[t.len() - 1] == '"'
}

/// Whether every string literal among the tokens, at any depth, has both
/// its quotes (as a lexer produces them).
pub open spec fn tokens_ok(ts: Seq<BladeToken>) -> bool
    decreases ts,
{
    if ts.len() == 0 {
        true
    } else {
        tokens_ok(ts.drop_last()) && token_ok(ts.last())
    }
}

/// Whether a token is well formed in the sense of [`tokens_ok`].
pub open spec fn token_ok(t: BladeToken) -> bool
    decreases t,
{
    match t {
        BladeToken::Literal(s) => quoted(s@) ==> s@.len() >= 2,
        BladeToken::Group { inner, .. } => tokens_ok(inner@),
        _ => true,
    }
}

/// The operations of the tokens `ts[i..]`.
pub open spec fn ops_from(ts: Seq<BladeToken>, i: int) -> Seq<OpView>
    decreases ts, ts.len() - i + 3,
{
    if i < 0 || i >= ts.len() {
        Seq::empty()
    } else {
        let (emitted, next) = step_ops(ts, i);
        if i < next <= ts.len() {
            emitted + ops_from(ts, next)
        } else {
            emitted
        }
    }
}

/// The operations of the body of the group at index `j`.
pub open spec fn body_ops(ts: Seq<BladeToken>, j: int) -> Seq<OpView>
    decreases ts, 0int,
{
    if 0 <= j < ts.len() {
        match ts[j] {
            BladeToken::Group { inner, .. } => ops_from(inner@, 0),
            _ => Seq::empty(),
        }
    } else {
        Seq::empty()
    }
}

/// `@kind head { body }` read from index `i`: the head runs to the next
/// `{ .. }` group, which is the body; without one nothing is emitted and the
/// tokens are used up.
pub open spec fn guarded_ops(ts: Seq<BladeToken>, i: int, kind: Guard) -> (Seq<OpView>, int)
    decreases ts, 1int,
{
    let j = brace_from(ts, i);
    if j < ts.len() {
        (seq![OpView::Guarded(kind, i, j, j, body_ops(ts, j))], j + 1)
    } else {
        (Seq::empty(), ts.len() as int)
    }
}

/// A directive whose operation needs one group read from index `i`: the
/// token there is used up; if it is a group, `op` is emitted for it.
pub open spec fn one_group(ts: Seq<BladeToken>, i: int, op: OpView) -> (Seq<OpView>, int) {
    if i < ts.len() {
        (if ts[i] is Group {
            seq![op]
        } else {
            Seq::empty()
        }, i + 1)
    } else {
        (Seq::empty(), i)
    }
}

/// `@name ...` read from index `i`, just after the directive's name.
pub open spec fn directive_ops(ts: Seq<BladeToken>, i: int, name: Seq<char>) -> (Seq<OpView>, int)
    decreases ts, 2int,
{
    if name == "if"@ {
        guarded_ops(ts, i, Guard::If)
    } else if name == "else"@ {
        if i < ts.len() && ts[i] is Ident {
            if is_ident(ts[i], "if"@) {
                guarded_ops(ts, i + 1, Guard::ElseIf)
            } else {
                (Seq::empty(), i + 1)
            }
        } else {
            one_group(ts, i, OpView::Else(i, body_ops(ts, i)))
        }
    } else if name == "foreach"@ {
        let j = in_from(ts, i);
        if j < ts.len() {
            let k = brace_from(ts, j + 1);
            if k < ts.len() {
                (seq![OpView::Foreach(i, j, j + 1, k, k, body_ops(ts, k))], k + 1)
            } else {
                (Seq::empty(), ts.len() as int)
            }
        } else {
            (Seq::empty(), ts.len() as int)
        }
    } else if name == "for"@ {
        guarded_ops(ts, i, Guard::For)
    } else if name == "while"@ {
        guarded_ops(ts, i, Guard::While)
    } else if name == "match"@ {
        guarded_ops(ts, i, Guard::Match)
    } else if name == "isset"@ || name == "empty"@ {
        if i < ts.len() && ts[i] is Group {
            one_group(ts, i + 1, OpView::Presence(name == "empty"@, i, i + 1, body_ops(ts, i + 1)))
        } else if i < ts.len() {
            (Seq::empty(), i + 1)
        } else {
            (Seq::empty(), i)
        }
    } else if name == "auth"@ || name == "guest"@ {
        one_group(ts, i, OpView::Auth(name == "guest"@, i, body_ops(ts, i)))
    } else if name == "csrf"@ {
        (seq![OpView::Csrf], i)
    } else if name == "method"@ {
        one_group(ts, i, OpView::WithArg(ArgDirective::Method, i))
    } else if name == "include"@ {
        one_group(ts, i, OpView::WithArg(ArgDirective::Include, i))
    } else if name == "json"@ {
        one_group(ts, i, OpView::WithArg(ArgDirective::Json, i))
    } else if name == "raw"@ || name == "verbatim"@ {
        one_group(
            ts,
            i,
            OpView::Text(
                match ts[i] {
                    BladeToken::Group { stream_text, .. } => stream_text@,
                    _ => Seq::empty(),
                },
            ),
        )
    } else if name == "php"@ || name == "rust"@ {
        one_group(ts, i, OpView::WithArg(ArgDirective::Rust, i))
    } else if name == "env"@ {
        one_group(ts, i, OpView::WithArg(ArgDirective::Env, i))
    } else if name == "class"@ {
        one_group(ts, i, OpView::WithArg(ArgDirective::Class, i))
    } else {
        (seq![OpView::Text("@"@), OpView::Text(name)], i)
    }
}

/// The operations of the token at index `i` and the index after the tokens
/// they use.
pub open spec fn step_ops(ts: Seq<BladeToken>, i: int) -> (Seq<OpView>, int)
    decreases ts, 3int,
{
    if !(0 <= i < ts.len()) {
        (Seq::empty(), i + 1)
    } else {
        match ts[i] {
            BladeToken::Punct(c) => if c == '@' {
                if i + 1 < ts.len() && ts[i + 1] is Ident {
                    directive_ops(ts, i + 2, token_text(ts[i + 1]))
                } else {
                    (seq![OpView::Text("@"@)], i + 1)
                }
            } else if c == '<' {
                let e = close_from(ts, i + 1);
                if e < ts.len() {
                    (seq![OpView::Text("<"@ + texts(ts, i + 1, e) + ">"@)], e + 1)
                } else {
                    (seq![OpView::Text("<"@ + texts(ts, i + 1, e))], e)
                }
            } else {
                (seq![OpView::Pass(i)], i + 1)
            },
            BladeToken::Group { delim, inner, stream_text, .. } => if delim == Delim::Brace {
                let st = stream_text@;
                if st.len() > 0 && st[0] == '{' && st[st.len() - 1] == '}' && inner@.len() > 0
                    && is_brace_group(inner@[0]) {
                    (seq![OpView::Escaped(i)], i + 1)
                } else if bang_framed(st) {
                    (seq![OpView::Unescaped(strip_trailing_bangs(strip_leading_bangs(st)))], i + 1)
                } else {
                    (seq![OpView::Block(i, body_ops(ts, i))], i + 1)
                }
            } else {
                (seq![OpView::Pass(i)], i + 1)
            },
            BladeToken::Literal(s) => if quoted(s@) {
                (seq![OpView::Text(s@.subrange(1, s@.len() - 1))], i + 1)
            } else {
                (seq![OpView::Pass(i)], i + 1)
            },
            BladeToken::Ident(_) => (seq![OpView::Pass(i)], i + 1),
        }
    }
}

proof fn lemma_scan_bounds(ts: Seq<BladeToken>, i: int)
    requires
        i <= ts.len(),
    ensures
        i <= brace_from(ts, i) <= ts.len(),
        i <= in_from(ts, i) <= ts.len(),
        i <= close_from(ts, i) <= ts.len(),
        brace_from(ts, i) < ts.len() ==> is_brace_group(ts[brace_from(ts, i)]),
        in_from(ts, i) < ts.len() ==> is_ident(ts[in_from(ts, i)], "in"@),
        close_from(ts, i) < ts.len() ==> is_punct(ts[close_from(ts, i)], '>'),
    decreases ts.len() - i,
{
    if i < ts.len() {
        lemma_scan_bounds(ts, i + 1);
    }
}

proof fn lemma_step_advances(ts: Seq<BladeToken>, i: int)
    requires
        0 <= i < ts.len(),
    ensures
        i < step_ops(ts, i).1 <= ts.len(),
{
    lemma_scan_bounds(ts, i + 1);
    if i + 2 <= ts.len() {
        lemma_scan_bounds(ts, i + 2);
        if i + 3 <= ts.len() {
            lemma_scan_bounds(ts, i + 3);
        }
        let j = in_from(ts, i + 2);
        if j < ts.len() {
            lemma_scan_bounds(ts, j + 1);
        }
    }
}

proof fn lemma_token_ok_at(ts: Seq<BladeToken>, j: int)
    requires
        tokens_ok(ts),
        0 <= j < ts.len(),
    ensures
        token_ok(ts[j]),
    decreases ts.len(),
{
    if j < ts.len() - 1 {
        lemma_token_ok_at(ts.drop_last(), j);
        assert(ts.drop_last()[j] == ts[j]);
    }
}

proof fn lemma_ops_view_append(a: Seq<BladeOp>, b: Seq<BladeOp>)
    ensures
        ops_view(a + b) == ops_view(a) + ops_view(b),
    decreases b.len(),
{
    if b.len() == 0 {
        assert(a + b =~= a);
        assert(ops_view(a) + ops_view(b) =~= ops_view(a));
    } else {
        lemma_ops_view_append(a, b.drop_last());
        assert((a + b).drop_last() =~= a + b.drop_last());
        assert((a + b).last() == b.last());
        assert(ops_view(a + b) =~= ops_view(a) + ops_view(b));
    }
}

fn single(o: BladeOp) -> (r: Vec<BladeOp>)
    ensures
        ops_view(r@) == seq![op_view(o)],
{
    let ghost v = op_view(o);
    let r = vec![o];
    proof {
        assert(r@.drop_last() =~= Seq::<BladeOp>::empty());
        assert(ops_view(r@.drop_last()) == Seq::<OpView>::empty());
        assert(ops_view(r@) =~= seq![v]);
    }
    r
}

fn pair(a: BladeOp, b: BladeOp) -> (r: Vec<BladeOp>)
    ensures
        ops_view(r@) == seq![op_view(a), op_view(b)],
{
    let ghost va = op_view(a);
    let ghost vb = op_view(b);
    let mut r = single(a);
    let s = single(b);
    let ghost rs = r@;
    let ghost ss = s@;
    let mut s = s;
    r.append(&mut s);
    proof {
        lemma_ops_view_append(rs, ss);
        assert(ops_view(r@) =~= seq![va, vb]);
    }
    r
}

fn none() -> (r: Vec<BladeOp>)
    ensures
        ops_view(r@) == Seq::<OpView>::empty(),
{
    let r: Vec<BladeOp> = Vec::new();
    proof {
        assert(ops_view(r@) =~= Seq::<OpView>::empty());
    }
    r
}

fn is_group(t: &BladeToken) -> (r: bool)
    ensures
        r == (*t is Group),
{
    match t {
        BladeToken::Group { .. } => true,
        _ => false,
    }
}

fn is_brace(t: &BladeToken) -> (r: bool)
    ensures
        r == is_brace_group(*t),
{
    match t {
        BladeToken::Group { delim, .. } => *delim == Delim::Brace,
        _ => false,
    }
}

fn brace_index(ts: &Vec<BladeToken>, i: usize) -> (j: usize)
    requires
        i <= ts.len(),
    ensures
        j == brace_from(ts@, i as int),
{
    let mut j = i;
    while j < ts.len() && !is_brace(&ts[j])
        invariant
            i <= j <= ts.len(),
            brace_from(ts@, i as int) == brace_from(ts@, j as int),
        decreases ts.len() - j,
    {
        j = j + 1;
    }
    j
}

fn in_index(ts: &Vec<BladeToken>, i: usize) -> (j: usize)
    requires
        i <= ts.len(),
    ensures
        j == in_from(ts@, i as int),
{
    let mut j = i;
    while j < ts.len()
        invariant
            i <= j <= ts.len(),
            in_from(ts@, i as int) == in_from(ts@, j as int),
        decreases ts.len() - j,
    {
        match &ts[j] {
            BladeToken::Ident(s) => {
                if str_eq(s.as_str(), "in") {
                    return j;
                }
            },
            _ => {},
        }
        j = j + 1;
    }
    j
}

fn close_index(ts: &Vec<BladeToken>, i: usize) -> (j: usize)
    requires
        i <= ts.len(),
    ensures
        j == close_from(ts@, i as int),
{
    let mut j = i;
    while j < ts.len()
        invariant
            i <= j <= ts.len(),
            close_from(ts@, i as int) == close_from(ts@, j as int),
        decreases ts.len() - j,
    {
        match &ts[j] {
            BladeToken::Punct(c) => {
                if *c == '>' {
                    return j;
                }
            },
            _ => {},
        }
        j = j + 1;
    }
    j
}

fn push_token_text(s: &mut String, t: &BladeToken)
    ensures
        final(s)@ == old(s)@ + token_text(*t),
{
    match t {
        BladeToken::Ident(x) => push_str(s, x.as_str()),
        BladeToken::Punct(c) => {
            push_char(s, *c);
            proof {
                assert(final(s)@ =~= old(s)@ + token_text(*t));
            }
        },
        BladeToken::Literal(x) => push_str(s, x.as_str()),
        BladeToken::Group { text, .. } => push_str(s, text.as_str()),
    }
}

fn tag_text(ts: &Vec<BladeToken>, i: usize, e: usize) -> (r: String)
    requires
        i <= e <= ts.len(),
    ensures
        r@ == "<"@ + texts(ts@, i as int, e as int),
{
    let mut r = String::new();
    push_str(&mut r, "<");
    let mut k = i;
    while k < e
        invariant
            i <= k <= e <= ts.len(),
            r@ == "<"@ + texts(ts@, i as int, k as int),
        decreases e - k,
    {
        push_token_text(&mut r, &ts[k]);
        proof {
            assert(r@ =~= "<"@ + texts(ts@, i as int, k + 1));
        }
        k = k + 1;
    }
    r
}

fn unescaped_source(v: &Vec<char>) -> (r: String)
    ensures
        r@ == strip_trailing_bangs(strip_leading_bangs(v@)),
{
    let mut lo: usize = 0;
    proof {
        assert(v@.skip(0) =~= v@);
    }
    while v.len() - lo >= 2 && v[lo] == '!' && v[lo + 1] == '!'
        invariant
            lo <= v.len(),
            strip_leading_bangs(v@) == strip_leading_bangs(v@.skip(lo as int)),
        decreases v.len() - lo,
    {
        proof {
            assert(v@.skip(lo as int).skip(2) =~= v@.skip(lo + 2));
        }
        lo = lo + 2;
    }
    let ghost mid = v@.skip(lo as int);
    proof {
        assert(strip_leading_bangs(v@) == mid);
    }
    let mut hi: usize = v.len();
    while hi - lo >= 2 && v[hi - 2] == '!' && v[hi - 1] == '!'
        invariant
            lo <= hi <= v.len(),
            mid == v@.skip(lo as int),
            strip_trailing_bangs(mid) == strip_trailing_bangs(v@.subrange(lo as int, hi as int)),
        decreases hi,
    {
        proof {
            assert(v@.subrange(lo as int, hi as int).take(hi - lo - 2) =~= v@.subrange(lo as int, hi - 2));
        }
        hi = hi - 2;
    }
    proof {
        assert(mid =~= v@.subrange(lo as int, v.len() as int));
    }
    crate::text::string_of(v, lo, hi)
}

fn one_group_exec(ts: &Vec<BladeToken>, i: usize, op: BladeOp) -> (r: (Vec<BladeOp>, usize))
    requires
        i <= ts.len(),
    ensures
        ops_view(r.0@) == one_group(ts@, i as int, op_view(op)).0,
        r.1 == one_group(ts@, i as int, op_view(op)).1,
{
    if i < ts.len() {
        if is_group(&ts[i]) {
            (single(op), i + 1)
        } else {
            (none(), i + 1)
        }
    } else {
        (none(), i)
    }
}

/// The operations of the body of the group at index `j` (none when the
/// token there is not a group).
fn body_exec(ts: &Vec<BladeToken>, j: usize) -> (r: Vec<BladeOp>)
    requires
        tokens_ok(ts@),
    ensures
        ops_view(r@) == body_ops(ts@, j as int),
    decreases ts@, 0int,
{
    if j < ts.len() {
        proof {
            lemma_token_ok_at(ts@, j as int);
        }
        match &ts[j] {
            BladeToken::Group { inner, .. } => {
                proof {
                    assert(decreases_to!(ts@ => ts@[j as int]));
                    assert(decreases_to!(ts@[j as int] => *inner));
                    assert(decreases_to!(*inner => inner@));
                }
                transform_blade_tokens(inner)
            },
            _ => none(),
        }
    } else {
        none()
    }
}

fn guarded_exec(ts: &Vec<BladeToken>, i: usize, kind: Guard) -> (r: (Vec<BladeOp>, usize))
    requires
        tokens_ok(ts@),
        i <= ts.len(),
    ensures
        ops_view(r.0@) == guarded_ops(ts@, i as int, kind).0,
        r.1 == guarded_ops(ts@, i as int, kind).1,
    decreases ts@, 1int,
{
    let j = brace_index(ts, i);
    if j < ts.len() {
        let ops = body_exec(ts, j);
        (single(BladeOp::Guarded { kind, head: (i, j), body: j, ops }), j + 1)
    } else {
        (none(), ts.len())
    }
}

fn directive_exec(ts: &Vec<BladeToken>, i: usize, name: &str) -> (r: (Vec<BladeOp>, usize))
    requires
        tokens_ok(ts@),
        i <= ts.len(),
    ensures
        ops_view(r.0@) == directive_ops(ts@, i as int, name@).0,
        r.1 == directive_ops(ts@, i as int, name@).1,
    decreases ts@, 2int,
{
    if str_eq(name, "if") {
        guarded_exec(ts, i, Guard::If)
    } else if str_eq(name, "else") {
        if i < ts.len() {
            match &ts[i] {
                BladeToken::Ident(s) => {
                    if str_eq(s.as_str(), "if") {
                        return guarded_exec(ts, i + 1, Guard::ElseIf);
                    } else {
                        return (none(), i + 1);
                    }
                },
                _ => {},
            }
        }
        let ops = body_exec(ts, i);
        one_group_exec(ts, i, BladeOp::Else { body: i, ops })
    } else if str_eq(name, "foreach") {
        let j = in_index(ts, i);
        proof {
            lemma_scan_bounds(ts@, i as int);
        }
        if j < ts.len() {
            let k = brace_index(ts, j + 1);
            proof {
                lemma_scan_bounds(ts@, j + 1);
            }
            if k < ts.len() {
                let ops = body_exec(ts, k);
                (single(BladeOp::Foreach { var: (i, j), collection: (j + 1, k), body: k, ops }), k + 1)
            } else {
                (none(), ts.len())
            }
        } else {
            (none(), ts.len())
        }
    } else if str_eq(name, "for") {
        guarded_exec(ts, i, Guard::For)
    } else if str_eq(name, "while") {
        guarded_exec(ts, i, Guard::While)
    } else if str_eq(name, "match") {
        guarded_exec(ts, i, Guard::Match)
    } else if str_eq(name, "isset") || str_eq(name, "empty") {
        if i < ts.len() && is_group(&ts[i]) {
            let ops = body_exec(ts, i + 1);
            one_group_exec(ts, i + 1, BladeOp::Presence { empty: str_eq(name, "empty"), var: i, body: i + 1, ops })
        } else if i < ts.len() {
            (none(), i + 1)
        } else {
            (none(), i)
        }
    } else if str_eq(name, "auth") || str_eq(name, "guest") {
        let ops = body_exec(ts, i);
        one_group_exec(ts, i, BladeOp::Auth { guest: str_eq(name, "guest"), body: i, ops })
    } else if str_eq(name, "csrf") {
        (single(BladeOp::Csrf), i)
    } else if str_eq(name, "method") {
        one_group_exec(ts, i, BladeOp::WithArg { kind: ArgDirective::Method, arg: i })
    } else if str_eq(name, "include") {
        one_group_exec(ts, i, BladeOp::WithArg { kind: ArgDirective::Include, arg: i })
    } else if str_eq(name, "json") {
        one_group_exec(ts, i, BladeOp::WithArg { kind: ArgDirective::Json, arg: i })
    } else if str_eq(name, "raw") || str_eq(name, "verbatim") {
        if i < ts.len() {
            match &ts[i] {
                BladeToken::Group { stream_text, .. } => {
                    (single(BladeOp::Text(crate::text::copy_str(stream_text.as_str()))), i + 1)
                },
                _ => (none(), i + 1),
            }
        } else {
            (none(), i)
        }
    } else if str_eq(name, "php") || str_eq(name, "rust") {
        one_group_exec(ts, i, BladeOp::WithArg { kind: ArgDirective::Rust, arg: i })
    } else if str_eq(name, "env") {
        one_group_exec(ts, i, BladeOp::WithArg { kind: ArgDirective::Env, arg: i })
    } else if str_eq(name, "class") {
        one_group_exec(ts, i, BladeOp::WithArg { kind: ArgDirective::Class, arg: i })
    } else {
        (pair(BladeOp::Text(crate::text::copy_str("@")), BladeOp::Text(crate::text::copy_str(name))), i)
    }
}

fn step_exec(ts: &Vec<BladeToken>, i: usize) -> (r: (Vec<BladeOp>, usize))
    requires
        tokens_ok(ts@),
        i < ts.len(),
    ensures
        ops_view(r.0@) == step_ops(ts@, i as int).0,
        r.1 == step_ops(ts@, i as int).1,
    decreases ts@, 3int,
{
    proof {
        lemma_token_ok_at(ts@, i as int);
    }
    match &ts[i] {
        BladeToken::Punct(c) => {
            if *c == '@' {
                if i + 1 < ts.len() {
                    match &ts[i + 1] {
                        BladeToken::Ident(name) => {
                            return directive_exec(ts, i + 2, name.as_str());
                        },
                        _ => {},
                    }
                }
                (single(BladeOp::Text(crate::text::copy_str("@"))), i + 1)
            } else if *c == '<' {
                let e = close_index(ts, i + 1);
                proof {
                    lemma_scan_bounds(ts@, i + 1);
                }
                let mut t = tag_text(ts, i + 1, e);
                if e < ts.len() {
                    push_str(&mut t, ">");
                    (single(BladeOp::Text(t)), e + 1)
                } else {
                    (single(BladeOp::Text(t)), e)
                }
            } else {
                (single(BladeOp::Pass(i)), i + 1)
            }
        },
        BladeToken::Group { delim, inner, stream_text, .. } => {
            if *delim == Delim::Brace {
                let st = crate::text::chars_of(stream_text.as_str());
                let n = st.len();
                if n > 0 && st[0] == '{' && st[n - 1] == '}' && inner.len() > 0 && is_brace(&inner[0]) {
                    (single(BladeOp::Escaped(i)), i + 1)
                } else if n >= 2 && st[0] == '!' && st[1] == '!' && st[n - 2] == '!' && st[n - 1] == '!' {
                    (single(BladeOp::Unescaped(unescaped_source(&st))), i + 1)
                } else {
                    let ops = body_exec(ts, i);
                    (single(BladeOp::Block { group: i, ops }), i + 1)
                }
            } else {
                (single(BladeOp::Pass(i)), i + 1)
            }
        },
        BladeToken::Literal(s) => {
            let v = crate::text::chars_of(s.as_str());
            let n = v.len();
            if n > 0 && v[0] == '"' && v[n - 1] == '"' {
                (single(BladeOp::Text(crate::text::string_of(&v, 1, n - 1))), i + 1)
            } else {
                (single(BladeOp::Pass(i)), i + 1)
            }
        },
        BladeToken::Ident(_) => (single(BladeOp::Pass(i)), i + 1),
    }
}

/// The operations of a template: each directive with its head and
/// compiled body, `{{ }}` and `{!! !!}` output, the text of string
/// literals and tags, and the other tokens passed through (see the module
/// documentation).
pub fn transform_blade_tokens(ts: &Vec<BladeToken>) -> (r: Vec<BladeOp>)
    requires
        tokens_ok(ts@),
    ensures
        ops_view(r@) == ops_from(ts@, 0),
    decreases ts@, 4int,
{
    let mut out: Vec<BladeOp> = Vec::new();
    let mut i: usize = 0;
    proof {
        assert(ops_view(out@) =~= Seq::<OpView>::empty());
        assert(ops_view(out@) + ops_from(ts@, 0) =~= ops_from(ts@, 0));
    }
    while i < ts.len()
        invariant
            i <= ts.len(),
            tokens_ok(ts@),
            ops_view(out@) + ops_from(ts@, i as int) == ops_from(ts@, 0),
        decreases ts.len() - i,
    {
        proof {
            lemma_step_advances(ts@, i as int);
        }
        let (emitted, next) = step_exec(ts, i);
        let ghost before = out@;
        let ghost em = emitted@;
        let mut emitted = emitted;
        out.append(&mut emitted);
        proof {
            lemma_ops_view_append(before, em);
            assert(ops_from(ts@, i as int) == ops_view(em) + ops_from(ts@, next as int));
            assert(ops_view(out@) + ops_from(ts@, next as int) =~= ops_view(before) + ops_from(ts@, i as int));
        }
        i = next;
    }
    proof {
        assert(ops_view(out@) + ops_from(ts@, i as int) =~= ops_view(out@));
    }
    out
}

/// Whether `t` is a `{{ e }}` echo: a brace group whose contents' text is
/// itself braced and whose first token is a brace group (holding `e`).
pub open spec fn is_echo(t: BladeToken) -> bool {
    t matches BladeToken::Group { delim: Delim::Brace, inner, stream_text, .. } && stream_text@.len() > 0
        && stream_text@[0] == '{' && stream_text@[stream_text@.len() - 1] == '}' && inner@.len() > 0
        && is_brace_group(inner@[0])
}

/// A `{{ e }}` echo always prints its value escaped; output is unescaped
/// only for a `{!! e !!}` group that is not an echo.
pub proof fn lemma_echo_is_escaped(ts: Seq<BladeToken>, i: int)
    requires
        0 <= i < ts.len(),
    ensures
        is_echo(ts[i]) ==> step_ops(ts, i) == (seq![OpView::Escaped(i)], i + 1),
        step_ops(ts, i).0.len() > 0 && step_ops(ts, i).0[0] is Unescaped ==> !is_echo(ts[i]) && (ts[i] matches BladeToken::Group {
            delim: Delim::Brace,
            stream_text,
            ..
        } && bang_framed(stream_text@)),
{
}


/// Whether compiling `ts` from index `i` starts a step at index `k`, that
/// is whether the token at `k` is read as a template item of its own.
pub open spec fn visits(ts: Seq<BladeToken>, i: int, k: int) -> bool
    decreases ts.len() - i,
{
    if 0 <= i < ts.len() {
        i == k || (i < step_ops(ts, i).1 <= ts.len() && visits(ts, step_ops(ts, i).1, k))
    } else {
        false
    }
}

/// The text an `Unescaped` operation appends.
pub open spec fn unescaped_text(o: OpView) -> Seq<char> {
    match o {
        OpView::Unescaped(s) => s,
        _ => Seq::empty(),
    }
}

/// Whether the token at `k` is a `{!! e !!}` group that is not an echo and
/// whose source, without the bangs, is `s`.
pub open spec fn bang_group_with(ts: Seq<BladeToken>, k: int, s: Seq<char>) -> bool {
    &&& 0 <= k < ts.len()
    &&& !is_echo(ts[k])
    &&& ts[k] matches BladeToken::Group { delim: Delim::Brace, stream_text, .. }
    &&& bang_framed(stream_text@)
    &&& s == strip_trailing_bangs(strip_leading_bangs(stream_text@))
}

proof fn lemma_ops_from_step(ts: Seq<BladeToken>, i: int)
    requires
        0 <= i < ts.len(),
    ensures
        i < step_ops(ts, i).1 <= ts.len(),
        ops_from(ts, i) == step_ops(ts, i).0 + ops_from(ts, step_ops(ts, i).1),
{
    lemma_step_advances(ts, i);
}

proof fn lemma_step_unescaped(ts: Seq<BladeToken>, i: int, j: int)
    requires
        0 <= i < ts.len(),
        0 <= j < step_ops(ts, i).0.len(),
        step_ops(ts, i).0[j] is Unescaped,
    ensures
        bang_group_with(ts, i, unescaped_text(step_ops(ts, i).0[j])),
{
    lemma_echo_is_escaped(ts, i);
}

proof fn lemma_echo_in_ops_from(ts: Seq<BladeToken>, i: int, k: int)
    requires
        visits(ts, i, k),
        is_echo(ts[k]),
    ensures
        ops_from(ts, i).contains(OpView::Escaped(k)),
    decreases ts.len() - i,
{
    lemma_ops_from_step(ts, i);
    let emitted = step_ops(ts, i).0;
    let next = step_ops(ts, i).1;
    if i == k {
        lemma_echo_is_escaped(ts, i);
        assert(ops_from(ts, i)[0] == OpView::Escaped(k));
    } else {
        lemma_echo_in_ops_from(ts, next, k);
        let j = choose|j: int| 0 <= j < ops_from(ts, next).len() && ops_from(ts, next)[j] == OpView::Escaped(k);
        assert(ops_from(ts, i)[emitted.len() + j] == OpView::Escaped(k));
    }
}

proof fn lemma_unescaped_in_ops_from(ts: Seq<BladeToken>, i: int, j: int)
    requires
        0 <= j < ops_from(ts, i).len(),
        ops_from(ts, i)[j] is Unescaped,
    ensures
        exists|k: int| visits(ts, i, k) && bang_group_with(ts, k, unescaped_text(ops_from(ts, i)[j])),
    decreases ts.len() - i,
{
    if !(0 <= i < ts.len()) {
        assert(ops_from(ts, i).len() == 0);
    } else {
        lemma_ops_from_step(ts, i);
        let emitted = step_ops(ts, i).0;
        let next = step_ops(ts, i).1;
        if j < emitted.len() {
            assert(ops_from(ts, i)[j] == emitted[j]);
            lemma_step_unescaped(ts, i, j);
            assert(visits(ts, i, i));
        } else {
            let j2 = j - emitted.len();
            assert(ops_from(ts, i)[j] == ops_from(ts, next)[j2]);
            lemma_unescaped_in_ops_from(ts, next, j2);
            let k = choose|k: int| visits(ts, next, k) && bang_group_with(ts, k, unescaped_text(ops_from(ts, next)[j2]));
            assert(visits(ts, i, k));
        }
    }
}

/// Over a whole template: every `{{ e }}` echo that is read as an item of
/// its own is compiled to an escaped output of that group, and every
/// unescaped output of the template comes from a `{!! e !!}` group that is
/// not an echo, with the source between the bangs. The template here is any
/// token sequence, so the same holds inside every compiled body.
pub proof fn lemma_template_echoes_escaped(ts: Seq<BladeToken>)
    ensures
        forall|k: int| visits(ts, 0, k) && is_echo(#[trigger] ts[k]) ==> ops_from(ts, 0).contains(OpView::Escaped(k)),
        forall|j: int|
            0 <= j < ops_from(ts, 0).len() && (#[trigger] ops_from(ts, 0)[j]) is Unescaped ==> exists|k: int|
                visits(ts, 0, k) && bang_group_with(ts, k, unescaped_text(ops_from(ts, 0)[j])),
{
    assert forall|k: int| visits(ts, 0, k) && is_echo(#[trigger] ts[k]) implies ops_from(ts, 0).contains(OpView::Escaped(k)) by {
        lemma_echo_in_ops_from(ts, 0, k);
    }
    assert forall|j: int| 0 <= j < ops_from(ts, 0).len() && (#[trigger] ops_from(ts, 0)[j]) is Unescaped implies exists|k: int|
        visits(ts, 0, k) && bang_group_with(ts, k, unescaped_text(ops_from(ts, 0)[j])) by {
        lemma_unescaped_in_ops_from(ts, 0, j);
    }
}

} // verus!
