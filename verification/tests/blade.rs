use rf_mail::blade::{transform_blade_tokens, ArgDirective, BladeOp, BladeToken, Delim, Guard};

fn ident(s: &str) -> BladeToken {
    BladeToken::Ident(s.to_string())
}

fn punct(c: char) -> BladeToken {
    BladeToken::Punct(c)
}

fn lit(s: &str) -> BladeToken {
    BladeToken::Literal(s.to_string())
}

fn group(delim: Delim, inner: Vec<BladeToken>, stream_text: &str) -> BladeToken {
    let text = match delim {
        Delim::Brace => format!("{{ {} }}", stream_text),
        Delim::Paren => format!("({})", stream_text),
        Delim::Bracket => format!("[{}]", stream_text),
        Delim::Invisible => stream_text.to_string(),
    };
    BladeToken::Group { delim, inner, stream_text: stream_text.to_string(), text }
}

fn text(s: &str) -> BladeOp {
    BladeOp::Text(s.to_string())
}

#[test]
fn if_else_with_literal_bodies() {
    let ts = vec![
        punct('@'),
        ident("if"),
        ident("user"),
        punct('.'),
        ident("is_admin"),
        group(Delim::Brace, vec![lit("\"Admin\"")], "\"Admin\""),
        punct('@'),
        ident("else"),
        group(Delim::Brace, vec![lit("\"User\"")], "\"User\""),
    ];
    let ops = transform_blade_tokens(&ts);
    assert_eq!(
        ops,
        vec![
            BladeOp::Guarded { kind: Guard::If, head: (2, 5), body: 5, ops: vec![text("Admin")] },
            BladeOp::Else { body: 8, ops: vec![text("User")] },
        ]
    );
}

#[test]
fn else_if_chain() {
    let ts = vec![
        punct('@'),
        ident("else"),
        ident("if"),
        ident("x"),
        group(Delim::Brace, vec![], ""),
        punct('@'),
        ident("else"),
        ident("junk"),
        ident("tail"),
    ];
    let ops = transform_blade_tokens(&ts);
    assert_eq!(
        ops,
        vec![BladeOp::Guarded { kind: Guard::ElseIf, head: (3, 4), body: 4, ops: vec![] }, BladeOp::Pass(8)]
    );
}

#[test]
fn escaped_and_unescaped_output() {
    let inner = group(Delim::Brace, vec![ident("name")], "name");
    let escaped = group(Delim::Brace, vec![inner], "{ name }");
    let unescaped = group(
        Delim::Brace,
        vec![punct('!'), punct('!'), ident("html"), punct('!'), punct('!')],
        "!!!! html !!",
    );
    let ops = transform_blade_tokens(&vec![escaped, unescaped]);
    assert_eq!(ops, vec![BladeOp::Escaped(0), BladeOp::Unescaped(" html ".to_string())]);
}

#[test]
fn plain_block_is_compiled() {
    let block = group(Delim::Brace, vec![lit("\"hi\""), ident("x")], "\"hi\" x");
    let ops = transform_blade_tokens(&vec![block]);
    assert_eq!(ops, vec![BladeOp::Block { group: 0, ops: vec![text("hi"), BladeOp::Pass(1)] }]);
}

#[test]
fn tags_are_copied_token_by_token() {
    let ts = vec![punct('<'), ident("div"), ident("class"), punct('='), lit("\"box\""), punct('>'), ident("after")];
    let ops = transform_blade_tokens(&ts);
    assert_eq!(ops, vec![text("<divclass=\"box\">"), BladeOp::Pass(6)]);
    let open = transform_blade_tokens(&vec![punct('<'), ident("p")]);
    assert_eq!(open, vec![text("<p")]);
}

#[test]
fn foreach_loop() {
    let body = group(Delim::Brace, vec![lit("\"item\"")], "\"item\"");
    let ts = vec![punct('@'), ident("foreach"), ident("post"), ident("in"), ident("user"), punct('.'), ident("posts"), body];
    let ops = transform_blade_tokens(&ts);
    assert_eq!(
        ops,
        vec![BladeOp::Foreach { var: (2, 3), collection: (4, 7), body: 7, ops: vec![text("item")] }]
    );
    let unfinished = transform_blade_tokens(&vec![punct('@'), ident("foreach"), ident("x")]);
    assert_eq!(unfinished, vec![]);
}

#[test]
fn argument_directives_and_csrf() {
    let arg = group(Delim::Paren, vec![lit("\"PUT\"")], "\"PUT\"");
    let ts = vec![
        punct('@'),
        ident("csrf"),
        punct('@'),
        ident("method"),
        arg,
        punct('@'),
        ident("json"),
        group(Delim::Paren, vec![ident("data")], "data"),
        punct('@'),
        ident("class"),
        ident("oops"),
    ];
    let ops = transform_blade_tokens(&ts);
    assert_eq!(
        ops,
        vec![
            BladeOp::Csrf,
            BladeOp::WithArg { kind: ArgDirective::Method, arg: 4 },
            BladeOp::WithArg { kind: ArgDirective::Json, arg: 7 },
        ]
    );
}

#[test]
fn isset_auth_raw_and_rust() {
    let ts = vec![
        punct('@'),
        ident("isset"),
        group(Delim::Paren, vec![ident("user")], "user"),
        group(Delim::Brace, vec![lit("\"yes\"")], "\"yes\""),
        punct('@'),
        ident("guest"),
        group(Delim::Brace, vec![], ""),
        punct('@'),
        ident("verbatim"),
        group(Delim::Brace, vec![ident("a"), ident("b")], "a b"),
        punct('@'),
        ident("php"),
        group(Delim::Brace, vec![ident("x")], "x"),
        punct('@'),
        ident("empty"),
        group(Delim::Paren, vec![ident("xs")], "xs"),
        group(Delim::Brace, vec![], ""),
    ];
    let ops = transform_blade_tokens(&ts);
    assert_eq!(
        ops,
        vec![
            BladeOp::Presence { empty: false, var: 2, body: 3, ops: vec![text("yes")] },
            BladeOp::Auth { guest: true, body: 6, ops: vec![] },
            text("a b"),
            BladeOp::WithArg { kind: ArgDirective::Rust, arg: 12 },
            BladeOp::Presence { empty: true, var: 15, body: 16, ops: vec![] },
        ]
    );
}

#[test]
fn unknown_directive_and_lone_at() {
    let ops = transform_blade_tokens(&vec![punct('@'), ident("section"), punct('@'), lit("\"x\"")]);
    assert_eq!(ops, vec![text("@"), text("section"), text("@"), text("x")]);
}

#[test]
fn other_tokens_pass_through() {
    let ts = vec![lit("r\"raw\""), lit("42"), group(Delim::Paren, vec![], ""), punct(';')];
    let ops = transform_blade_tokens(&ts);
    assert_eq!(ops, vec![BladeOp::Pass(0), BladeOp::Pass(1), BladeOp::Pass(2), BladeOp::Pass(3)]);
}

#[test]
fn echo_inside_a_body_is_escaped() {
    let inner = group(Delim::Brace, vec![ident("user")], "user");
    let echo = group(Delim::Brace, vec![inner], "{ user }");
    let body = group(Delim::Brace, vec![lit("\"Hi \""), echo], "\"Hi \" { { user } }");
    let ts = vec![punct('@'), ident("if"), ident("ok"), body];
    let ops = transform_blade_tokens(&ts);
    assert_eq!(
        ops,
        vec![BladeOp::Guarded {
            kind: Guard::If,
            head: (2, 3),
            body: 3,
            ops: vec![text("Hi "), BladeOp::Escaped(1)],
        }]
    );
}
