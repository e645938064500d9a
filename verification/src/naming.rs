//! Name conventions shared by the code generators: snake case, capitalising,
//! and the classification of type names.
use vstd::prelude::*;
use crate::outside::{char_is_uppercase, char_lower, char_to_lowercase, char_to_uppercase, char_upper, is_upper};
use crate::text::{chars_of, copy_str, push_char, push_str, str_eq, string_of};

verus! {

/// The first character of the lowercase mapping of `c` (`c` itself if the
/// mapping were empty).
pub open spec fn first_lower(c: char) -> char {
    if char_lower(c).len() > 0 {
        char_lower(c)[0]
    } else {
        c
    }
}

/// The snake-case piece for character `c` at position `i`: an uppercase
/// character becomes `_` (except at the start) and its lowercase form; any
/// other character is kept.
pub open spec fn snake_piece(c: char, i: int) -> Seq<char> {
    if is_upper(c) {
        (if i > 0 {
            seq!['_']
        } else {
            Seq::empty()
        }).push(first_lower(c))
    } else {
        seq![c]
    }
}

/// `s` in snake case: `UserProfile` becomes `user_profile`.
pub open spec fn snake(s: Seq<char>) -> Seq<char>
    decreases s.len(),
{
    if s.len() == 0 {
        Seq::empty()
    } else {
        snake(s.drop_last()) + snake_piece(s.last(), s.len() - 1)
    }
}

/// The piece for character `c` at position `i` when every character is
/// lowered: an uppercase character not at the start is preceded by `_`.
pub open spec fn lowered_piece(c: char, i: int) -> Seq<char> {
    (if is_upper(c) && i > 0 {
        seq!['_']
    } else {
        Seq::empty()
    }).push(first_lower(c))
}

/// `s` with every character lowered and `_` before each inner uppercase
/// character.
pub open spec fn lowered_snake(s: Seq<char>) -> Seq<char>
    decreases s.len(),
{
    if s.len() == 0 {
        Seq::empty()
    } else {
        lowered_snake(s.drop_last()) + lowered_piece(s.last(), s.len() - 1)
    }
}

fn lower_first(c: char) -> (r: char)
    ensures
        r == first_lower(c),
{
    let l = char_to_lowercase(c);
    let v = chars_of(l.as_str());
    if v.len() > 0 {
        v[0]
    } else {
        c
    }
}

/// `s` in snake case: each uppercase character is lowered and, except at the
/// start, preceded by `_`; other characters are kept.
pub fn to_snake_case(s: &str) -> (r: String)
    ensures
        r@ == snake(s@),
{
    let v = chars_of(s);
    let mut r = String::new();
    let mut i: usize = 0;
    while i < v.len()
        invariant
            i <= v.len(),
            v@ == s@,
            r@ == snake(v@.take(i as int)),
        decreases v.len() - i,
    {
        let c = v[i];
        proof {
            assert(v@.take(i + 1).drop_last() =~= v@.take(i as int));
        }
        if char_is_uppercase(c) {
            if i > 0 {
                push_char(&mut r, '_');
            }
            push_char(&mut r, lower_first(c));
        } else {
            push_char(&mut r, c);
        }
        proof {
            assert(r@ =~= snake(v@.take(i + 1)));
        }
        i = i + 1;
    }
    proof {
        assert(v@.take(i as int) =~= v@);
    }
    r
}

/// `s` with every character lowered and `_` before each inner uppercase
/// character (the table-name form of a struct name).
pub fn snake_case(s: &str) -> (r: String)
    ensures
        r@ == lowered_snake(s@),
{
    let v = chars_of(s);
    let mut r = String::new();
    let mut i: usize = 0;
    while i < v.len()
        invariant
            i <= v.len(),
            v@ == s@,
            r@ == lowered_snake(v@.take(i as int)),
        decreases v.len() - i,
    {
        let c = v[i];
        proof {
            assert(v@.take(i + 1).drop_last() =~= v@.take(i as int));
        }
        if char_is_uppercase(c) && i > 0 {
            push_char(&mut r, '_');
        }
        push_char(&mut r, lower_first(c));
        proof {
            assert(r@ =~= lowered_snake(v@.take(i + 1)));
        }
        i = i + 1;
    }
    proof {
        assert(v@.take(i as int) =~= v@);
    }
    r
}

/// `s` with its first character in upper case (its full uppercase mapping).
pub open spec fn capitalized(s: Seq<char>) -> Seq<char> {
    if s.len() == 0 {
        Seq::empty()
    } else {
        char_upper(s[0]) + s.drop_first()
    }
}

/// `s` with its first character in upper case.
pub fn capitalize_first(s: &str) -> (r: String)
    ensures
        r@ == capitalized(s@),
{
    let v = chars_of(s);
    if v.len() == 0 {
        return String::new();
    }
    let mut r = char_to_uppercase(v[0]);
    let rest = string_of(&v, 1, v.len());
    push_str(&mut r, rest.as_str());
    proof {
        assert(v@.subrange(1, v@.len() as int) =~= v@.drop_first());
    }
    r
}

/// The rule type a `rules!` entry names: the rule name capitalised, then
/// `Rule` (`min` becomes `MinRule`).
pub fn rule_type_name(rule: &str) -> (r: String)
    ensures
        r@ == capitalized(rule@) + "Rule"@,
{
    let mut r = capitalize_first(rule);
    push_str(&mut r, "Rule");
    r
}

/// The validation keyword of a Rust type name: `string`, `integer`,
/// `numeric`, `boolean`, or empty for any other type.
pub open spec fn type_keyword(ident: Seq<char>) -> Seq<char> {
    if ident == "String"@ || ident == "str"@ {
        "string"@
    } else if ident == "i8"@ || ident == "i16"@ || ident == "i32"@ || ident == "i64"@ || ident
        == "i128"@ || ident == "isize"@ || ident == "u8"@ || ident == "u16"@ || ident == "u32"@
        || ident == "u64"@ || ident == "u128"@ || ident == "usize"@ {
        "integer"@
    } else if ident == "f32"@ || ident == "f64"@ {
        "numeric"@
    } else if ident == "bool"@ {
        "boolean"@
    } else {
        Seq::empty()
    }
}

/// The validation keyword of a Rust type name.
pub fn keyword_for_ident(ident: &str) -> (r: String)
    ensures
        r@ == type_keyword(ident@),
{
    if str_eq(ident, "String") || str_eq(ident, "str") {
        copy_str("string")
    } else if str_eq(ident, "i8") || str_eq(ident, "i16") || str_eq(ident, "i32") || str_eq(ident, "i64")
        || str_eq(ident, "i128") || str_eq(ident, "isize") || str_eq(ident, "u8") || str_eq(ident, "u16")
        || str_eq(ident, "u32") || str_eq(ident, "u64") || str_eq(ident, "u128") || str_eq(ident, "usize") {
        copy_str("integer")
    } else if str_eq(ident, "f32") || str_eq(ident, "f64") {
        copy_str("numeric")
    } else if str_eq(ident, "bool") {
        copy_str("boolean")
    } else {
        String::new()
    }
}

/// Whether a validation type keyword is numeric.
pub fn is_numeric(ty: &str) -> (r: bool)
    ensures
        r == (ty@ == "int"@ || ty@ == "integer"@ || ty@ == "float"@ || ty@ == "decimal"@ || ty@
            == "number"@),
{
    str_eq(ty, "int") || str_eq(ty, "integer") || str_eq(ty, "float") || str_eq(ty, "decimal")
        || str_eq(ty, "number")
}

/// Whether a validation type keyword names an upload.
pub fn is_file(ty: &str) -> (r: bool)
    ensures
        r == (ty@ == "image"@ || ty@ == "file"@),
{
    str_eq(ty, "image") || str_eq(ty, "file")
}

/// The rule type that checks values of a validation type keyword, if any.
pub open spec fn base_rule_name(ty: Seq<char>) -> Option<Seq<char>> {
    if ty == "string"@ || ty == "text"@ {
        Some("StringRule"@)
    } else if ty == "email"@ {
        Some("EmailRule"@)
    } else if ty == "url"@ {
        Some("UrlRule"@)
    } else if ty == "uuid"@ {
        Some("UuidRule"@)
    } else if ty == "ip"@ {
        Some("IpRule"@)
    } else if ty == "int"@ || ty == "integer"@ {
        Some("IntegerRule"@)
    } else if ty == "float"@ || ty == "decimal"@ || ty == "number"@ {
        Some("NumericRule"@)
    } else if ty == "date"@ || ty == "datetime"@ {
        Some("DateRule"@)
    } else if ty == "array"@ {
        Some("ArrayRule"@)
    } else {
        None
    }
}

/// The rule type that checks values of a validation type keyword, if any;
/// booleans and unknown keywords have none.
pub fn base_rule(ty: &str) -> (r: Option<&'static str>)
    ensures
        match r {
            Some(n) => base_rule_name(ty@) == Some(n@),
            None => base_rule_name(ty@) is None,
        },
{
    if str_eq(ty, "string") || str_eq(ty, "text") {
        Some("StringRule")
    } else if str_eq(ty, "email") {
        Some("EmailRule")
    } else if str_eq(ty, "url") {
        Some("UrlRule")
    } else if str_eq(ty, "uuid") {
        Some("UuidRule")
    } else if str_eq(ty, "ip") {
        Some("IpRule")
    } else if str_eq(ty, "int") || str_eq(ty, "integer") {
        Some("IntegerRule")
    } else if str_eq(ty, "float") || str_eq(ty, "decimal") || str_eq(ty, "number") {
        Some("NumericRule")
    } else if str_eq(ty, "date") || str_eq(ty, "datetime") {
        Some("DateRule")
    } else if str_eq(ty, "array") {
        Some("ArrayRule")
    } else {
        None
    }
}

} // verus!
