//! The `request!` form: fields with rules such as `email`,
//! `length(3, 50)`, `length(8) + uppercase + number` and
//! `range(18, 120) | optional`, and the check a submitted form gets.
use vstd::prelude::*;
use vstd::string::StrSliceExecFns;
use vstd::utf8::encode_utf8;
use crate::manager::{all_digits, digits_value, is_digit, lemma_digits_value_prefix};
use crate::outside::{char_is_numeric, char_is_uppercase, is_numeric_char, is_upper};
use crate::text::{chars_of, decimal, push_decimal, push_str, str_eq};

verus! {

/// One rule of a form field.
#[derive(Debug, Clone, Copy, PartialEq, Eq, Structural)]
pub enum RequestRule {
    /// must contain `@`
    Email,
    /// at least `min` bytes and, with `max`, at most `max` bytes
    Length { min: Option<usize>, max: Option<usize> },
    /// when it reads as an `i32`, between `min` and `max`
    Range { min: i32, max: i32 },
    /// must contain an uppercase letter
    Uppercase,
    /// must contain a numeric character
    Number,
    /// the field may be left out
    Optional,
}

/// A form field and its rules.
#[derive(Debug)]
pub struct RequestField {
    pub name: String,
    pub validations: Vec<RequestRule>,
}

/// The rule a rule word names when written without arguments: `length` and
/// `range` take arguments (`None`), and an unknown word means `email`.
pub open spec fn rule_word(w: Seq<char>) -> Option<RequestRule> {
    if w == "uppercase"@ {
        Some(RequestRule::Uppercase)
    } else if w == "number"@ {
        Some(RequestRule::Number)
    } else if w == "optional"@ {
        Some(RequestRule::Optional)
    } else if w == "length"@ || w == "range"@ {
        None
    } else {
        Some(RequestRule::Email)
    }
}

/// The rule a rule word names when written without arguments; see
/// [`rule_word`].
pub fn rule_named(w: &str) -> (r: Option<RequestRule>)
    ensures
        r == rule_word(w@),
{
    if str_eq(w, "uppercase") {
        Some(RequestRule::Uppercase)
    } else if str_eq(w, "number") {
        Some(RequestRule::Number)
    } else if str_eq(w, "optional") {
        Some(RequestRule::Optional)
    } else if str_eq(w, "length") || str_eq(w, "range") {
        None
    } else {
        Some(RequestRule::Email)
    }
}

/// Whether a field's rules make it optional (an `Option<String>` field).
pub open spec fn optional_rules(rs: Seq<RequestRule>) -> bool {
    exists|i: int| 0 <= i < rs.len() && #[trigger] rs[i] == RequestRule::Optional
}

impl RequestField {
    /// Whether the field is optional.
    pub fn is_optional(&self) -> (r: bool)
        ensures
            r == optional_rules(self.validations@),
    {
        let mut i: usize = 0;
        while i < self.validations.len()
            invariant
                i <= self.validations.len(),
                forall|j: int| 0 <= j < i ==> #[trigger] self.validations@[j] != RequestRule::Optional,
            decreases self.validations.len() - i,
        {
            if self.validations[i] == RequestRule::Optional {
                return true;
            }
            i = i + 1;
        }
        false
    }
}

/// Whether the form's checks are well typed: an optional field carries no
/// rule but `optional` (its value is an `Option`, which the checks do not
/// read).
pub open spec fn well_typed(fields: Seq<RequestField>) -> bool {
    forall|i: int|
        0 <= i < fields.len() && optional_rules(#[trigger] fields[i].validations@) ==> forall|j: int|
            0 <= j < fields[i].validations@.len() ==> fields[i].validations@[j] == RequestRule::Optional
}

/// `s` read as an `i32` the way `str::parse::<i32>` does: an optional `+`
/// or `-`, then one or more ASCII digits, and a value that fits.
pub open spec fn parse_i32(s: Seq<char>) -> Option<int> {
    let signed = s.len() > 0 && (s[0] == '+' || s[0] == '-');
    let d = if signed {
        s.drop_first()
    } else {
        s
    };
    let v: int = if s.len() > 0 && s[0] == '-' {
        -digits_value(d)
    } else {
        digits_value(d) as int
    };
    if d.len() > 0 && all_digits(d) && i32::MIN <= v <= i32::MAX {
        Some(v)
    } else {
        None
    }
}

/// The decimal rendering of an integer, with `-` when negative.
pub open spec fn signed_decimal(n: int) -> Seq<char> {
    if n < 0 {
        "-"@ + decimal((-n) as nat)
    } else {
        decimal(n as nat)
    }
}

/// The message, if any, rule `r` gives for field `name` with value `v`.
pub open spec fn rule_errors(name: Seq<char>, v: Seq<char>, r: RequestRule) -> Seq<Seq<char>> {
    match r {
        RequestRule::Email => if v.contains('@') {
            Seq::empty()
        } else {
            seq![name + " must be a valid email"@]
        },
        RequestRule::Length { min, max } => match (min, max) {
            (Some(lo), Some(hi)) => if encode_utf8(v).len() < lo || encode_utf8(v).len() > hi {
                seq![name + " must be between "@ + decimal(lo as nat) + " and "@ + decimal(hi as nat) + " characters"@]
            } else {
                Seq::empty()
            },
            (Some(lo), None) => if encode_utf8(v).len() < lo {
                seq![name + " must be at least "@ + decimal(lo as nat) + " characters"@]
            } else {
                Seq::empty()
            },
            _ => Seq::empty(),
        },
        RequestRule::Range { min, max } => match parse_i32(v) {
            Some(x) => if x < min || x > max {
                seq![name + " must be between "@ + signed_decimal(min as int) + " and "@ + signed_decimal(max as int)]
            } else {
                Seq::empty()
            },
            None => Seq::empty(),
        },
        RequestRule::Uppercase => if exists|i: int| 0 <= i < v.len() && is_upper(#[trigger] v[i]) {
            Seq::empty()
        } else {
            seq![name + " must contain at least one uppercase letter"@]
        },
        RequestRule::Number => if exists|i: int| 0 <= i < v.len() && is_numeric_char(#[trigger] v[i]) {
            Seq::empty()
        } else {
            seq![name + " must contain at least one number"@]
        },
        RequestRule::Optional => Seq::empty(),
    }
}

/// The messages the rules `rs` give for field `name` with value `v`, in order.
pub open spec fn field_errors(name: Seq<char>, v: Seq<char>, rs: Seq<RequestRule>) -> Seq<Seq<char>>
    decreases rs.len(),
{
    if rs.len() == 0 {
        Seq::empty()
    } else {
        field_errors(name, v, rs.drop_last()) + rule_errors(name, v, rs.last())
    }
}

/// The messages for the form `fields` with the values `values`, field by
/// field.
pub open spec fn form_errors(fields: Seq<RequestField>, values: Seq<Seq<char>>) -> Seq<Seq<char>>
    decreases fields.len(),
{
    if fields.len() == 0 || values.len() == 0 {
        Seq::empty()
    } else {
        form_errors(fields.drop_last(), values.drop_last()) + field_errors(
            fields.last().name@,
            values.last(),
            fields.last().validations@,
        )
    }
}

/// Reads `s` as an `i32` as [`parse_i32`] describes.
pub fn parse_i32_exec(s: &str) -> (r: Option<i32>)
    ensures
        match r {
            Some(x) => parse_i32(s@) == Some(x as int),
            None => parse_i32(s@) is None,
        },
{
    let v = chars_of(s);
    let neg = v.len() > 0 && v[0] == '-';
    let start: usize = if v.len() > 0 && (v[0] == '+' || v[0] == '-') { 1 } else { 0 };
    let ghost d = if s@.len() > 0 && (s@[0] == '+' || s@[0] == '-') { s@.drop_first() } else { s@ };
    proof {
        assert(d =~= v@.subrange(start as int, v@.len() as int));
    }
    if start >= v.len() {
        return None;
    }
    let mut value: i64 = 0;
    let mut i = start;
    while i < v.len()
        invariant
            start <= i <= v.len(),
            start < v.len(),
            v@ == s@,
            d == (if s@.len() > 0 && (s@[0] == '+' || s@[0] == '-') { s@.drop_first() } else { s@ }),
            d == v@.subrange(start as int, v@.len() as int),
            forall|j: int| start <= j < i ==> is_digit(#[trigger] v@[j]),
            value == digits_value(v@.subrange(start as int, i as int)),
            value <= 2147483648,
        decreases v.len() - i,
    {
        let c = v[i];
        if !('0' <= c && c <= '9') {
            proof {
                assert(d[i - start] == c);
                assert(!all_digits(d));
            }
            return None;
        }
        let digit = (c as i64) - 48;
        proof {
            assert(v@.subrange(start as int, i + 1).drop_last() =~= v@.subrange(start as int, i as int));
        }
        if value > 214748364 || value * 10 + digit > 2147483648 {
            proof {
                assert(digits_value(v@.subrange(start as int, i + 1)) > 2147483648);
                assert(v@.subrange(start as int, i + 1) =~= d.take(i + 1 - start));
                if all_digits(d) {
                    lemma_digits_value_prefix(d, i + 1 - start);
                }
            }
            return None;
        }
        value = value * 10 + digit;
        i = i + 1;
    }
    proof {
        assert(v@.subrange(start as int, i as int) =~= d);
        assert forall|j: int| 0 <= j < d.len() implies is_digit(#[trigger] d[j]) by {
            assert(d[j] == v@[start + j]);
        }
    }
    if neg {
        Some((-value) as i32)
    } else if value > 2147483647 {
        None
    } else {
        Some(value as i32)
    }
}

fn push_signed(s: &mut String, n: i32)
    ensures
        final(s)@ == old(s)@ + signed_decimal(n as int),
{
    if n < 0 {
        push_str(s, "-");
        let m: i64 = -(n as i64);
        push_decimal(s, m as u64);
        proof {
            assert(final(s)@ =~= old(s)@ + signed_decimal(n as int));
        }
    } else {
        push_decimal(s, n as u64);
    }
}

fn message(name: &str, tail: &str) -> (r: String)
    ensures
        r@ == name@ + tail@,
{
    let mut r = String::new();
    push_str(&mut r, name);
    push_str(&mut r, tail);
    r
}

fn has_char(v: &Vec<char>, c: char) -> (r: bool)
    ensures
        r == v@.contains(c),
{
    let mut i: usize = 0;
    while i < v.len()
        invariant
            i <= v.len(),
            forall|j: int| 0 <= j < i ==> v@[j] != c,
        decreases v.len() - i,
    {
        if v[i] == c {
            return true;
        }
        i = i + 1;
    }
    false
}

fn has_upper(v: &Vec<char>) -> (r: bool)
    ensures
        r == exists|i: int| 0 <= i < v@.len() && is_upper(#[trigger] v@[i]),
{
    let mut i: usize = 0;
    while i < v.len()
        invariant
            i <= v.len(),
            forall|j: int| 0 <= j < i ==> !is_upper(#[trigger] v@[j]),
        decreases v.len() - i,
    {
        if char_is_uppercase(v[i]) {
            return true;
        }
        i = i + 1;
    }
    false
}

fn has_numeric(v: &Vec<char>) -> (r: bool)
    ensures
        r == exists|i: int| 0 <= i < v@.len() && is_numeric_char(#[trigger] v@[i]),
{
    let mut i: usize = 0;
    while i < v.len()
        invariant
            i <= v.len(),
            forall|j: int| 0 <= j < i ==> !is_numeric_char(#[trigger] v@[j]),
        decreases v.len() - i,
    {
        if char_is_numeric(v[i]) {
            return true;
        }
        i = i + 1;
    }
    false
}

fn check_rule(name: &str, value: &str, r: RequestRule, out: &mut Vec<String>)
    ensures
        crate::text::views(final(out)@) == crate::text::views(old(out)@) + rule_errors(name@, value@, r),
{
    let ghost before = out@;
    let v = chars_of(value);
    let msg: Option<String> = match r {
        RequestRule::Email => if has_char(&v, '@') {
            None
        } else {
            Some(message(name, " must be a valid email"))
        },
        RequestRule::Length { min, max } => {
            let len = value.as_bytes_vec().len();
            match (min, max) {
                (Some(lo), Some(hi)) => if len < lo || len > hi {
                    let mut m = message(name, " must be between ");
                    push_decimal(&mut m, lo as u64);
                    push_str(&mut m, " and ");
                    push_decimal(&mut m, hi as u64);
                    push_str(&mut m, " characters");
                    Some(m)
                } else {
                    None
                },
                (Some(lo), None) => if len < lo {
                    let mut m = message(name, " must be at least ");
                    push_decimal(&mut m, lo as u64);
                    push_str(&mut m, " characters");
                    Some(m)
                } else {
                    None
                },
                _ => None,
            }
        },
        RequestRule::Range { min, max } => match parse_i32_exec(value) {
            Some(x) => if x < min || x > max {
                let mut m = message(name, " must be between ");
                push_signed(&mut m, min);
                push_str(&mut m, " and ");
                push_signed(&mut m, max);
                Some(m)
            } else {
                None
            },
            None => None,
        },
        RequestRule::Uppercase => if has_upper(&v) {
            None
        } else {
            Some(message(name, " must contain at least one uppercase letter"))
        },
        RequestRule::Number => if has_numeric(&v) {
            None
        } else {
            Some(message(name, " must contain at least one number"))
        },
        RequestRule::Optional => None,
    };
    match msg {
        Some(m) => {
            let ghost mv = m@;
            out.push(m);
            proof {
                assert(rule_errors(name@, value@, r) =~= seq![mv]);
                assert(crate::text::views(out@) =~= crate::text::views(before).push(mv));
            }
        },
        None => {
            proof {
                assert(rule_errors(name@, value@, r) =~= Seq::<Seq<char>>::empty());
                assert(crate::text::views(out@) =~= crate::text::views(before) + rule_errors(name@, value@, r));
            }
        },
    }
}

/// The check of a submitted form: each field's value against its rules, in
/// order; `Ok` when no rule complains, else every message. The value of an
/// optional field is not read.
pub fn validate_request(fields: &Vec<RequestField>, values: &Vec<String>) -> (r: Result<(), Vec<String>>)
    requires
        fields.len() == values.len(),
        well_typed(fields@),
    ensures
        match r {
            Ok(()) => form_errors(fields@, crate::text::views(values@)).len() == 0,
            Err(es) => crate::text::views(es@) == form_errors(fields@, crate::text::views(values@))
                && es@.len() > 0,
        },
{
    let mut errors: Vec<String> = Vec::new();
    let mut i: usize = 0;
    proof {
        assert(crate::text::views(errors@) =~= Seq::<Seq<char>>::empty());
        assert(fields@.take(0) =~= Seq::<RequestField>::empty());
    }
    while i < fields.len()
        invariant
            i <= fields.len(),
            fields.len() == values.len(),
            crate::text::views(errors@) == form_errors(
                fields@.take(i as int),
                crate::text::views(values@).take(i as int),
            ),
        decreases fields.len() - i,
    {
        let f = &fields[i];
        let mut k: usize = 0;
        let ghost start = crate::text::views(errors@);
        proof {
            assert(f.validations@.take(0) =~= Seq::<RequestRule>::empty());
            assert(start + field_errors(f.name@, values@[i as int]@, f.validations@.take(0)) =~= start);
        }
        while k < f.validations.len()
            invariant
                k <= f.validations.len(),
                i < values.len(),
                crate::text::views(errors@) == start + field_errors(
                    f.name@,
                    values@[i as int]@,
                    f.validations@.take(k as int),
                ),
            decreases f.validations.len() - k,
        {
            check_rule(f.name.as_str(), values[i].as_str(), f.validations[k], &mut errors);
            proof {
                assert(f.validations@.take(k + 1).drop_last() =~= f.validations@.take(k as int));
                assert(f.validations@.take(k + 1).last() == f.validations@[k as int]);
            }
            k = k + 1;
        }
        proof {
            assert(f.validations@.take(k as int) =~= f.validations@);
            assert(fields@.take(i + 1).drop_last() =~= fields@.take(i as int));
            assert(crate::text::views(values@).take(i + 1).drop_last() =~= crate::text::views(values@).take(
                i as int,
            ));
            assert(crate::text::views(values@).take(i + 1).last() == values@[i as int]@);
        }
        i = i + 1;
    }
    proof {
        assert(fields@.take(i as int) =~= fields@);
        assert(crate::text::views(values@).take(i as int) =~= crate::text::views(values@));
    }
    if errors.len() == 0 {
        Ok(())
    } else {
        Err(errors)
    }
}

} // verus!
