//! Validation rules of form requests: which rule an attribute names, how
//! its arguments are read, and which rule type it constructs. Argument token
//! trees are carried as their source text.
use vstd::prelude::*;
use crate::text::{chars_of, copy_str, str_eq, string_of, trim, trim_str, views};

verus! {

/// A validation rule named by a field attribute.
#[derive(Debug)]
pub enum ValidationRule {
    Required,
    Email,
    Url,
    Ip,
    Uuid,
    Integer,
    Numeric,
    String,
    Boolean,
    Array,
    Alpha,
    AlphaNum,
    Lowercase,
    Uppercase,
    Date,
    Confirmed,
    Min(String),
    Max(String),
    Between(String, String),
    MinLength(String),
    MaxLength(String),
    Size(String),
    In(Vec<String>),
    NotIn(Vec<String>),
    Regex(String),
    DateFormat(String),
    Before(String),
    After(String),
    Unique(String, String),
    Exists(String, String),
    Same(String),
    Different(String),
    RequiredIf(String, String),
    RequiredUnless(String, String),
    RequiredWith(String),
    RequiredWithout(String),
    Nullable,
    Custom(String, Vec<String>),
}

/// The content of a rule.
pub enum RuleView {
    Required,
    Email,
    Url,
    Ip,
    Uuid,
    Integer,
    Numeric,
    String,
    Boolean,
    Array,
    Alpha,
    AlphaNum,
    Lowercase,
    Uppercase,
    Date,
    Confirmed,
    Min(Seq<char>),
    Max(Seq<char>),
    Between(Seq<char>, Seq<char>),
    MinLength(Seq<char>),
    MaxLength(Seq<char>),
    Size(Seq<char>),
    In(Seq<Seq<char>>),
    NotIn(Seq<Seq<char>>),
    Regex(Seq<char>),
    DateFormat(Seq<char>),
    Before(Seq<char>),
    After(Seq<char>),
    Unique(Seq<char>, Seq<char>),
    Exists(Seq<char>, Seq<char>),
    Same(Seq<char>),
    Different(Seq<char>),
    RequiredIf(Seq<char>, Seq<char>),
    RequiredUnless(Seq<char>, Seq<char>),
    RequiredWith(Seq<char>),
    RequiredWithout(Seq<char>),
    Nullable,
    Custom(Seq<char>, Seq<Seq<char>>),
}

impl View for ValidationRule {
    type V = RuleView;

    open spec fn view(&self) -> RuleView {
        match self {
            ValidationRule::Required => RuleView::Required,
            ValidationRule::Email => RuleView::Email,
            ValidationRule::Url => RuleView::Url,
            ValidationRule::Ip => RuleView::Ip,
            ValidationRule::Uuid => RuleView::Uuid,
            ValidationRule::Integer => RuleView::Integer,
            ValidationRule::Numeric => RuleView::Numeric,
            ValidationRule::String => RuleView::String,
            ValidationRule::Boolean => RuleView::Boolean,
            ValidationRule::Array => RuleView::Array,
            ValidationRule::Alpha => RuleView::Alpha,
            ValidationRule::AlphaNum => RuleView::AlphaNum,
            ValidationRule::Lowercase => RuleView::Lowercase,
            ValidationRule::Uppercase => RuleView::Uppercase,
            ValidationRule::Date => RuleView::Date,
            ValidationRule::Confirmed => RuleView::Confirmed,
            ValidationRule::Min(a) => RuleView::Min(a@),
            ValidationRule::Max(a) => RuleView::Max(a@),
            ValidationRule::Between(a, b) => RuleView::Between(a@, b@),
            ValidationRule::MinLength(a) => RuleView::MinLength(a@),
            ValidationRule::MaxLength(a) => RuleView::MaxLength(a@),
            ValidationRule::Size(a) => RuleView::Size(a@),
            ValidationRule::In(v) => RuleView::In(views(v@)),
            ValidationRule::NotIn(v) => RuleView::NotIn(views(v@)),
            ValidationRule::Regex(a) => RuleView::Regex(a@),
            ValidationRule::DateFormat(a) => RuleView::DateFormat(a@),
            ValidationRule::Before(a) => RuleView::Before(a@),
            ValidationRule::After(a) => RuleView::After(a@),
            ValidationRule::Unique(a, b) => RuleView::Unique(a@, b@),
            ValidationRule::Exists(a, b) => RuleView::Exists(a@, b@),
            ValidationRule::Same(a) => RuleView::Same(a@),
            ValidationRule::Different(a) => RuleView::Different(a@),
            ValidationRule::RequiredIf(a, b) => RuleView::RequiredIf(a@, b@),
            ValidationRule::RequiredUnless(a, b) => RuleView::RequiredUnless(a@, b@),
            ValidationRule::RequiredWith(a) => RuleView::RequiredWith(a@),
            ValidationRule::RequiredWithout(a) => RuleView::RequiredWithout(a@),
            ValidationRule::Nullable => RuleView::Nullable,
            ValidationRule::Custom(n, v) => RuleView::Custom(n@, views(v@)),
        }
    }
}

/// What follows a rule's name inside `#[validate(...)]`.
pub enum NestedTail {
    /// Nothing: the next rule, or the end.
    Nothing,
    /// A parenthesised group, by the text of its tokens.
    Parens(String),
    /// Any other tokens, such as `= value`.
    Other,
}

/// The content of a nested tail.
pub enum TailView {
    Nothing,
    Parens(Seq<char>),
    Other,
}

impl View for NestedTail {
    type V = TailView;

    open spec fn view(&self) -> TailView {
        match self {
            NestedTail::Nothing => TailView::Nothing,
            NestedTail::Parens(t) => TailView::Parens(t@),
            NestedTail::Other => TailView::Other,
        }
    }
}

/// Why a nested rule cannot be read.
#[derive(Debug, PartialEq, Eq, Structural)]
pub enum RuleSyntaxError {
    /// The rule needs a parenthesised argument list.
    ExpectedParentheses,
    /// A `,` was expected: after a rule that takes no arguments, or between
    /// the two arguments of a two-argument rule.
    ExpectedComma,
}

/// The argument-free rule a name stands for.
pub open spec fn simple_rule(name: Seq<char>) -> Option<RuleView> {
    if name == "required"@ {
        Some(RuleView::Required)
    } else if name == "email"@ {
        Some(RuleView::Email)
    } else if name == "url"@ {
        Some(RuleView::Url)
    } else if name == "ip"@ {
        Some(RuleView::Ip)
    } else if name == "uuid"@ {
        Some(RuleView::Uuid)
    } else if name == "integer"@ {
        Some(RuleView::Integer)
    } else if name == "numeric"@ {
        Some(RuleView::Numeric)
    } else if name == "string"@ {
        Some(RuleView::String)
    } else if name == "boolean"@ {
        Some(RuleView::Boolean)
    } else if name == "array"@ {
        Some(RuleView::Array)
    } else if name == "alpha"@ {
        Some(RuleView::Alpha)
    } else if name == "alpha_num"@ {
        Some(RuleView::AlphaNum)
    } else if name == "lowercase"@ {
        Some(RuleView::Lowercase)
    } else if name == "uppercase"@ {
        Some(RuleView::Uppercase)
    } else if name == "date"@ {
        Some(RuleView::Date)
    } else if name == "confirmed"@ {
        Some(RuleView::Confirmed)
    } else if name == "nullable"@ {
        Some(RuleView::Nullable)
    } else {
        None
    }
}

/// The one-argument rule a name stands for, with argument `arg`, in the
/// attribute-list form.
pub open spec fn one_arg_rule(name: Seq<char>, arg: Seq<char>) -> Option<RuleView> {
    if name == "min"@ {
        Some(RuleView::Min(arg))
    } else if name == "max"@ {
        Some(RuleView::Max(arg))
    } else if name == "min_length"@ || name == "minLength"@ {
        Some(RuleView::MinLength(arg))
    } else if name == "max_length"@ || name == "maxLength"@ {
        Some(RuleView::MaxLength(arg))
    } else if name == "size"@ {
        Some(RuleView::Size(arg))
    } else if name == "regex"@ {
        Some(RuleView::Regex(arg))
    } else if name == "date_format"@ || name == "dateFormat"@ {
        Some(RuleView::DateFormat(arg))
    } else if name == "before"@ {
        Some(RuleView::Before(arg))
    } else if name == "after"@ {
        Some(RuleView::After(arg))
    } else {
        None
    }
}

/// The one-argument rule a name stands for inside `#[validate(...)]`, which
/// also knows `same` and `different`.
pub open spec fn nested_one_arg_rule(name: Seq<char>, arg: Seq<char>) -> Option<RuleView> {
    if name == "min"@ {
        Some(RuleView::Min(arg))
    } else if name == "max"@ {
        Some(RuleView::Max(arg))
    } else if name == "min_length"@ || name == "minLength"@ {
        Some(RuleView::MinLength(arg))
    } else if name == "max_length"@ || name == "maxLength"@ {
        Some(RuleView::MaxLength(arg))
    } else if name == "size"@ {
        Some(RuleView::Size(arg))
    } else if name == "regex"@ {
        Some(RuleView::Regex(arg))
    } else if name == "date_format"@ || name == "dateFormat"@ {
        Some(RuleView::DateFormat(arg))
    } else if name == "before"@ {
        Some(RuleView::Before(arg))
    } else if name == "after"@ {
        Some(RuleView::After(arg))
    } else if name == "same"@ {
        Some(RuleView::Same(arg))
    } else if name == "different"@ {
        Some(RuleView::Different(arg))
    } else {
        None
    }
}

/// Rules written with two arguments.
pub open spec fn is_pair_rule(name: Seq<char>) -> bool {
    name == "between"@ || name == "unique"@ || name == "exists"@
}

/// The two-argument rule `name` stands for, with arguments `a` and `b`.
pub open spec fn pair_rule(name: Seq<char>, a: Seq<char>, b: Seq<char>) -> RuleView {
    if name == "between"@ {
        RuleView::Between(a, b)
    } else if name == "unique"@ {
        RuleView::Unique(a, b)
    } else {
        RuleView::Exists(a, b)
    }
}

/// The position of the first `,` at or after `i` that separates two
/// arguments, that is one outside every bracket pair and string literal,
/// given the bracket depth and string state at `i`.
pub open spec fn separator_from(c: Seq<char>, i: int, depth: nat, in_str: bool, escaped: bool) -> Option<int>
    decreases c.len() - i,
{
    if i < 0 || i >= c.len() {
        None
    } else if in_str {
        if escaped {
            separator_from(c, i + 1, depth, true, false)
        } else if c[i] == '\\' {
            separator_from(c, i + 1, depth, true, true)
        } else {
            separator_from(c, i + 1, depth, c[i] != '"', false)
        }
    } else if c[i] == '"' {
        separator_from(c, i + 1, depth, true, false)
    } else if c[i] == '(' || c[i] == '[' || c[i] == '{' {
        separator_from(c, i + 1, depth + 1, false, false)
    } else if c[i] == ')' || c[i] == ']' || c[i] == '}' {
        separator_from(c, i + 1, if depth > 0 { (depth - 1) as nat } else { 0 }, false, false)
    } else if c[i] == ',' && depth == 0 {
        Some(i)
    } else {
        separator_from(c, i + 1, depth, false, false)
    }
}

/// The two arguments of an argument list `c`: the text before and after its
/// first separating comma, each trimmed; `None` when `c` has no such comma.
pub open spec fn pair_args(c: Seq<char>) -> Option<(Seq<char>, Seq<char>)> {
    match separator_from(c, 0, 0, false, false) {
        Some(k) => Some((trim(c.take(k)), trim(c.skip(k + 1)))),
        None => None,
    }
}

/// The rule read from `name` and what follows it inside `#[validate(...)]`.
/// A one-argument rule takes the whole parenthesised text as its argument; a
/// two-argument rule splits it at its first separating comma and fails
/// without one; a rule the list does not know is a custom rule whose
/// parenthesised text, if not empty, is its one argument.
pub open spec fn nested_rule(name: Seq<char>, tail: TailView) -> Result<RuleView, RuleSyntaxError> {
    match simple_rule(name) {
        Some(r) => match tail {
            TailView::Nothing => Ok(r),
            _ => Err(RuleSyntaxError::ExpectedComma),
        },
        None => if nested_one_arg_rule(name, Seq::empty()) is Some || is_pair_rule(name) {
            match tail {
                TailView::Parens(c) => if is_pair_rule(name) {
                    match pair_args(c) {
                        Some(args) => Ok(pair_rule(name, args.0, args.1)),
                        None => Err(RuleSyntaxError::ExpectedComma),
                    }
                } else {
                    Ok(nested_one_arg_rule(name, c)->0)
                },
                _ => Err(RuleSyntaxError::ExpectedParentheses),
            }
        } else {
            match tail {
                TailView::Parens(c) => Ok(RuleView::Custom(name, if c.len() > 0 { seq![c] } else { Seq::empty() })),
                TailView::Nothing => Ok(RuleView::Custom(name, Seq::empty())),
                TailView::Other => Err(RuleSyntaxError::ExpectedComma),
            }
        },
    }
}

/// The rule an attribute with an argument list names: a known one-argument
/// rule, else a custom rule with the list text as its argument.
pub open spec fn list_rule(name: Seq<char>, tokens: Seq<char>) -> RuleView {
    match one_arg_rule(name, tokens) {
        Some(r) => r,
        None => RuleView::Custom(name, seq![tokens]),
    }
}

fn simple_rule_exec(name: &str) -> (r: Option<ValidationRule>)
    ensures
        match r {
            Some(x) => simple_rule(name@) == Some(x@),
            None => simple_rule(name@) is None,
        },
{
    if str_eq(name, "required") {
        Some(ValidationRule::Required)
    } else if str_eq(name, "email") {
        Some(ValidationRule::Email)
    } else if str_eq(name, "url") {
        Some(ValidationRule::Url)
    } else if str_eq(name, "ip") {
        Some(ValidationRule::Ip)
    } else if str_eq(name, "uuid") {
        Some(ValidationRule::Uuid)
    } else if str_eq(name, "integer") {
        Some(ValidationRule::Integer)
    } else if str_eq(name, "numeric") {
        Some(ValidationRule::Numeric)
    } else if str_eq(name, "string") {
        Some(ValidationRule::String)
    } else if str_eq(name, "boolean") {
        Some(ValidationRule::Boolean)
    } else if str_eq(name, "array") {
        Some(ValidationRule::Array)
    } else if str_eq(name, "alpha") {
        Some(ValidationRule::Alpha)
    } else if str_eq(name, "alpha_num") {
        Some(ValidationRule::AlphaNum)
    } else if str_eq(name, "lowercase") {
        Some(ValidationRule::Lowercase)
    } else if str_eq(name, "uppercase") {
        Some(ValidationRule::Uppercase)
    } else if str_eq(name, "date") {
        Some(ValidationRule::Date)
    } else if str_eq(name, "confirmed") {
        Some(ValidationRule::Confirmed)
    } else if str_eq(name, "nullable") {
        Some(ValidationRule::Nullable)
    } else {
        None
    }
}

fn one_arg_rule_exec(name: &str, arg: &str) -> (r: Option<ValidationRule>)
    ensures
        match r {
            Some(x) => one_arg_rule(name@, arg@) == Some(x@),
            None => one_arg_rule(name@, arg@) is None,
        },
{
    if str_eq(name, "min") {
        Some(ValidationRule::Min(copy_str(arg)))
    } else if str_eq(name, "max") {
        Some(ValidationRule::Max(copy_str(arg)))
    } else if str_eq(name, "min_length") || str_eq(name, "minLength") {
        Some(ValidationRule::MinLength(copy_str(arg)))
    } else if str_eq(name, "max_length") || str_eq(name, "maxLength") {
        Some(ValidationRule::MaxLength(copy_str(arg)))
    } else if str_eq(name, "size") {
        Some(ValidationRule::Size(copy_str(arg)))
    } else if str_eq(name, "regex") {
        Some(ValidationRule::Regex(copy_str(arg)))
    } else if str_eq(name, "date_format") || str_eq(name, "dateFormat") {
        Some(ValidationRule::DateFormat(copy_str(arg)))
    } else if str_eq(name, "before") {
        Some(ValidationRule::Before(copy_str(arg)))
    } else if str_eq(name, "after") {
        Some(ValidationRule::After(copy_str(arg)))
    } else {
        None
    }
}

fn nested_one_arg_rule_exec(name: &str, arg: &str) -> (r: Option<ValidationRule>)
    ensures
        match r {
            Some(x) => nested_one_arg_rule(name@, arg@) == Some(x@),
            None => nested_one_arg_rule(name@, arg@) is None,
        },
{
    if str_eq(name, "min") {
        Some(ValidationRule::Min(copy_str(arg)))
    } else if str_eq(name, "max") {
        Some(ValidationRule::Max(copy_str(arg)))
    } else if str_eq(name, "min_length") || str_eq(name, "minLength") {
        Some(ValidationRule::MinLength(copy_str(arg)))
    } else if str_eq(name, "max_length") || str_eq(name, "maxLength") {
        Some(ValidationRule::MaxLength(copy_str(arg)))
    } else if str_eq(name, "size") {
        Some(ValidationRule::Size(copy_str(arg)))
    } else if str_eq(name, "regex") {
        Some(ValidationRule::Regex(copy_str(arg)))
    } else if str_eq(name, "date_format") || str_eq(name, "dateFormat") {
        Some(ValidationRule::DateFormat(copy_str(arg)))
    } else if str_eq(name, "before") {
        Some(ValidationRule::Before(copy_str(arg)))
    } else if str_eq(name, "after") {
        Some(ValidationRule::After(copy_str(arg)))
    } else if str_eq(name, "same") {
        Some(ValidationRule::Same(copy_str(arg)))
    } else if str_eq(name, "different") {
        Some(ValidationRule::Different(copy_str(arg)))
    } else {
        None
    }
}

fn is_pair_rule_exec(name: &str) -> (r: bool)
    ensures
        r == is_pair_rule(name@),
{
    str_eq(name, "between") || str_eq(name, "unique") || str_eq(name, "exists")
}

fn pair_rule_exec(name: &str, a: String, b: String) -> (r: ValidationRule)
    ensures
        r@ == pair_rule(name@, a@, b@),
{
    if str_eq(name, "between") {
        ValidationRule::Between(a, b)
    } else if str_eq(name, "unique") {
        ValidationRule::Unique(a, b)
    } else {
        ValidationRule::Exists(a, b)
    }
}

/// The position of the first separating comma of `v`.
fn find_separator(v: &Vec<char>) -> (r: Option<usize>)
    ensures
        match r {
            Some(k) => k < v.len() && separator_from(v@, 0, 0, false, false) == Some(k as int),
            None => separator_from(v@, 0, 0, false, false) is None,
        },
{
    let mut i: usize = 0;
    let mut depth: usize = 0;
    let mut in_str = false;
    let mut escaped = false;
    while i < v.len()
        invariant
            i <= v.len(),
            depth <= i,
            escaped ==> in_str,
            separator_from(v@, 0, 0, false, false) == separator_from(v@, i as int, depth as nat, in_str, escaped),
        decreases v.len() - i,
    {
        let ch = v[i];
        if in_str {
            if escaped {
                escaped = false;
            } else if ch == '\\' {
                escaped = true;
            } else if ch == '"' {
                in_str = false;
            }
        } else if ch == '"' {
            in_str = true;
        } else if ch == '(' || ch == '[' || ch == '{' {
            depth = depth + 1;
        } else if ch == ')' || ch == ']' || ch == '}' {
            if depth > 0 {
                depth = depth - 1;
            }
        } else if ch == ',' && depth == 0 {
            return Some(i);
        }
        i = i + 1;
    }
    None
}

/// Reads the rule `name` and what follows it inside `#[validate(...)]`.
pub fn parse_single_rule(name: &str, tail: &NestedTail) -> (r: Result<ValidationRule, RuleSyntaxError>)
    requires
        name@.len() > 0,
    ensures
        match nested_rule(name@, tail@) {
            Ok(v) => r matches Ok(x) && x@ == v,
            Err(e) => r == Err::<ValidationRule, RuleSyntaxError>(e),
        },
{
    match simple_rule_exec(name) {
        Some(r) => match tail {
            NestedTail::Nothing => Ok(r),
            _ => Err(RuleSyntaxError::ExpectedComma),
        },
        None => {
            let is_pair = is_pair_rule_exec(name);
            let known = nested_one_arg_rule_exec(name, "");
            if known.is_some() || is_pair {
                match tail {
                    NestedTail::Parens(c) => if is_pair {
                        let v = chars_of(c.as_str());
                        match find_separator(&v) {
                            None => Err(RuleSyntaxError::ExpectedComma),
                            Some(k) => {
                                let first = string_of(&v, 0, k);
                                let second = string_of(&v, k + 1, v.len());
                                proof {
                                    assert(first@ =~= c@.take(k as int));
                                    assert(second@ =~= c@.skip(k + 1));
                                }
                                let a = trim_str(first.as_str());
                                let b = trim_str(second.as_str());
                                Ok(pair_rule_exec(name, a, b))
                            },
                        }
                    } else {
                        match nested_one_arg_rule_exec(name, c.as_str()) {
                            Some(r) => Ok(r),
                            None => Err(RuleSyntaxError::ExpectedParentheses),
                        }
                    },
                    _ => Err(RuleSyntaxError::ExpectedParentheses),
                }
            } else {
                match tail {
                    NestedTail::Parens(c) => {
                        let mut args: Vec<String> = Vec::new();
                        if !c.as_str().is_empty() {
                            let s = copy_str(c.as_str());
                            let ghost sv = s@;
                            args.push(s);
                            proof {
                                assert(views(args@) =~= seq![sv]);
                            }
                        }
                        proof {
                            if c@.len() > 0 {
                                assert(views(args@) =~= seq![c@]);
                            } else {
                                assert(views(args@) =~= Seq::<Seq<char>>::empty());
                            }
                        }
                        Ok(ValidationRule::Custom(copy_str(name), args))
                    },
                    NestedTail::Nothing => {
                        let args: Vec<String> = Vec::new();
                        proof {
                            assert(views(args@) =~= Seq::<Seq<char>>::empty());
                        }
                        Ok(ValidationRule::Custom(copy_str(name), args))
                    },
                    NestedTail::Other => Err(RuleSyntaxError::ExpectedComma),
                }
            }
        },
    }
}

/// The rule an attribute `#[name(tokens)]` names.
pub fn parse_rule_with_args(name: &str, tokens: &str) -> (r: ValidationRule)
    ensures
        r@ == list_rule(name@, tokens@),
{
    match one_arg_rule_exec(name, tokens) {
        Some(r) => r,
        None => {
            let mut args: Vec<String> = Vec::new();
            let s = copy_str(tokens);
            let ghost sv = s@;
            args.push(s);
            proof {
                assert(views(args@) =~= seq![sv]);
            }
            ValidationRule::Custom(copy_str(name), args)
        },
    }
}

/// The form of a field attribute other than `validate` and `rules`.
pub enum AttrForm {
    /// `#[name]`
    Path,
    /// `#[name(tokens)]`, by the text of the tokens
    List(String),
    /// `#[name = value]`
    NameValue,
}

/// The rule a field attribute `#[name ...]` adds, if any: a known rule name
/// adds its rule whatever follows it; another name adds a rule only with an
/// argument list.
pub open spec fn attr_rule(name: Seq<char>, list: Option<Seq<char>>) -> Option<RuleView> {
    match simple_rule(name) {
        Some(r) => Some(r),
        None => match list {
            Some(t) => Some(list_rule(name, t)),
            None => None,
        },
    }
}

/// The rule a field attribute `#[name ...]` adds, if any.
pub fn direct_attr_rule(name: &str, form: &AttrForm) -> (r: Option<ValidationRule>)
    ensures
        match r {
            Some(x) => attr_rule(name@, match form {
                AttrForm::List(t) => Some(t@),
                _ => None,
            }) == Some(x@),
            None => attr_rule(name@, match form {
                AttrForm::List(t) => Some(t@),
                _ => None,
            }) is None,
        },
{
    match simple_rule_exec(name) {
        Some(r) => Some(r),
        None => match form {
            AttrForm::List(t) => Some(parse_rule_with_args(name, t.as_str())),
            _ => None,
        },
    }
}

/// How a rule is constructed in generated code.
#[derive(Debug)]
pub enum CallArgs {
    /// The rule type itself, as a unit value
    NoCall,
    /// `Type::new(args)`, each argument by its text
    Args(Vec<String>),
    /// `Type::new(vec![v.to_string(), ...])` over the values
    StringList(Vec<String>),
}

/// The content of construction arguments.
pub enum CallArgsView {
    NoCall,
    Args(Seq<Seq<char>>),
    StringList(Seq<Seq<char>>),
}

/// The content of a construction.
pub struct RuleCallView {
    pub path: Seq<char>,
    pub args: CallArgsView,
}

/// The rule type a rule constructs, and how.
pub open spec fn rule_call(r: RuleView) -> RuleCallView {
    match r {
        RuleView::Required => RuleCallView { path: "rf_validation::rules::RequiredRule"@, args: CallArgsView::NoCall },
        RuleView::Email => RuleCallView { path: "rf_validation::rules::EmailRule"@, args: CallArgsView::NoCall },
        RuleView::Url => RuleCallView { path: "rf_validation::rules::UrlRule"@, args: CallArgsView::NoCall },
        RuleView::Ip => RuleCallView { path: "rf_validation::rules::IpRule"@, args: CallArgsView::NoCall },
        RuleView::Uuid => RuleCallView { path: "rf_validation::rules::UuidRule"@, args: CallArgsView::NoCall },
        RuleView::Integer => RuleCallView { path: "rf_validation::rules::IntegerRule"@, args: CallArgsView::NoCall },
        RuleView::Numeric => RuleCallView { path: "rf_validation::rules::NumericRule"@, args: CallArgsView::NoCall },
        RuleView::String => RuleCallView { path: "rf_validation::rules::StringRule"@, args: CallArgsView::NoCall },
        RuleView::Boolean => RuleCallView { path: "rf_validation::rules::BooleanRule"@, args: CallArgsView::NoCall },
        RuleView::Array => RuleCallView { path: "rf_validation::rules::ArrayRule"@, args: CallArgsView::NoCall },
        RuleView::Alpha => RuleCallView { path: "rf_validation::rules::AlphaRule"@, args: CallArgsView::NoCall },
        RuleView::AlphaNum => RuleCallView { path: "rf_validation::rules::AlphaNumericRule"@, args: CallArgsView::NoCall },
        RuleView::Lowercase => RuleCallView { path: "rf_validation::rules::LowercaseRule"@, args: CallArgsView::NoCall },
        RuleView::Uppercase => RuleCallView { path: "rf_validation::rules::UppercaseRule"@, args: CallArgsView::NoCall },
        RuleView::Date => RuleCallView { path: "rf_validation::rules::DateRule"@, args: CallArgsView::NoCall },
        RuleView::Confirmed => RuleCallView { path: "rf_validation::rules::ConfirmedRule"@, args: CallArgsView::NoCall },
        RuleView::Nullable => RuleCallView { path: "rf_validation::rules::NullableRule"@, args: CallArgsView::NoCall },
        RuleView::Min(a) => RuleCallView { path: "rf_validation::rules::MinRule"@, args: CallArgsView::Args(seq![a]) },
        RuleView::Max(a) => RuleCallView { path: "rf_validation::rules::MaxRule"@, args: CallArgsView::Args(seq![a]) },
        RuleView::MinLength(a) => RuleCallView { path: "rf_validation::rules::MinLengthRule"@, args: CallArgsView::Args(seq![a]) },
        RuleView::MaxLength(a) => RuleCallView { path: "rf_validation::rules::MaxLengthRule"@, args: CallArgsView::Args(seq![a]) },
        RuleView::Size(a) => RuleCallView { path: "rf_validation::rules::SizeRule"@, args: CallArgsView::Args(seq![a]) },
        RuleView::Regex(a) => RuleCallView { path: "rf_validation::rules::RegexRule"@, args: CallArgsView::Args(seq![a]) },
        RuleView::DateFormat(a) => RuleCallView { path: "rf_validation::rules::DateFormatRule"@, args: CallArgsView::Args(seq![a]) },
        RuleView::Before(a) => RuleCallView { path: "rf_validation::rules::BeforeRule"@, args: CallArgsView::Args(seq![a]) },
        RuleView::After(a) => RuleCallView { path: "rf_validation::rules::AfterRule"@, args: CallArgsView::Args(seq![a]) },
        RuleView::Same(a) => RuleCallView { path: "rf_validation::rules::SameRule"@, args: CallArgsView::Args(seq![a]) },
        RuleView::Different(a) => RuleCallView { path: "rf_validation::rules::DifferentRule"@, args: CallArgsView::Args(seq![a]) },
        RuleView::RequiredWith(a) => RuleCallView { path: "rf_validation::rules::RequiredWithRule"@, args: CallArgsView::Args(seq![a]) },
        RuleView::RequiredWithout(a) => RuleCallView { path: "rf_validation::rules::RequiredWithoutRule"@, args: CallArgsView::Args(seq![a]) },
        RuleView::Between(a, b) => RuleCallView { path: "rf_validation::rules::BetweenRule"@, args: CallArgsView::Args(seq![a, b]) },
        RuleView::Unique(a, b) => RuleCallView { path: "rf_validation::rules::SimpleUniqueRule"@, args: CallArgsView::Args(seq![a, b]) },
        RuleView::Exists(a, b) => RuleCallView { path: "rf_validation::rules::SimpleExistsRule"@, args: CallArgsView::Args(seq![a, b]) },
        RuleView::RequiredIf(a, b) => RuleCallView { path: "rf_validation::rules::RequiredIfRule"@, args: CallArgsView::Args(seq![a, b]) },
        RuleView::RequiredUnless(a, b) => RuleCallView { path: "rf_validation::rules::RequiredUnlessRule"@, args: CallArgsView::Args(seq![a, b]) },
        RuleView::In(vals) => RuleCallView { path: "rf_validation::rules::InRule"@, args: CallArgsView::StringList(vals) },
        RuleView::NotIn(vals) => RuleCallView { path: "rf_validation::rules::NotInRule"@, args: CallArgsView::StringList(vals) },
        RuleView::Custom(n, args) => RuleCallView { path: n, args: if args.len() == 0 { CallArgsView::NoCall } else { CallArgsView::Args(args) } },
    }
}

fn copy_strings(v: &Vec<String>) -> (r: Vec<String>)
    ensures
        views(r@) == views(v@),
{
    let mut r: Vec<String> = Vec::new();
    let mut i: usize = 0;
    while i < v.len()
        invariant
            i <= v.len(),
            views(r@) == views(v@).take(i as int),
        decreases v.len() - i,
    {
        let s = copy_str(v[i].as_str());
        let ghost before = r@;
        let ghost sv = s@;
        r.push(s);
        proof {
            assert(views(r@) =~= views(before).push(sv));
            assert(views(r@) =~= views(v@).take(i + 1));
        }
        i = i + 1;
    }
    proof {
        assert(views(v@).take(i as int) =~= views(v@));
    }
    r
}

/// The rule type `rule` constructs and how: `rf_validation`'s rule types
/// for the known rules, the custom rule's own name otherwise.
pub fn rule_constructor(rule: &ValidationRule) -> (r: (String, CallArgs))
    ensures
        r.0@ == rule_call(rule@).path,
        match (r.1, rule_call(rule@).args) {
            (CallArgs::NoCall, CallArgsView::NoCall) => true,
            (CallArgs::Args(a), CallArgsView::Args(b)) => views(a@) == b,
            (CallArgs::StringList(a), CallArgsView::StringList(b)) => views(a@) == b,
            _ => false,
        },
{
    let r = match rule {
        ValidationRule::Required => (copy_str("rf_validation::rules::RequiredRule"), CallArgs::NoCall),
        ValidationRule::Email => (copy_str("rf_validation::rules::EmailRule"), CallArgs::NoCall),
        ValidationRule::Url => (copy_str("rf_validation::rules::UrlRule"), CallArgs::NoCall),
        ValidationRule::Ip => (copy_str("rf_validation::rules::IpRule"), CallArgs::NoCall),
        ValidationRule::Uuid => (copy_str("rf_validation::rules::UuidRule"), CallArgs::NoCall),
        ValidationRule::Integer => (copy_str("rf_validation::rules::IntegerRule"), CallArgs::NoCall),
        ValidationRule::Numeric => (copy_str("rf_validation::rules::NumericRule"), CallArgs::NoCall),
        ValidationRule::String => (copy_str("rf_validation::rules::StringRule"), CallArgs::NoCall),
        ValidationRule::Boolean => (copy_str("rf_validation::rules::BooleanRule"), CallArgs::NoCall),
        ValidationRule::Array => (copy_str("rf_validation::rules::ArrayRule"), CallArgs::NoCall),
        ValidationRule::Alpha => (copy_str("rf_validation::rules::AlphaRule"), CallArgs::NoCall),
        ValidationRule::AlphaNum => (copy_str("rf_validation::rules::AlphaNumericRule"), CallArgs::NoCall),
        ValidationRule::Lowercase => (copy_str("rf_validation::rules::LowercaseRule"), CallArgs::NoCall),
        ValidationRule::Uppercase => (copy_str("rf_validation::rules::UppercaseRule"), CallArgs::NoCall),
        ValidationRule::Date => (copy_str("rf_validation::rules::DateRule"), CallArgs::NoCall),
        ValidationRule::Confirmed => (copy_str("rf_validation::rules::ConfirmedRule"), CallArgs::NoCall),
        ValidationRule::Nullable => (copy_str("rf_validation::rules::NullableRule"), CallArgs::NoCall),
        ValidationRule::Min(a) => (copy_str("rf_validation::rules::MinRule"), CallArgs::Args(vec![copy_str(a.as_str())])),
        ValidationRule::Max(a) => (copy_str("rf_validation::rules::MaxRule"), CallArgs::Args(vec![copy_str(a.as_str())])),
        ValidationRule::MinLength(a) => (copy_str("rf_validation::rules::MinLengthRule"), CallArgs::Args(vec![copy_str(a.as_str())])),
        ValidationRule::MaxLength(a) => (copy_str("rf_validation::rules::MaxLengthRule"), CallArgs::Args(vec![copy_str(a.as_str())])),
        ValidationRule::Size(a) => (copy_str("rf_validation::rules::SizeRule"), CallArgs::Args(vec![copy_str(a.as_str())])),
        ValidationRule::Regex(a) => (copy_str("rf_validation::rules::RegexRule"), CallArgs::Args(vec![copy_str(a.as_str())])),
        ValidationRule::DateFormat(a) => (copy_str("rf_validation::rules::DateFormatRule"), CallArgs::Args(vec![copy_str(a.as_str())])),
        ValidationRule::Before(a) => (copy_str("rf_validation::rules::BeforeRule"), CallArgs::Args(vec![copy_str(a.as_str())])),
        ValidationRule::After(a) => (copy_str("rf_validation::rules::AfterRule"), CallArgs::Args(vec![copy_str(a.as_str())])),
        ValidationRule::Same(a) => (copy_str("rf_validation::rules::SameRule"), CallArgs::Args(vec![copy_str(a.as_str())])),
        ValidationRule::Different(a) => (copy_str("rf_validation::rules::DifferentRule"), CallArgs::Args(vec![copy_str(a.as_str())])),
        ValidationRule::RequiredWith(a) => (copy_str("rf_validation::rules::RequiredWithRule"), CallArgs::Args(vec![copy_str(a.as_str())])),
        ValidationRule::RequiredWithout(a) => (copy_str("rf_validation::rules::RequiredWithoutRule"), CallArgs::Args(vec![copy_str(a.as_str())])),
        ValidationRule::Between(a, b) => (copy_str("rf_validation::rules::BetweenRule"), CallArgs::Args(vec![copy_str(a.as_str()), copy_str(b.as_str())])),
        ValidationRule::Unique(a, b) => (copy_str("rf_validation::rules::SimpleUniqueRule"), CallArgs::Args(vec![copy_str(a.as_str()), copy_str(b.as_str())])),
        ValidationRule::Exists(a, b) => (copy_str("rf_validation::rules::SimpleExistsRule"), CallArgs::Args(vec![copy_str(a.as_str()), copy_str(b.as_str())])),
        ValidationRule::RequiredIf(a, b) => (copy_str("rf_validation::rules::RequiredIfRule"), CallArgs::Args(vec![copy_str(a.as_str()), copy_str(b.as_str())])),
        ValidationRule::RequiredUnless(a, b) => (copy_str("rf_validation::rules::RequiredUnlessRule"), CallArgs::Args(vec![copy_str(a.as_str()), copy_str(b.as_str())])),
        ValidationRule::In(vals) => (copy_str("rf_validation::rules::InRule"), CallArgs::StringList(copy_strings(vals))),
        ValidationRule::NotIn(vals) => (copy_str("rf_validation::rules::NotInRule"), CallArgs::StringList(copy_strings(vals))),
        ValidationRule::Custom(n, args) => (copy_str(n.as_str()), if args.len() == 0 { CallArgs::NoCall } else { CallArgs::Args(copy_strings(args)) }),
    };
    proof {
        match &r.1 {
            CallArgs::Args(a) => {
                assert(views(a@) =~= match rule_call(rule@).args {
                    CallArgsView::Args(b) => b,
                    _ => views(a@),
                });
            },
            _ => {},
        }
    }
    r
}

} // verus!
