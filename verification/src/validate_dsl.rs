//! The `validate!` field language: `title: string.max(255)`, `age: int.min(18)`,
//! `bio: string.optional`, `avatar: image.max(mb(5))`.
//!
//! Each declared field becomes the list of rules the request's value is
//! checked against, or, for `image` and `file` fields, a check of the
//! uploaded file. The leading type decides whether `min` and `max` bound a
//! length or a number; fields are required unless marked `.optional` or
//! `.nullable`. Modifier arguments are expressions of the caller's code:
//! rules refer to them by the index of the modifier that carries them.
use vstd::prelude::*;
use crate::naming::{base_rule, base_rule_name, is_file, is_numeric};
use crate::text::{copy_str, push_str, str_eq};

verus! {

/// A `.name` or `.name(args)` modifier, with the number of its arguments.
#[derive(Debug)]
pub struct Modifier {
    pub name: String,
    pub args: usize,
}

/// One `name: type.modifiers` entry.
#[derive(Debug)]
pub struct FieldDecl {
    pub name: String,
    pub ty: String,
    pub ops: Vec<Modifier>,
}

/// One rule of a field; a bound is the first argument of the modifier at
/// the given index (both arguments for `Between`, `Unique` and `Exists`).
#[derive(Debug, PartialEq, Eq)]
pub enum RulePlan {
    /// the value must be present
    Required,
    /// the rule type that checks values of the field's type
    Base(&'static str),
    /// at least this many characters
    MinLength(usize),
    /// at least this number
    Min(usize),
    /// at most this many characters
    MaxLength(usize),
    /// at most this number
    Max(usize),
    /// a number between the two arguments
    Between(usize),
    /// no row of the table has the value in the column
    Unique(usize),
    /// some row of the table has the value in the column
    Exists(usize),
}

/// The rules of one field.
#[derive(Debug)]
pub struct FieldRules {
    pub field: String,
    pub rules: Vec<RulePlan>,
}

/// The check of one uploaded file: an `image` must have an image type; the
/// MIME allow-list is made of the arguments `(modifier, argument)` listed in
/// `mime` (checked when there is one); the size bounds are the first
/// arguments of the modifiers at `min` and `max`. An optional file is
/// checked only when uploaded; a required one must be.
#[derive(Debug)]
pub struct FileCheck {
    pub field: String,
    pub optional: bool,
    pub image: bool,
    pub mime: Vec<(usize, usize)>,
    pub min: Option<usize>,
    pub max: Option<usize>,
}

/// What `validate!` checks: the rules of the request's fields and the
/// checks of its uploads, each in declaration order.
#[derive(Debug)]
pub struct ValidatePlan {
    pub rules: Vec<FieldRules>,
    pub files: Vec<FileCheck>,
}

/// A rule with its rule type's name as characters and indices as integers.
pub enum RuleView {
    Required,
    Base(Seq<char>),
    MinLength(int),
    Min(int),
    MaxLength(int),
    Max(int),
    Between(int),
    Unique(int),
    Exists(int),
}

/// The view of a rule.
pub open spec fn rule_view(r: RulePlan) -> RuleView {
    match r {
        RulePlan::Required => RuleView::Required,
        RulePlan::Base(n) => RuleView::Base(n@),
        RulePlan::MinLength(k) => RuleView::MinLength(k as int),
        RulePlan::Min(k) => RuleView::Min(k as int),
        RulePlan::MaxLength(k) => RuleView::MaxLength(k as int),
        RulePlan::Max(k) => RuleView::Max(k as int),
        RulePlan::Between(k) => RuleView::Between(k as int),
        RulePlan::Unique(k) => RuleView::Unique(k as int),
        RulePlan::Exists(k) => RuleView::Exists(k as int),
    }
}

/// The views of a list of rules.
pub open spec fn rule_views(rs: Seq<RulePlan>) -> Seq<RuleView> {
    rs.map_values(|r: RulePlan| rule_view(r))
}

/// Why a declaration has no plan: a compile error with its message, or a
/// `min`, `max` or `between` modifier without its arguments, on which the
/// expansion stops abruptly.
pub enum Stop {
    Error(Seq<char>),
    MissingArgs,
}

/// The check of a file as plain values.
pub struct FileView {
    pub field: Seq<char>,
    pub optional: bool,
    pub image: bool,
    pub mime: Seq<(int, int)>,
    pub min: Option<int>,
    pub max: Option<int>,
}

/// The view of a file check.
pub open spec fn file_view(c: FileCheck) -> FileView {
    FileView {
        field: c.field@,
        optional: c.optional,
        image: c.image,
        mime: c.mime@.map_values(|p: (usize, usize)| (p.0 as int, p.1 as int)),
        min: match c.min {
            Some(k) => Some(k as int),
            None => None,
        },
        max: match c.max {
            Some(k) => Some(k as int),
            None => None,
        },
    }
}

/// Whether a modifier is `.optional` or `.nullable`.
pub open spec fn is_optional(m: Modifier) -> bool {
    m.name@ == "optional"@ || m.name@ == "nullable"@
}

/// Whether some modifier makes the field optional.
pub open spec fn optional_field(ops: Seq<Modifier>) -> bool {
    exists|i: int| 0 <= i < ops.len() && is_optional(#[trigger] ops[i])
}

/// The message for an unknown modifier of a value field.
pub open spec fn unknown_modifier_message(name: Seq<char>) -> Seq<char> {
    "validate!: unknown modifier `."@ + name + "`"@
}

/// The message for an unknown modifier of a file field of type `ty`.
pub open spec fn unknown_file_modifier_message(name: Seq<char>, ty: Seq<char>) -> Seq<char> {
    "validate!: unknown modifier `."@ + name + "` for a "@ + ty
        + " field (expected optional/min/max/mime)"@
}

/// The message for an unknown field type.
pub open spec fn unknown_type_message(ty: Seq<char>) -> Seq<char> {
    "validate!: unknown field type `"@ + ty
        + "` (expected string/text/email/url/uuid/ip/int/float/decimal/date/array/bool/image/file)"@
}

/// The message for `.unique` or `.exists` without exactly two arguments.
pub open spec fn arity_message(unique: bool) -> Seq<char> {
    if unique {
        "validate!: `.unique(table, column)` requires exactly two arguments"@
    } else {
        "validate!: `.exists(table, column)` requires exactly two arguments"@
    }
}

/// The rule, if any, that modifier `m` at index `k` of a value field adds.
pub open spec fn modifier_rule(m: Modifier, k: int, numeric: bool) -> Result<Option<RuleView>, Stop> {
    let n = m.name@;
    if is_optional(m) {
        Ok(None)
    } else if n == "min"@ {
        if m.args == 0 {
            Err(Stop::MissingArgs)
        } else if numeric {
            Ok(Some(RuleView::Min(k)))
        } else {
            Ok(Some(RuleView::MinLength(k)))
        }
    } else if n == "max"@ {
        if m.args == 0 {
            Err(Stop::MissingArgs)
        } else if numeric {
            Ok(Some(RuleView::Max(k)))
        } else {
            Ok(Some(RuleView::MaxLength(k)))
        }
    } else if n == "between"@ {
        if m.args < 2 {
            Err(Stop::MissingArgs)
        } else {
            Ok(Some(RuleView::Between(k)))
        }
    } else if n == "unique"@ {
        if m.args != 2 {
            Err(Stop::Error(arity_message(true)))
        } else {
            Ok(Some(RuleView::Unique(k)))
        }
    } else if n == "exists"@ {
        if m.args != 2 {
            Err(Stop::Error(arity_message(false)))
        } else {
            Ok(Some(RuleView::Exists(k)))
        }
    } else {
        Err(Stop::Error(unknown_modifier_message(n)))
    }
}

/// The rules the modifiers `ops` of a value field add, in order, or where
/// they stop.
pub open spec fn modifier_rules(ops: Seq<Modifier>, numeric: bool) -> Result<Seq<RuleView>, Stop>
    decreases ops.len(),
{
    if ops.len() == 0 {
        Ok(Seq::empty())
    } else {
        match modifier_rules(ops.drop_last(), numeric) {
            Err(s) => Err(s),
            Ok(rs) => match modifier_rule(ops.last(), ops.len() - 1, numeric) {
                Err(s) => Err(s),
                Ok(Some(r)) => Ok(rs.push(r)),
                Ok(None) => Ok(rs),
            },
        }
    }
}

/// The rules of a value field: `Required` unless optional, the type's rule
/// when it has one, then the modifiers' rules; an unknown type is refused.
pub open spec fn field_rules(f: FieldDecl) -> Result<Seq<RuleView>, Stop> {
    let ty = f.ty@;
    if base_rule_name(ty) is None && !(ty == "bool"@ || ty == "boolean"@) {
        Err(Stop::Error(unknown_type_message(ty)))
    } else {
        let head = (if optional_field(f.ops@) {
            Seq::<RuleView>::empty()
        } else {
            seq![RuleView::Required]
        }) + match base_rule_name(ty) {
            Some(n) => seq![RuleView::Base(n)],
            None => Seq::empty(),
        };
        match modifier_rules(f.ops@, is_numeric_type(ty)) {
            Ok(rs) => Ok(head + rs),
            Err(s) => Err(s),
        }
    }
}

/// Whether a type keyword is numeric.
pub open spec fn is_numeric_type(ty: Seq<char>) -> bool {
    ty == "int"@ || ty == "integer"@ || ty == "float"@ || ty == "decimal"@ || ty == "number"@
}

/// Whether a type keyword names an upload.
pub open spec fn is_file_type(ty: Seq<char>) -> bool {
    ty == "image"@ || ty == "file"@
}

/// The state of a file check after the modifiers `ops`: the MIME arguments,
/// the last `min` and `max` (none when that modifier has no argument), or
/// the message for an unknown modifier.
pub open spec fn file_mods(ops: Seq<Modifier>, ty: Seq<char>) -> Result<
    (Seq<(int, int)>, Option<int>, Option<int>),
    Seq<char>,
>
    decreases ops.len(),
{
    if ops.len() == 0 {
        Ok((Seq::empty(), None, None))
    } else {
        match file_mods(ops.drop_last(), ty) {
            Err(e) => Err(e),
            Ok((mime, min, max)) => {
                let m = ops.last();
                let k = ops.len() - 1;
                let n = m.name@;
                if is_optional(m) {
                    Ok((mime, min, max))
                } else if n == "min"@ {
                    Ok((mime, if m.args > 0 { Some(k) } else { None }, max))
                } else if n == "max"@ {
                    Ok((mime, min, if m.args > 0 { Some(k) } else { None }))
                } else if n == "mime"@ || n == "mimes"@ {
                    Ok((mime + Seq::new(m.args as nat, |a: int| (k, a)), min, max))
                } else {
                    Err(unknown_file_modifier_message(n, ty))
                }
            },
        }
    }
}

/// The check of a file field, or the message for an unknown modifier.
pub open spec fn file_check_of(f: FieldDecl) -> Result<FileView, Seq<char>> {
    match file_mods(f.ops@, f.ty@) {
        Err(e) => Err(e),
        Ok((mime, min, max)) => Ok(
            FileView {
                field: f.name@,
                optional: optional_field(f.ops@),
                image: f.ty@ == "image"@,
                mime,
                min,
                max,
            },
        ),
    }
}

/// The plan of the declarations `fs` as the field rules (name and rules)
/// and the file checks, or where it stops: at the first field that fails.
pub open spec fn validate_outcome(fs: Seq<FieldDecl>) -> Result<
    (Seq<(Seq<char>, Seq<RuleView>)>, Seq<FileView>),
    Stop,
>
    decreases fs.len(),
{
    if fs.len() == 0 {
        Ok((Seq::empty(), Seq::empty()))
    } else {
        match validate_outcome(fs.drop_last()) {
            Err(s) => Err(s),
            Ok((rules, files)) => {
                let f = fs.last();
                if is_file_type(f.ty@) {
                    match file_check_of(f) {
                        Ok(c) => Ok((rules, files.push(c))),
                        Err(e) => Err(Stop::Error(e)),
                    }
                } else {
                    match field_rules(f) {
                        Ok(rs) => Ok((rules.push((f.name@, rs)), files)),
                        Err(s) => Err(s),
                    }
                }
            },
        }
    }
}

/// Where the expansion of a field stops.
enum Halt {
    Error(String),
    MissingArgs,
}

spec fn halt_view(h: Halt) -> Stop {
    match h {
        Halt::Error(m) => Stop::Error(m@),
        Halt::MissingArgs => Stop::MissingArgs,
    }
}

fn is_optional_exec(m: &Modifier) -> (r: bool)
    ensures
        r == is_optional(*m),
{
    str_eq(m.name.as_str(), "optional") || str_eq(m.name.as_str(), "nullable")
}

fn optional_exec(ops: &Vec<Modifier>) -> (r: bool)
    ensures
        r == optional_field(ops@),
{
    let mut i: usize = 0;
    while i < ops.len()
        invariant
            i <= ops.len(),
            forall|j: int| 0 <= j < i ==> !is_optional(#[trigger] ops@[j]),
        decreases ops.len() - i,
    {
        if is_optional_exec(&ops[i]) {
            return true;
        }
        i = i + 1;
    }
    false
}

fn message2(a: &str, b: &str, c: &str) -> (r: String)
    ensures
        r@ == a@ + b@ + c@,
{
    let mut r = String::new();
    push_str(&mut r, a);
    push_str(&mut r, b);
    push_str(&mut r, c);
    r
}

fn modifier_rule_exec(m: &Modifier, k: usize, numeric: bool) -> (r: Result<Option<RulePlan>, Halt>)
    ensures
        match (r, modifier_rule(*m, k as int, numeric)) {
            (Ok(Some(a)), Ok(Some(b))) => rule_view(a) == b,
            (Ok(None), Ok(None)) => true,
            (Err(h), Err(s)) => halt_view(h) == s,
            _ => false,
        },
{
    let n = m.name.as_str();
    if is_optional_exec(m) {
        Ok(None)
    } else if str_eq(n, "min") {
        if m.args == 0 {
            Err(Halt::MissingArgs)
        } else if numeric {
            Ok(Some(RulePlan::Min(k)))
        } else {
            Ok(Some(RulePlan::MinLength(k)))
        }
    } else if str_eq(n, "max") {
        if m.args == 0 {
            Err(Halt::MissingArgs)
        } else if numeric {
            Ok(Some(RulePlan::Max(k)))
        } else {
            Ok(Some(RulePlan::MaxLength(k)))
        }
    } else if str_eq(n, "between") {
        if m.args < 2 {
            Err(Halt::MissingArgs)
        } else {
            Ok(Some(RulePlan::Between(k)))
        }
    } else if str_eq(n, "unique") {
        if m.args != 2 {
            Err(Halt::Error(copy_str("validate!: `.unique(table, column)` requires exactly two arguments")))
        } else {
            Ok(Some(RulePlan::Unique(k)))
        }
    } else if str_eq(n, "exists") {
        if m.args != 2 {
            Err(Halt::Error(copy_str("validate!: `.exists(table, column)` requires exactly two arguments")))
        } else {
            Ok(Some(RulePlan::Exists(k)))
        }
    } else {
        Err(Halt::Error(message2("validate!: unknown modifier `.", n, "`")))
    }
}

fn field_rules_exec(f: &FieldDecl) -> (r: Result<Vec<RulePlan>, Halt>)
    ensures
        match (r, field_rules(*f)) {
            (Ok(a), Ok(b)) => rule_views(a@) == b,
            (Err(h), Err(s)) => halt_view(h) == s,
            _ => false,
        },
{
    let ty = f.ty.as_str();
    let base = base_rule(ty);
    if base.is_none() && !(str_eq(ty, "bool") || str_eq(ty, "boolean")) {
        return Err(
            Halt::Error(
                message2(
                    "validate!: unknown field type `",
                    ty,
                    "` (expected string/text/email/url/uuid/ip/int/float/decimal/date/array/bool/image/file)",
                ),
            ),
        );
    }
    let numeric = is_numeric(ty);
    let mut rules: Vec<RulePlan> = Vec::new();
    if !optional_exec(&f.ops) {
        rules.push(RulePlan::Required);
    }
    match base {
        Some(n) => rules.push(RulePlan::Base(n)),
        None => {},
    }
    let ghost head = rule_views(rules@);
    proof {
        assert(head =~= (if optional_field(f.ops@) {
            Seq::<RuleView>::empty()
        } else {
            seq![RuleView::Required]
        }) + match base_rule_name(ty@) {
            Some(n) => seq![RuleView::Base(n)],
            None => Seq::<RuleView>::empty(),
        });
    }
    let mut i: usize = 0;
    proof {
        assert(f.ops@.take(0) =~= Seq::<Modifier>::empty());
        assert(rule_views(rules@).skip(head.len() as int) =~= Seq::<RuleView>::empty());
        assert(rule_views(rules@).take(head.len() as int) =~= head);
    }
    while i < f.ops.len()
        invariant
            i <= f.ops.len(),
            numeric == is_numeric_type(f.ty@),
            !(base_rule_name(f.ty@) is None && !(f.ty@ == "bool"@ || f.ty@ == "boolean"@)),
            head == (if optional_field(f.ops@) {
                Seq::<RuleView>::empty()
            } else {
                seq![RuleView::Required]
            }) + match base_rule_name(f.ty@) {
                Some(n) => seq![RuleView::Base(n)],
                None => Seq::<RuleView>::empty(),
            },
            modifier_rules(f.ops@.take(i as int), numeric) == Ok::<Seq<RuleView>, Stop>(
                rule_views(rules@).skip(head.len() as int),
            ),
            rule_views(rules@).take(head.len() as int) == head,
            head.len() <= rules@.len(),
        decreases f.ops.len() - i,
    {
        proof {
            assert(f.ops@.take(i + 1).drop_last() =~= f.ops@.take(i as int));
            assert(f.ops@.take(i + 1).last() == f.ops@[i as int]);
        }
        let ghost before = rules@;
        match modifier_rule_exec(&f.ops[i], i, numeric) {
            Ok(Some(r)) => {
                rules.push(r);
                proof {
                    assert(rule_views(rules@) =~= rule_views(before).push(rule_view(r)));
                    assert(rule_views(rules@).skip(head.len() as int) =~= rule_views(before).skip(
                        head.len() as int,
                    ).push(rule_view(r)));
                    assert(rule_views(rules@).take(head.len() as int) =~= rule_views(before).take(
                        head.len() as int,
                    ));
                }
            },
            Ok(None) => {},
            Err(h) => {
                proof {
                    assert(modifier_rules(f.ops@.take(i + 1), numeric) == Err::<Seq<RuleView>, Stop>(
                        halt_view(h),
                    ));
                    lemma_modifier_rules_stop(f.ops@, numeric, i + 1);
                    assert(modifier_rules(f.ops@, numeric) == Err::<Seq<RuleView>, Stop>(halt_view(h)));
                    assert(field_rules(*f) == Err::<Seq<RuleView>, Stop>(halt_view(h)));
                }
                return Err(h);
            },
        }
        i = i + 1;
    }
    proof {
        assert(f.ops@.take(i as int) =~= f.ops@);
        assert(rule_views(rules@) =~= head + rule_views(rules@).skip(head.len() as int));
    }
    Ok(rules)
}

proof fn lemma_modifier_rules_stop(ops: Seq<Modifier>, numeric: bool, k: int)
    requires
        0 < k <= ops.len(),
        modifier_rules(ops.take(k), numeric) is Err,
    ensures
        modifier_rules(ops, numeric) == modifier_rules(ops.take(k), numeric),
    decreases ops.len() - k,
{
    if k < ops.len() {
        assert(ops.take(k + 1).drop_last() =~= ops.take(k));
        lemma_modifier_rules_stop(ops, numeric, k + 1);
    } else {
        assert(ops.take(k) =~= ops);
    }
}

/// The views of a sequence of MIME argument positions.
pub open spec fn positions(v: Seq<(usize, usize)>) -> Seq<(int, int)> {
    v.map_values(|p: (usize, usize)| (p.0 as int, p.1 as int))
}

spec fn opt_int(o: Option<usize>) -> Option<int> {
    match o {
        Some(k) => Some(k as int),
        None => None,
    }
}

proof fn lemma_file_mods_stop(ops: Seq<Modifier>, ty: Seq<char>, k: int)
    requires
        0 < k <= ops.len(),
        file_mods(ops.take(k), ty) is Err,
    ensures
        file_mods(ops, ty) == file_mods(ops.take(k), ty),
    decreases ops.len() - k,
{
    if k < ops.len() {
        assert(ops.take(k + 1).drop_last() =~= ops.take(k));
        lemma_file_mods_stop(ops, ty, k + 1);
    } else {
        assert(ops.take(k) =~= ops);
    }
}

/// The check of an uploaded file declared by `field`: an `image` field must
/// carry an image type, `.mime(..)` / `.mimes(..)` arguments form the
/// allow-list, the last `.min(..)` and `.max(..)` bound the size, and
/// `.optional` / `.nullable` make the upload optional; any other modifier
/// is refused with a message naming it and the field's type.
pub fn file_check(field: &FieldDecl) -> (r: Result<FileCheck, String>)
    ensures
        match (r, file_check_of(*field)) {
            (Ok(c), Ok(v)) => file_view(c) == v,
            (Err(e), Err(m)) => e@ == m,
            _ => false,
        },
{
    let ops = &field.ops;
    let mut mime: Vec<(usize, usize)> = Vec::new();
    let mut min: Option<usize> = None;
    let mut max: Option<usize> = None;
    let mut i: usize = 0;
    proof {
        assert(ops@.take(0) =~= Seq::<Modifier>::empty());
        assert(positions(mime@) =~= Seq::<(int, int)>::empty());
    }
    while i < ops.len()
        invariant
            i <= ops.len(),
            ops@ == field.ops@,
            file_mods(ops@.take(i as int), field.ty@) == Ok::<
                (Seq<(int, int)>, Option<int>, Option<int>),
                Seq<char>,
            >((positions(mime@), opt_int(min), opt_int(max))),
        decreases ops.len() - i,
    {
        proof {
            assert(ops@.take(i + 1).drop_last() =~= ops@.take(i as int));
            assert(ops@.take(i + 1).last() == ops@[i as int]);
        }
        let m = &ops[i];
        let n = m.name.as_str();
        if is_optional_exec(m) {
        } else if str_eq(n, "min") {
            min = if m.args > 0 { Some(i) } else { None };
        } else if str_eq(n, "max") {
            max = if m.args > 0 { Some(i) } else { None };
        } else if str_eq(n, "mime") || str_eq(n, "mimes") {
            let ghost start = positions(mime@);
            let mut a: usize = 0;
            while a < m.args
                invariant
                    a <= m.args,
                    positions(mime@) == start + Seq::new(a as nat, |x: int| (i as int, x)),
                decreases m.args - a,
            {
                let ghost prev = mime@;
                mime.push((i, a));
                proof {
                    assert(positions(mime@) =~= positions(prev).push((i as int, a as int)));
                    assert(positions(mime@) =~= start + Seq::new((a + 1) as nat, |x: int| (i as int, x)));
                }
                a = a + 1;
            }
        } else {
            let mut e = String::new();
            push_str(&mut e, "validate!: unknown modifier `.");
            push_str(&mut e, n);
            push_str(&mut e, "` for a ");
            push_str(&mut e, field.ty.as_str());
            push_str(&mut e, " field (expected optional/min/max/mime)");
            proof {
                assert(e@ =~= unknown_file_modifier_message(n@, field.ty@));
                lemma_file_mods_stop(ops@, field.ty@, i + 1);
            }
            return Err(e);
        }
        i = i + 1;
    }
    proof {
        assert(ops@.take(i as int) =~= ops@);
    }
    let c = FileCheck {
        field: copy_str(field.name.as_str()),
        optional: optional_exec(ops),
        image: str_eq(field.ty.as_str(), "image"),
        mime,
        min,
        max,
    };
    proof {
        assert(c.mime@.map_values(|p: (usize, usize)| (p.0 as int, p.1 as int)) =~= positions(c.mime@));
    }
    Ok(c)
}

/// The views of the field rules of a plan.
pub open spec fn plan_rules(v: Seq<FieldRules>) -> Seq<(Seq<char>, Seq<RuleView>)> {
    v.map_values(|fr: FieldRules| (fr.field@, rule_views(fr.rules@)))
}

/// The views of the file checks of a plan.
pub open spec fn plan_files(v: Seq<FileCheck>) -> Seq<FileView> {
    v.map_values(|c: FileCheck| file_view(c))
}

proof fn lemma_outcome_stop(fs: Seq<FieldDecl>, k: int)
    requires
        0 < k <= fs.len(),
        validate_outcome(fs.take(k)) is Err,
    ensures
        validate_outcome(fs) == validate_outcome(fs.take(k)),
    decreases fs.len() - k,
{
    if k < fs.len() {
        assert(fs.take(k + 1).drop_last() =~= fs.take(k));
        lemma_outcome_stop(fs, k + 1);
    } else {
        assert(fs.take(k) =~= fs);
    }
}

/// What `validate!` checks for the declarations `fields`: the rules of each
/// value field and the check of each file field, in order; the first field
/// with an unknown type or modifier, or with `.unique` / `.exists` not
/// given exactly a table and a column, is refused with its message.
pub fn validate_impl(fields: &Vec<FieldDecl>) -> (r: Result<ValidatePlan, String>)
    requires
        !(validate_outcome(fields@) matches Err(Stop::MissingArgs)),
    ensures
        match (r, validate_outcome(fields@)) {
            (Ok(p), Ok((rules, files))) => plan_rules(p.rules@) == rules && plan_files(p.files@) == files,
            (Err(e), Err(Stop::Error(m))) => e@ == m,
            _ => false,
        },
{
    let mut rules: Vec<FieldRules> = Vec::new();
    let mut files: Vec<FileCheck> = Vec::new();
    let mut i: usize = 0;
    proof {
        assert(fields@.take(0) =~= Seq::<FieldDecl>::empty());
        assert(plan_rules(rules@) =~= Seq::<(Seq<char>, Seq<RuleView>)>::empty());
        assert(plan_files(files@) =~= Seq::<FileView>::empty());
    }
    while i < fields.len()
        invariant
            i <= fields.len(),
            !(validate_outcome(fields@) matches Err(Stop::MissingArgs)),
            validate_outcome(fields@.take(i as int)) == Ok::<
                (Seq<(Seq<char>, Seq<RuleView>)>, Seq<FileView>),
                Stop,
            >((plan_rules(rules@), plan_files(files@))),
        decreases fields.len() - i,
    {
        proof {
            assert(fields@.take(i + 1).drop_last() =~= fields@.take(i as int));
            assert(fields@.take(i + 1).last() == fields@[i as int]);
        }
        let f = &fields[i];
        if is_file(f.ty.as_str()) {
            match file_check(f) {
                Ok(c) => {
                    let ghost before = files@;
                    files.push(c);
                    proof {
                        assert(plan_files(files@) =~= plan_files(before).push(file_view(c)));
                    }
                },
                Err(e) => {
                    proof {
                        lemma_outcome_stop(fields@, i + 1);
                    }
                    return Err(e);
                },
            }
        } else {
            match field_rules_exec(f) {
                Ok(rs) => {
                    let ghost before = rules@;
                    let fr = FieldRules { field: copy_str(f.name.as_str()), rules: rs };
                    let ghost frv = (fr.field@, rule_views(fr.rules@));
                    rules.push(fr);
                    proof {
                        assert(plan_rules(rules@) =~= plan_rules(before).push(frv));
                    }
                },
                Err(Halt::Error(m)) => {
                    proof {
                        lemma_outcome_stop(fields@, i + 1);
                    }
                    return Err(m);
                },
                Err(Halt::MissingArgs) => {
                    proof {
                        lemma_outcome_stop(fields@, i + 1);
                    }
                    return Err(String::new());
                },
            }
        }
        i = i + 1;
    }
    proof {
        assert(fields@.take(i as int) =~= fields@);
    }
    Ok(ValidatePlan { rules, files })
}

proof fn lemma_modifiers_never_require(ops: Seq<Modifier>, numeric: bool)
    ensures
        modifier_rules(ops, numeric) matches Ok(rs) ==> forall|i: int|
            0 <= i < rs.len() ==> !(#[trigger] rs[i] matches RuleView::Required),
    decreases ops.len(),
{
    if ops.len() > 0 {
        lemma_modifiers_never_require(ops.drop_last(), numeric);
    }
}

/// Fields are required by default: a value field's rules include
/// `Required` exactly when it is not marked `.optional` or `.nullable`, and
/// then it comes first.
pub proof fn lemma_required_by_default(f: FieldDecl)
    requires
        field_rules(f) is Ok,
    ensures
        (exists|i: int|
            0 <= i < field_rules(f)->Ok_0.len() && #[trigger] field_rules(f)->Ok_0[i] matches RuleView::Required)
            <==> !optional_field(f.ops@),
        !optional_field(f.ops@) ==> field_rules(f)->Ok_0[0] matches RuleView::Required,
{
    let numeric = is_numeric_type(f.ty@);
    lemma_modifiers_never_require(f.ops@, numeric);
    let rs = field_rules(f)->Ok_0;
    let head = (if optional_field(f.ops@) {
        Seq::<RuleView>::empty()
    } else {
        seq![RuleView::Required]
    }) + match base_rule_name(f.ty@) {
        Some(n) => seq![RuleView::Base(n)],
        None => Seq::<RuleView>::empty(),
    };
    let tail = modifier_rules(f.ops@, numeric)->Ok_0;
    assert(rs == head + tail);
    if !optional_field(f.ops@) {
        assert(rs[0] matches RuleView::Required);
    } else {
        assert forall|i: int| 0 <= i < rs.len() implies !(#[trigger] rs[i] matches RuleView::Required) by {
            if i < head.len() {
                assert(rs[i] == head[i]);
            } else {
                assert(rs[i] == tail[i - head.len()]);
            }
        }
    }
}

} // verus!
