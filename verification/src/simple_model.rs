//! The `Model!` declaration: what a model declared in the compact syntax
//! expands to. The expansion is described by a [`ModelPlan`]: the table, the
//! fillable and hidden columns, the validation rules inferred from the field
//! types, the companion `Create<Name>` / `Update<Name>` request types with
//! their checks, and the relation loaders.
use vstd::prelude::*;
use crate::address::opt_view;
use crate::field_types::{TypeExpr, inferred_rule, is_option, infer_field_rule, is_option_type};
use crate::naming::{snake, to_snake_case};
use crate::text::{copy_str, decimal, push_decimal, push_str, str_eq, views};

verus! {

/// An explicit check attached to a field with the `@` syntax, e.g.
/// `title: String @ min(3) max(200)`.
#[derive(Debug)]
pub enum FieldOverride {
    /// `@ email`: a valid email address
    Email,
    /// `@ url`: a valid URL (string fields)
    Url,
    /// `@ uuid`: a valid UUID (string fields)
    Uuid,
    /// `@ ip`: a valid IPv4 or IPv6 address (string fields)
    Ip,
    /// `@ max(n)`: at most `n` characters (string fields)
    Max(usize),
    /// `@ min(n)`: at least `n` characters (string fields)
    Min(usize),
    /// `@ regex("pattern")`: matches the pattern (string fields)
    Regex(String),
}

/// Whether two overrides are the same check (a pattern by its characters).
pub open spec fn same_override(a: FieldOverride, b: FieldOverride) -> bool {
    match (a, b) {
        (FieldOverride::Email, FieldOverride::Email) => true,
        (FieldOverride::Url, FieldOverride::Url) => true,
        (FieldOverride::Uuid, FieldOverride::Uuid) => true,
        (FieldOverride::Ip, FieldOverride::Ip) => true,
        (FieldOverride::Max(m), FieldOverride::Max(n)) => m == n,
        (FieldOverride::Min(m), FieldOverride::Min(n)) => m == n,
        (FieldOverride::Regex(p), FieldOverride::Regex(q)) => p@ == q@,
        _ => false,
    }
}

/// A copy of an override.
pub fn copy_override(o: &FieldOverride) -> (r: FieldOverride)
    ensures
        same_override(r, *o),
{
    match o {
        FieldOverride::Email => FieldOverride::Email,
        FieldOverride::Url => FieldOverride::Url,
        FieldOverride::Uuid => FieldOverride::Uuid,
        FieldOverride::Ip => FieldOverride::Ip,
        FieldOverride::Max(n) => FieldOverride::Max(*n),
        FieldOverride::Min(n) => FieldOverride::Min(*n),
        FieldOverride::Regex(p) => FieldOverride::Regex(copy_str(p.as_str())),
    }
}

/// A declared field: `name: Type`, `hidden password: String`, or with checks
/// `title: String @ min(3)`.
#[derive(Debug)]
pub struct SimpleField {
    pub hidden: bool,
    pub name: String,
    pub ty: TypeExpr,
    pub overrides: Vec<FieldOverride>,
}

/// One check of a request type's field: the override it comes from and the
/// message reported when it fails.
#[derive(Debug)]
pub struct Check {
    pub rule: FieldOverride,
    pub message: String,
}

/// The checks of one field of a request type. An optional field is checked
/// only when present; a required string field must not be empty.
#[derive(Debug)]
pub struct FieldChecks {
    pub field: String,
    pub optional: bool,
    /// The message for an empty required string field, where that is checked
    pub presence: Option<String>,
    pub checks: Vec<Check>,
}

/// Whether `o` applies to a field whose type keyword is `keyword`: `email`
/// applies to any field, the other checks to string fields only.
pub open spec fn applies(o: FieldOverride, keyword: Seq<char>) -> bool {
    match o {
        FieldOverride::Email => true,
        _ => keyword == "string"@,
    }
}

/// The message reported when check `o` fails on field `name`.
pub open spec fn check_message(name: Seq<char>, o: FieldOverride) -> Seq<char> {
    match o {
        FieldOverride::Max(n) => "The "@ + name + " field must be at most "@ + decimal(n as nat)
            + " characters."@,
        FieldOverride::Min(n) => "The "@ + name + " field must be at least "@ + decimal(n as nat)
            + " characters."@,
        FieldOverride::Email => "The "@ + name + " field must be a valid email address."@,
        FieldOverride::Url => "The "@ + name + " field must be a valid URL."@,
        FieldOverride::Uuid => "The "@ + name + " field must be a valid UUID."@,
        FieldOverride::Ip => "The "@ + name + " field must be a valid IP address."@,
        FieldOverride::Regex(p) => "The "@ + name + " field must match the pattern "@ + p@ + "."@,
    }
}

/// The message for an empty required string field.
pub open spec fn required_message(name: Seq<char>) -> Seq<char> {
    "The "@ + name + " field is required."@
}

/// The overrides among `os` that apply to a field of keyword `keyword`, in order.
pub open spec fn applicable(os: Seq<FieldOverride>, keyword: Seq<char>) -> Seq<FieldOverride>
    decreases os.len(),
{
    if os.len() == 0 {
        Seq::empty()
    } else if applies(os.last(), keyword) {
        applicable(os.drop_last(), keyword).push(os.last())
    } else {
        applicable(os.drop_last(), keyword)
    }
}

/// Whether `cs` are exactly the checks `expected` of field `name`, in order,
/// each with its message.
pub open spec fn checks_are(cs: Seq<Check>, name: Seq<char>, expected: Seq<FieldOverride>) -> bool {
    &&& cs.len() == expected.len()
    &&& forall|i: int|
        0 <= i < cs.len() ==> same_override(#[trigger] cs[i].rule, expected[i])
            && cs[i].message@ == check_message(name, expected[i])
}

/// Whether `fc` are the checks of field `name` with keyword `keyword` and
/// overrides `os`, checked as optional or not.
pub open spec fn field_checks_are(
    fc: FieldChecks,
    name: Seq<char>,
    optional: bool,
    keyword: Seq<char>,
    os: Seq<FieldOverride>,
) -> bool {
    &&& fc.field@ == name
    &&& fc.optional == optional
    &&& opt_view(fc.presence) == (if !optional && keyword == "string"@ {
        Some(required_message(name))
    } else {
        None
    })
    &&& checks_are(fc.checks@, name, applicable(os, keyword))
}

fn check_for(name: &str, o: &FieldOverride) -> (c: Check)
    ensures
        same_override(c.rule, *o),
        c.message@ == check_message(name@, *o),
{
    let mut m = String::new();
    push_str(&mut m, "The ");
    push_str(&mut m, name);
    match o {
        FieldOverride::Max(n) => {
            push_str(&mut m, " field must be at most ");
            push_decimal(&mut m, *n as u64);
            push_str(&mut m, " characters.");
        },
        FieldOverride::Min(n) => {
            push_str(&mut m, " field must be at least ");
            push_decimal(&mut m, *n as u64);
            push_str(&mut m, " characters.");
        },
        FieldOverride::Email => push_str(&mut m, " field must be a valid email address."),
        FieldOverride::Url => push_str(&mut m, " field must be a valid URL."),
        FieldOverride::Uuid => push_str(&mut m, " field must be a valid UUID."),
        FieldOverride::Ip => push_str(&mut m, " field must be a valid IP address."),
        FieldOverride::Regex(p) => {
            push_str(&mut m, " field must match the pattern ");
            push_str(&mut m, p.as_str());
            push_str(&mut m, ".");
        },
    }
    proof {
        assert(m@ =~= check_message(name@, *o));
    }
    Check { rule: copy_override(o), message: m }
}

/// The checks a request type makes of one field: for an optional field the
/// applicable overrides when the value is present; for a required one also,
/// on a string field, that it is not empty. `email` applies to any field,
/// the other overrides to string fields only.
pub fn dto_field_checks(name: &str, is_option: bool, keyword: &str, overrides: &Vec<FieldOverride>) -> (r: FieldChecks)
    ensures
        field_checks_are(r, name@, is_option, keyword@, overrides@),
{
    let is_string = str_eq(keyword, "string");
    let mut checks: Vec<Check> = Vec::new();
    let mut i: usize = 0;
    while i < overrides.len()
        invariant
            i <= overrides.len(),
            is_string == (keyword@ == "string"@),
            checks_are(checks@, name@, applicable(overrides@.take(i as int), keyword@)),
        decreases overrides.len() - i,
    {
        let o = &overrides[i];
        proof {
            assert(overrides@.take(i + 1).drop_last() =~= overrides@.take(i as int));
        }
        let apply = match o {
            FieldOverride::Email => true,
            _ => is_string,
        };
        if apply {
            checks.push(check_for(name, o));
        }
        i = i + 1;
    }
    proof {
        assert(overrides@.take(i as int) =~= overrides@);
    }
    let presence = if !is_option && is_string {
        let mut m = String::new();
        push_str(&mut m, "The ");
        push_str(&mut m, name);
        push_str(&mut m, " field is required.");
        Some(m)
    } else {
        None
    };
    FieldChecks { field: copy_str(name), optional: is_option, presence, checks }
}


/// A Laravel-style relation kind.
#[derive(Debug, Clone, Copy, PartialEq, Eq, Structural)]
pub enum RelationType {
    HasMany,
    HasOne,
    BelongsTo,
    BelongsToMany,
}

/// A declared relation such as `hasMany posts: Post`, with an optional
/// explicit foreign key or pivot table.
#[derive(Debug)]
pub struct Relationship {
    pub rel_type: RelationType,
    pub name: String,
    pub related: String,
    pub foreign_key: Option<String>,
    pub pivot_table: Option<String>,
}

/// How a relation is reached from a row of the model: the related table, the
/// foreign key (singular and `hasMany` relations), the pivot table
/// (`belongsToMany`) and the batch loader that fills the relation's field
/// (every kind but `belongsToMany`, which stays a query method).
#[derive(Debug)]
pub struct RelationPlan {
    pub name: String,
    pub rel_type: RelationType,
    pub related: String,
    pub related_table: String,
    pub foreign_key: Option<String>,
    pub pivot_table: Option<String>,
    pub loader: Option<String>,
}

/// Byte-wise (equivalently, code-point-wise) order of strings: `a` sorts no
/// later than `b`.
pub open spec fn str_le(a: Seq<char>, b: Seq<char>) -> bool
    decreases a.len(),
{
    if a.len() == 0 {
        true
    } else if b.len() == 0 {
        false
    } else if a[0] != b[0] {
        (a[0] as u32) < (b[0] as u32)
    } else {
        str_le(a.drop_first(), b.drop_first())
    }
}

proof fn lemma_str_le_skip(a: Seq<char>, b: Seq<char>, i: int)
    requires
        0 <= i <= a.len(),
        i <= b.len(),
        a.take(i) == b.take(i),
    ensures
        str_le(a, b) == str_le(a.skip(i), b.skip(i)),
    decreases i,
{
    if i > 0 {
        assert(a[0] == a.take(i)[0]);
        assert(b[0] == b.take(i)[0]);
        assert(a.drop_first().take(i - 1) =~= a.take(i).drop_first());
        assert(b.drop_first().take(i - 1) =~= b.take(i).drop_first());
        lemma_str_le_skip(a.drop_first(), b.drop_first(), i - 1);
        assert(a.drop_first().skip(i - 1) =~= a.skip(i));
        assert(b.drop_first().skip(i - 1) =~= b.skip(i));
    } else {
        assert(a.skip(0) =~= a);
        assert(b.skip(0) =~= b);
    }
}

/// Whether `a` sorts no later than `b`.
pub fn str_sorts_first(a: &str, b: &str) -> (r: bool)
    ensures
        r == str_le(a@, b@),
{
    let x = crate::text::chars_of(a);
    let y = crate::text::chars_of(b);
    let mut i: usize = 0;
    while i < x.len() && i < y.len() && x[i] == y[i]
        invariant
            x@ == a@,
            y@ == b@,
            i <= x.len(),
            i <= y.len(),
            x@.take(i as int) =~= y@.take(i as int),
        decreases x.len() - i,
    {
        proof {
            assert(x@.take(i + 1) =~= x@.take(i as int).push(x@[i as int]));
            assert(y@.take(i + 1) =~= y@.take(i as int).push(y@[i as int]));
        }
        i = i + 1;
    }
    proof {
        lemma_str_le_skip(x@, y@, i as int);
    }
    if i == x.len() {
        true
    } else if i == y.len() {
        false
    } else {
        proof {
            assert(x@.skip(i as int)[0] == x@[i as int]);
            assert(y@.skip(i as int)[0] == y@[i as int]);
        }
        (x[i] as u32) < (y[i] as u32)
    }
}

/// The default pivot table of two models: their snake-case names, sorted and
/// joined by `_`.
pub open spec fn pivot_name(a: Seq<char>, b: Seq<char>) -> Seq<char> {
    if str_le(a, b) {
        a + "_"@ + b
    } else {
        b + "_"@ + a
    }
}

/// The plan of relation `rel` of the model whose snake-case name is `model`.
pub open spec fn relation_plan_is(p: RelationPlan, model: Seq<char>, rel: Relationship) -> bool {
    &&& p.name@ == rel.name@
    &&& p.rel_type == rel.rel_type
    &&& p.related@ == rel.related@
    &&& p.related_table@ == snake(rel.related@) + "s"@
    &&& opt_view(p.foreign_key) == match rel.rel_type {
        RelationType::BelongsToMany => None,
        RelationType::BelongsTo => Some(
            match rel.foreign_key {
                Some(k) => k@,
                None => snake(rel.name@) + "_id"@,
            },
        ),
        _ => Some(
            match rel.foreign_key {
                Some(k) => k@,
                None => model + "_id"@,
            },
        ),
    }
    &&& opt_view(p.pivot_table) == match rel.rel_type {
        RelationType::BelongsToMany => Some(
            match rel.pivot_table {
                Some(t) => t@,
                None => pivot_name(model, snake(rel.related@)),
            },
        ),
        _ => None,
    }
    &&& opt_view(p.loader) == match rel.rel_type {
        RelationType::BelongsToMany => None,
        _ => Some("load_"@ + rel.name@ + "_for"@),
    }
}

fn concat2(a: &str, b: &str) -> (r: String)
    ensures
        r@ == a@ + b@,
{
    let mut r = String::new();
    push_str(&mut r, a);
    push_str(&mut r, b);
    r
}

fn concat3(a: &str, b: &str, c: &str) -> (r: String)
    ensures
        r@ == a@ + b@ + c@,
{
    let mut r = String::new();
    push_str(&mut r, a);
    push_str(&mut r, b);
    push_str(&mut r, c);
    r
}

/// How relation `rel` of the model whose snake-case name is `model` is reached.
pub fn relation_plan(model: &str, rel: &Relationship) -> (p: RelationPlan)
    ensures
        relation_plan_is(p, model@, *rel),
{
    let related_snake = to_snake_case(rel.related.as_str());
    let related_table = concat2(related_snake.as_str(), "s");
    let foreign_key = match rel.rel_type {
        RelationType::BelongsToMany => None,
        RelationType::BelongsTo => match &rel.foreign_key {
            Some(k) => Some(copy_str(k.as_str())),
            None => {
                let n = to_snake_case(rel.name.as_str());
                Some(concat2(n.as_str(), "_id"))
            },
        },
        _ => match &rel.foreign_key {
            Some(k) => Some(copy_str(k.as_str())),
            None => Some(concat2(model, "_id")),
        },
    };
    let pivot_table = match rel.rel_type {
        RelationType::BelongsToMany => match &rel.pivot_table {
            Some(t) => Some(copy_str(t.as_str())),
            None => if str_sorts_first(model, related_snake.as_str()) {
                Some(concat3(model, "_", related_snake.as_str()))
            } else {
                Some(concat3(related_snake.as_str(), "_", model))
            },
        },
        _ => None,
    };
    let loader = match rel.rel_type {
        RelationType::BelongsToMany => None,
        _ => Some(concat3("load_", rel.name.as_str(), "_for")),
    };
    RelationPlan {
        name: copy_str(rel.name.as_str()),
        rel_type: rel.rel_type,
        related: copy_str(rel.related.as_str()),
        related_table,
        foreign_key,
        pivot_table,
        loader,
    }
}

/// The checks of both request types, emitted when the model opts in.
#[derive(Debug)]
pub struct DtoChecks {
    /// `Create<Name>`: each field checked as declared (an `Option` field is
    /// optional)
    pub create: Vec<FieldChecks>,
    /// `Update<Name>`: every field optional
    pub update: Vec<FieldChecks>,
}

/// What a `Model!` declaration expands to.
///
/// The model struct has an `id`, the declared fields, a field per singular
/// or `hasMany` relation, the timestamp columns when `timestamps` holds and
/// `deleted_at` when `soft_deletes` holds. `Create<Name>` takes the declared
/// fields as they are and carries `rules`; `Update<Name>` takes them
/// `Option`-wrapped (`update_wrapped` tells which types get the wrapper) and
/// carries `update_rules`. Each rule is `(field, type keyword, required)`.
#[derive(Debug)]
pub struct ModelPlan {
    pub name: String,
    pub table: String,
    pub fillable: Vec<String>,
    pub hidden: Vec<String>,
    pub timestamps: bool,
    pub soft_deletes: bool,
    pub rules: Vec<(String, String, bool)>,
    pub create_name: String,
    pub update_name: String,
    pub update_rules: Vec<(String, String, bool)>,
    pub update_wrapped: Vec<bool>,
    pub dto_checks: Option<DtoChecks>,
    pub relations: Vec<RelationPlan>,
}

/// The names of the fields whose `hidden` flag is `hidden`, in order.
pub open spec fn names_where(fs: Seq<SimpleField>, hidden: bool) -> Seq<Seq<char>>
    decreases fs.len(),
{
    if fs.len() == 0 {
        Seq::empty()
    } else if fs.last().hidden == hidden {
        names_where(fs.drop_last(), hidden).push(fs.last().name@)
    } else {
        names_where(fs.drop_last(), hidden)
    }
}

/// The validation rule of field `f`: its name, the keyword its type implies
/// and whether its type makes it required; for the update request type the
/// field is never required.
pub open spec fn rule_for(f: SimpleField, update: bool) -> (Seq<char>, Seq<char>, bool) {
    (f.name@, inferred_rule(f.ty, true).0, if update {
        false
    } else {
        inferred_rule(f.ty, true).1
    })
}

/// The character views of a list of rules.
pub open spec fn rule_views(v: Seq<(String, String, bool)>) -> Seq<(Seq<char>, Seq<char>, bool)> {
    v.map_values(|t: (String, String, bool)| (t.0@, t.1@, t.2))
}

/// Whether `cs` are the request-type checks of `fs`, field by field.
pub open spec fn dto_checks_are(cs: Seq<FieldChecks>, fs: Seq<SimpleField>, update: bool) -> bool {
    &&& cs.len() == fs.len()
    &&& forall|i: int|
        0 <= i < cs.len() ==> field_checks_are(
            #[trigger] cs[i],
            fs[i].name@,
            update || is_option(fs[i].ty),
            inferred_rule(fs[i].ty, true).0,
            fs[i].overrides@,
        )
}

/// Whether some field carries an `@` override.
pub open spec fn has_overrides(fs: Seq<SimpleField>) -> bool {
    exists|i: int| 0 <= i < fs.len() && #[trigger] fs[i].overrides@.len() > 0
}

/// The table of model `name`: the explicit one, else the snake-case name
/// with an `s`.
pub open spec fn table_for(name: Seq<char>, table: Option<Seq<char>>) -> Seq<char> {
    match table {
        Some(t) => t,
        None => snake(name) + "s"@,
    }
}

/// Whether `p` is the expansion of the full-syntax declaration with these parts.
pub open spec fn full_plan_is(
    p: ModelPlan,
    name: Seq<char>,
    table: Option<Seq<char>>,
    fs: Seq<SimpleField>,
    rels: Seq<Relationship>,
    timestamps: bool,
    soft_deletes: bool,
    validated: bool,
) -> bool {
    &&& p.name@ == name
    &&& p.table@ == table_for(name, table)
    &&& views(p.fillable@) == names_where(fs, false)
    &&& views(p.hidden@) == names_where(fs, true)
    &&& p.timestamps == timestamps
    &&& p.soft_deletes == soft_deletes
    &&& rule_views(p.rules@) == fs.map_values(|f: SimpleField| rule_for(f, false))
    &&& p.create_name@ == "Create"@ + name
    &&& p.update_name@ == "Update"@ + name
    &&& rule_views(p.update_rules@) == fs.map_values(|f: SimpleField| rule_for(f, true))
    &&& p.update_wrapped@ == fs.map_values(|f: SimpleField| !is_option(f.ty))
    &&& match p.dto_checks {
        Some(d) => (validated || has_overrides(fs)) && dto_checks_are(d.create@, fs, false)
            && dto_checks_are(d.update@, fs, true),
        None => !(validated || has_overrides(fs)),
    }
    &&& p.relations@.len() == rels.len()
    &&& forall|i: int|
        0 <= i < rels.len() ==> relation_plan_is(#[trigger] p.relations@[i], snake(name), rels[i])
}

fn names_with(fields: &Vec<SimpleField>, hidden: bool) -> (r: Vec<String>)
    ensures
        views(r@) == names_where(fields@, hidden),
{
    let mut r: Vec<String> = Vec::new();
    let mut i: usize = 0;
    while i < fields.len()
        invariant
            i <= fields.len(),
            views(r@) == names_where(fields@.take(i as int), hidden),
        decreases fields.len() - i,
    {
        proof {
            assert(fields@.take(i + 1).drop_last() =~= fields@.take(i as int));
        }
        if fields[i].hidden == hidden {
            r.push(copy_str(fields[i].name.as_str()));
            proof {
                assert(views(r@) =~= views(r@.drop_last()).push(r@.last()@));
            }
        }
        i = i + 1;
    }
    proof {
        assert(fields@.take(i as int) =~= fields@);
    }
    r
}

fn rules_of(fields: &Vec<SimpleField>, update: bool) -> (r: Vec<(String, String, bool)>)
    ensures
        rule_views(r@) == fields@.map_values(|f: SimpleField| rule_for(f, update)),
{
    let mut r: Vec<(String, String, bool)> = Vec::new();
    let mut i: usize = 0;
    while i < fields.len()
        invariant
            i <= fields.len(),
            r@.len() == i,
            forall|j: int|
                0 <= j < i ==> (#[trigger] r@[j]).0@ == rule_for(fields@[j], update).0 && r@[j].1@
                    == rule_for(fields@[j], update).1 && r@[j].2 == rule_for(fields@[j], update).2,
        decreases fields.len() - i,
    {
        let (kw, required) = infer_field_rule(&fields[i].ty, true);
        r.push((copy_str(fields[i].name.as_str()), kw, if update { false } else { required }));
        i = i + 1;
    }
    proof {
        assert(rule_views(r@) =~= fields@.map_values(|f: SimpleField| rule_for(f, update)));
    }
    r
}

fn wrapped_of(fields: &Vec<SimpleField>) -> (r: Vec<bool>)
    ensures
        r@ == fields@.map_values(|f: SimpleField| !is_option(f.ty)),
{
    let mut r: Vec<bool> = Vec::new();
    let mut i: usize = 0;
    while i < fields.len()
        invariant
            i <= fields.len(),
            r@ == fields@.take(i as int).map_values(|f: SimpleField| !is_option(f.ty)),
        decreases fields.len() - i,
    {
        r.push(!is_option_type(&fields[i].ty));
        proof {
            assert(r@ =~= fields@.take(i + 1).map_values(|f: SimpleField| !is_option(f.ty)));
        }
        i = i + 1;
    }
    proof {
        assert(fields@.take(i as int) =~= fields@);
    }
    r
}

fn checks_of(fields: &Vec<SimpleField>, update: bool) -> (r: Vec<FieldChecks>)
    ensures
        dto_checks_are(r@, fields@, update),
{
    let mut r: Vec<FieldChecks> = Vec::new();
    let mut i: usize = 0;
    while i < fields.len()
        invariant
            i <= fields.len(),
            r@.len() == i,
            forall|j: int|
                0 <= j < i ==> field_checks_are(
                    #[trigger] r@[j],
                    fields@[j].name@,
                    update || is_option(fields@[j].ty),
                    inferred_rule(fields@[j].ty, true).0,
                    fields@[j].overrides@,
                ),
        decreases fields.len() - i,
    {
        let f = &fields[i];
        let (kw, _) = infer_field_rule(&f.ty, true);
        let optional = update || is_option_type(&f.ty);
        r.push(dto_field_checks(f.name.as_str(), optional, kw.as_str(), &f.overrides));
        i = i + 1;
    }
    r
}

fn any_overrides(fields: &Vec<SimpleField>) -> (r: bool)
    ensures
        r == has_overrides(fields@),
{
    let mut i: usize = 0;
    while i < fields.len()
        invariant
            i <= fields.len(),
            forall|j: int| 0 <= j < i ==> #[trigger] fields@[j].overrides@.len() == 0,
        decreases fields.len() - i,
    {
        if fields[i].overrides.len() > 0 {
            return true;
        }
        i = i + 1;
    }
    false
}

fn relation_plans(model: &str, rels: &Vec<Relationship>) -> (r: Vec<RelationPlan>)
    ensures
        r@.len() == rels@.len(),
        forall|i: int| 0 <= i < rels@.len() ==> relation_plan_is(#[trigger] r@[i], model@, rels@[i]),
{
    let mut r: Vec<RelationPlan> = Vec::new();
    let mut i: usize = 0;
    while i < rels.len()
        invariant
            i <= rels.len(),
            r@.len() == i,
            forall|j: int| 0 <= j < i ==> relation_plan_is(#[trigger] r@[j], model@, rels@[j]),
        decreases rels.len() - i,
    {
        r.push(relation_plan(model, &rels[i]));
        i = i + 1;
    }
    r
}

/// The expansion of a full-syntax declaration `Name { ... }`: the table is
/// the explicit one or the snake-case name with an `s`; hidden fields are
/// not fillable; each field's rule comes from its type; the request types'
/// checks are emitted when the model is marked `validated` or some field
/// carries an override; each relation gets its plan.
pub fn generate_full_model(
    name: &str,
    table: &Option<String>,
    fields: &Vec<SimpleField>,
    relationships: &Vec<Relationship>,
    timestamps: bool,
    soft_deletes: bool,
    validated: bool,
) -> (p: ModelPlan)
    ensures
        full_plan_is(p, name@, opt_view(*table), fields@, relationships@, timestamps, soft_deletes, validated),
{
    let model_snake = to_snake_case(name);
    let table_name = match table {
        Some(t) => copy_str(t.as_str()),
        None => concat2(model_snake.as_str(), "s"),
    };
    let dto_checks = if validated || any_overrides(fields) {
        Some(DtoChecks { create: checks_of(fields, false), update: checks_of(fields, true) })
    } else {
        None
    };
    ModelPlan {
        name: copy_str(name),
        table: table_name,
        fillable: names_with(fields, false),
        hidden: names_with(fields, true),
        timestamps,
        soft_deletes,
        rules: rules_of(fields, false),
        create_name: concat2("Create", name),
        update_name: concat2("Update", name),
        update_rules: rules_of(fields, true),
        update_wrapped: wrapped_of(fields),
        dto_checks,
        relations: relation_plans(model_snake.as_str(), relationships),
    }
}

/// A field of the compact syntax `Name: a, hidden b`: always a `String`.
#[derive(Debug)]
pub struct InferredField {
    pub hidden: bool,
    pub name: String,
}

/// The names of the compact-syntax fields whose `hidden` flag is `hidden`.
pub open spec fn inferred_names_where(fs: Seq<InferredField>, hidden: bool) -> Seq<Seq<char>>
    decreases fs.len(),
{
    if fs.len() == 0 {
        Seq::empty()
    } else if fs.last().hidden == hidden {
        inferred_names_where(fs.drop_last(), hidden).push(fs.last().name@)
    } else {
        inferred_names_where(fs.drop_last(), hidden)
    }
}

/// Whether `p` is the expansion of the compact declaration `name: fs`.
pub open spec fn simple_plan_is(p: ModelPlan, name: Seq<char>, fs: Seq<InferredField>) -> bool {
    &&& p.name@ == name
    &&& p.table@ == snake(name) + "s"@
    &&& views(p.fillable@) == inferred_names_where(fs, false)
    &&& views(p.hidden@) == inferred_names_where(fs, true)
    &&& p.timestamps
    &&& !p.soft_deletes
    &&& rule_views(p.rules@) == fs.map_values(|f: InferredField| (f.name@, "string"@, true))
    &&& p.create_name@ == "Create"@ + name
    &&& p.update_name@ == "Update"@ + name
    &&& rule_views(p.update_rules@) == fs.map_values(|f: InferredField| (f.name@, "string"@, false))
    &&& p.update_wrapped@ == Seq::new(fs.len(), |i: int| true)
    &&& p.dto_checks is None
    &&& p.relations@.len() == 0
}

fn inferred_names_with(fields: &Vec<InferredField>, hidden: bool) -> (r: Vec<String>)
    ensures
        views(r@) == inferred_names_where(fields@, hidden),
{
    let mut r: Vec<String> = Vec::new();
    let mut i: usize = 0;
    while i < fields.len()
        invariant
            i <= fields.len(),
            views(r@) == inferred_names_where(fields@.take(i as int), hidden),
        decreases fields.len() - i,
    {
        proof {
            assert(fields@.take(i + 1).drop_last() =~= fields@.take(i as int));
        }
        if fields[i].hidden == hidden {
            r.push(copy_str(fields[i].name.as_str()));
            proof {
                assert(views(r@) =~= views(r@.drop_last()).push(r@.last()@));
            }
        }
        i = i + 1;
    }
    proof {
        assert(fields@.take(i as int) =~= fields@);
    }
    r
}

fn string_rules(fields: &Vec<InferredField>, required: bool) -> (r: Vec<(String, String, bool)>)
    ensures
        rule_views(r@) == fields@.map_values(|f: InferredField| (f.name@, "string"@, required)),
{
    let mut r: Vec<(String, String, bool)> = Vec::new();
    let mut i: usize = 0;
    while i < fields.len()
        invariant
            i <= fields.len(),
            r@.len() == i,
            forall|j: int|
                0 <= j < i ==> (#[trigger] r@[j]).0@ == fields@[j].name@ && r@[j].1@ == "string"@
                    && r@[j].2 == required,
        decreases fields.len() - i,
    {
        r.push((copy_str(fields[i].name.as_str()), copy_str("string"), required));
        i = i + 1;
    }
    proof {
        assert(rule_views(r@) =~= fields@.map_values(|f: InferredField| (f.name@, "string"@, required)));
    }
    r
}

/// The expansion of a compact declaration `Name: a, hidden b`: every field
/// is a required `String`, the table is the snake-case name with an `s`, the
/// timestamp columns are present, and no checks or relations are emitted.
pub fn generate_simple_model(name: &str, fields: &Vec<InferredField>) -> (p: ModelPlan)
    ensures
        simple_plan_is(p, name@, fields@),
{
    let model_snake = to_snake_case(name);
    let mut wrapped: Vec<bool> = Vec::new();
    let mut i: usize = 0;
    while i < fields.len()
        invariant
            i <= fields.len(),
            wrapped@ == Seq::new(i as nat, |j: int| true),
        decreases fields.len() - i,
    {
        wrapped.push(true);
        proof {
            assert(wrapped@ =~= Seq::new((i + 1) as nat, |j: int| true));
        }
        i = i + 1;
    }
    ModelPlan {
        name: copy_str(name),
        table: concat2(model_snake.as_str(), "s"),
        fillable: inferred_names_with(fields, false),
        hidden: inferred_names_with(fields, true),
        timestamps: true,
        soft_deletes: false,
        rules: string_rules(fields, true),
        create_name: concat2("Create", name),
        update_name: concat2("Update", name),
        update_rules: string_rules(fields, false),
        update_wrapped: wrapped,
        dto_checks: None,
        relations: Vec::new(),
    }
}

proof fn lemma_str_le_total(a: Seq<char>, b: Seq<char>)
    ensures
        str_le(a, b) || str_le(b, a),
        str_le(a, b) && str_le(b, a) ==> a == b,
    decreases a.len(),
{
    if a.len() > 0 && b.len() > 0 && a[0] == b[0] {
        lemma_str_le_total(a.drop_first(), b.drop_first());
        if str_le(a, b) && str_le(b, a) {
            assert(a =~= seq![a[0]] + a.drop_first());
            assert(b =~= seq![b[0]] + b.drop_first());
        }
    } else if a.len() == 0 && b.len() == 0 {
        assert(a =~= b);
    } else if a.len() > 0 && b.len() > 0 {
        vstd::utf8::char_u32_cast(a[0], a[0] as u32);
        vstd::utf8::char_u32_cast(b[0], b[0] as u32);
    }
}

/// The default pivot table of a `belongsToMany` relation is the same from
/// either side: `Post` with `Tag` and `Tag` with `Post` share `post_tag`.
pub proof fn lemma_pivot_symmetric(a: Seq<char>, b: Seq<char>)
    ensures
        pivot_name(a, b) == pivot_name(b, a),
{
    lemma_str_le_total(a, b);
}

/// Every declared field is listed exactly once among the columns: as
/// fillable when it is not hidden, as hidden when it is.
pub proof fn lemma_columns_partition(fs: Seq<SimpleField>)
    ensures
        names_where(fs, false).len() + names_where(fs, true).len() == fs.len(),
        forall|i: int| 0 <= i < fs.len() ==> names_where(fs, fs[i].hidden).contains(#[trigger] fs[i].name@),
        forall|h: bool, x: Seq<char>|
            #[trigger] names_where(fs, h).contains(x) ==> exists|i: int|
                0 <= i < fs.len() && fs[i].hidden == h && #[trigger] fs[i].name@ == x,
    decreases fs.len(),
{
    if fs.len() > 0 {
        let init = fs.drop_last();
        lemma_columns_partition(init);
        assert forall|i: int| 0 <= i < fs.len() implies names_where(fs, fs[i].hidden).contains(
            #[trigger] fs[i].name@,
        ) by {
            if i < fs.len() - 1 {
                assert(init[i] == fs[i]);
                let k = choose|k: int|
                    0 <= k < names_where(init, init[i].hidden).len() && names_where(init, init[i].hidden)[k]
                        == init[i].name@;
                if fs.last().hidden == fs[i].hidden {
                    assert(names_where(fs, fs[i].hidden)[k] == fs[i].name@);
                }
            } else {
                assert(names_where(fs, fs[i].hidden).last() == fs[i].name@);
            }
        }
        assert forall|h: bool, x: Seq<char>| #[trigger] names_where(fs, h).contains(x) implies exists|i: int|
            0 <= i < fs.len() && fs[i].hidden == h && #[trigger] fs[i].name@ == x by {
            if fs.last().hidden == h && x == fs.last().name@ {
                assert(fs[fs.len() - 1].name@ == x);
            } else {
                let k = choose|k: int| 0 <= k < names_where(fs, h).len() && names_where(fs, h)[k] == x;
                if fs.last().hidden == h {
                    assert(k < names_where(init, h).len());
                    assert(names_where(init, h)[k] == x);
                }
                assert(names_where(init, h).contains(x));
                let i = choose|i: int| 0 <= i < init.len() && init[i].hidden == h && #[trigger] init[i].name@ == x;
                assert(fs[i] == init[i]);
            }
        }
    }
}

/// The update request type keeps each field's type keyword but never
/// requires the field.
pub proof fn lemma_update_rules_relax(
    p: ModelPlan,
    name: Seq<char>,
    table: Option<Seq<char>>,
    fs: Seq<SimpleField>,
    rels: Seq<Relationship>,
    timestamps: bool,
    soft_deletes: bool,
    validated: bool,
)
    requires
        full_plan_is(p, name, table, fs, rels, timestamps, soft_deletes, validated),
    ensures
        p.update_rules@.len() == p.rules@.len(),
        forall|i: int|
            0 <= i < p.rules@.len() ==> (#[trigger] p.update_rules@[i]).0@ == p.rules@[i].0@
                && p.update_rules@[i].1@ == p.rules@[i].1@ && !p.update_rules@[i].2,
{
    assert(rule_views(p.rules@).len() == p.rules@.len());
    assert(rule_views(p.update_rules@).len() == p.update_rules@.len());
    assert(fs.map_values(|f: SimpleField| rule_for(f, false)).len() == fs.len());
    assert(fs.map_values(|f: SimpleField| rule_for(f, true)).len() == fs.len());
    assert forall|i: int| 0 <= i < p.rules@.len() implies (#[trigger] p.update_rules@[i]).0@ == p.rules@[i].0@
        && p.update_rules@[i].1@ == p.rules@[i].1@ && !p.update_rules@[i].2 by {
        assert(rule_views(p.rules@)[i] == fs.map_values(|f: SimpleField| rule_for(f, false))[i]);
        assert(rule_views(p.update_rules@)[i] == fs.map_values(|f: SimpleField| rule_for(f, true))[i]);
    }
}

/// The compact syntax `Name: a, hidden b` expands as the full syntax would
/// with the same fields declared as plain `String`s and no relations,
/// timestamps on, no soft deletes and no opt-in checks.
pub proof fn lemma_compact_is_full_of_strings(
    p: ModelPlan,
    name: Seq<char>,
    compact: Seq<InferredField>,
    full: Seq<SimpleField>,
)
    requires
        simple_plan_is(p, name, compact),
        full.len() == compact.len(),
        forall|i: int|
            0 <= i < full.len() ==> (#[trigger] full[i]).name@ == compact[i].name@ && full[i].hidden
                == compact[i].hidden && inferred_rule(full[i].ty, true) == ("string"@, true) && !is_option(
                full[i].ty,
            ) && full[i].overrides@.len() == 0,
    ensures
        full_plan_is(p, name, None, full, Seq::empty(), true, false, false),
    decreases full.len(),
{
    lemma_same_names(compact, full, false);
    lemma_same_names(compact, full, true);
    assert(rule_views(p.rules@) =~= full.map_values(|f: SimpleField| rule_for(f, false)));
    assert(rule_views(p.update_rules@) =~= full.map_values(|f: SimpleField| rule_for(f, true)));
    assert(p.update_wrapped@ =~= full.map_values(|f: SimpleField| !is_option(f.ty)));
    assert(!has_overrides(full));
}

proof fn lemma_same_names(compact: Seq<InferredField>, full: Seq<SimpleField>, h: bool)
    requires
        full.len() == compact.len(),
        forall|i: int|
            0 <= i < full.len() ==> (#[trigger] full[i]).name@ == compact[i].name@ && full[i].hidden
                == compact[i].hidden,
    ensures
        names_where(full, h) == inferred_names_where(compact, h),
    decreases full.len(),
{
    if full.len() > 0 {
        lemma_same_names(compact.drop_last(), full.drop_last(), h);
        assert(full.last() == full[full.len() - 1]);
    }
}

/// The loader of the first relation named `n` that has one (`belongsToMany`
/// relations have none).
pub open spec fn eager_loader(rels: Seq<RelationPlan>, n: Seq<char>) -> Option<Seq<char>>
    decreases rels.len(),
{
    if rels.len() == 0 {
        None
    } else if rels[0].loader is Some && rels[0].name@ == n {
        opt_view(rels[0].loader)
    } else {
        eager_loader(rels.drop_first(), n)
    }
}

/// The message for a relation name that cannot be loaded eagerly.
pub open spec fn unknown_relation_message(n: Seq<char>, table: Seq<char>) -> Seq<char> {
    "with_relations: unknown or non-eager relation `"@ + n + "` on "@ + table
}

/// The loaders run, in order, to hydrate the relations `names`; the first
/// name with no loader is refused.
pub open spec fn loaders_for(rels: Seq<RelationPlan>, names: Seq<Seq<char>>, table: Seq<char>) -> Result<
    Seq<Seq<char>>,
    Seq<char>,
>
    decreases names.len(),
{
    if names.len() == 0 {
        Ok(Seq::empty())
    } else {
        match loaders_for(rels, names.drop_last(), table) {
            Err(e) => Err(e),
            Ok(v) => match eager_loader(rels, names.last()) {
                Some(l) => Ok(v.push(l)),
                None => Err(unknown_relation_message(names.last(), table)),
            },
        }
    }
}

fn find_loader(rels: &Vec<RelationPlan>, n: &str) -> (r: Option<String>)
    ensures
        opt_view(r) == eager_loader(rels@, n@),
{
    let mut i: usize = 0;
    proof {
        assert(rels@.skip(0) =~= rels@);
    }
    while i < rels.len()
        invariant
            i <= rels.len(),
            eager_loader(rels@, n@) == eager_loader(rels@.skip(i as int), n@),
        decreases rels.len() - i,
    {
        proof {
            assert(rels@.skip(i as int)[0] == rels@[i as int]);
            assert(rels@.skip(i as int).drop_first() =~= rels@.skip(i + 1));
        }
        match &rels[i].loader {
            Some(l) => {
                if str_eq(rels[i].name.as_str(), n) {
                    return Some(copy_str(l.as_str()));
                }
            },
            None => {},
        }
        i = i + 1;
    }
    None
}

impl ModelPlan {
    /// The batch loaders that hydrate the relations `names` on a slice of
    /// rows, in the order asked; a name that is not a `belongsTo`, `hasOne`
    /// or `hasMany` relation of the model is refused with a message naming it
    /// and the table.
    pub fn with_relations(&self, names: &Vec<String>) -> (r: Result<Vec<String>, String>)
        ensures
            match (r, loaders_for(self.relations@, views(names@), self.table@)) {
                (Ok(v), Ok(w)) => views(v@) == w,
                (Err(e), Err(m)) => e@ == m,
                _ => false,
            },
    {
        let mut out: Vec<String> = Vec::new();
        let mut i: usize = 0;
        proof {
            assert(views(names@).take(0) =~= Seq::<Seq<char>>::empty());
            assert(views(out@) =~= Seq::<Seq<char>>::empty());
        }
        while i < names.len()
            invariant
                i <= names.len(),
                loaders_for(self.relations@, views(names@).take(i as int), self.table@) == Ok::<
                    Seq<Seq<char>>,
                    Seq<char>,
                >(views(out@)),
            decreases names.len() - i,
        {
            proof {
                assert(views(names@).take(i + 1).drop_last() =~= views(names@).take(i as int));
                assert(views(names@).take(i + 1).last() == names@[i as int]@);
            }
            match find_loader(&self.relations, names[i].as_str()) {
                Some(l) => {
                    let ghost prev = out@;
                    let ghost lv = l@;
                    out.push(l);
                    proof {
                        assert(views(out@) =~= views(prev).push(lv));
                    }
                },
                None => {
                    let mut m = String::new();
                    push_str(&mut m, "with_relations: unknown or non-eager relation `");
                    push_str(&mut m, names[i].as_str());
                    push_str(&mut m, "` on ");
                    push_str(&mut m, self.table.as_str());
                    proof {
                        lemma_loaders_stop(self.relations@, views(names@), self.table@, i + 1);
                        assert(views(names@).take(i + 1) =~= views(names@).take(i + 1));
                    }
                    return Err(m);
                },
            }
            i = i + 1;
        }
        proof {
            assert(views(names@).take(i as int) =~= views(names@));
        }
        Ok(out)
    }
}

proof fn lemma_loaders_stop(rels: Seq<RelationPlan>, names: Seq<Seq<char>>, table: Seq<char>, k: int)
    requires
        0 < k <= names.len(),
        loaders_for(rels, names.take(k), table) is Err,
    ensures
        loaders_for(rels, names, table) == loaders_for(rels, names.take(k), table),
    decreases names.len() - k,
{
    if k < names.len() {
        assert(names.take(k + 1).drop_last() =~= names.take(k));
        lemma_loaders_stop(rels, names, table, k + 1);
    } else {
        assert(names.take(k) =~= names);
    }
}

/// One member of a full-syntax body `Name { ... }`, in the order written.
#[derive(Debug)]
pub enum ModelItem {
    /// `validated`: emit the request types' checks
    Validated,
    /// `table = "name"`
    Table(String),
    /// `timestamps = true|false`
    Timestamps(bool),
    /// `softDeletes`
    SoftDeletes,
    /// `hasMany posts: Post` and the like
    Relation(Relationship),
    /// a field
    Field(SimpleField),
}

/// A `Model!` declaration: the full syntax `Name { ... }` or the compact
/// syntax `Name: a, b`.
#[derive(Debug)]
pub enum ModelDef {
    Full {
        name: String,
        table: Option<String>,
        fields: Vec<SimpleField>,
        relationships: Vec<Relationship>,
        timestamps: bool,
        soft_deletes: bool,
        validated: bool,
    },
    Simple { name: String, fields: Vec<InferredField> },
}

/// The table named last in `items`, if any.
pub open spec fn body_table(items: Seq<ModelItem>) -> Option<Seq<char>>
    decreases items.len(),
{
    if items.len() == 0 {
        None
    } else {
        match items.last() {
            ModelItem::Table(t) => Some(t@),
            _ => body_table(items.drop_last()),
        }
    }
}

/// The `timestamps` setting written last in `items`; on when none is.
pub open spec fn body_timestamps(items: Seq<ModelItem>) -> bool
    decreases items.len(),
{
    if items.len() == 0 {
        true
    } else {
        match items.last() {
            ModelItem::Timestamps(b) => b,
            _ => body_timestamps(items.drop_last()),
        }
    }
}

/// Whether `items` holds `softDeletes`.
pub open spec fn body_soft_deletes(items: Seq<ModelItem>) -> bool {
    exists|i: int| 0 <= i < items.len() && #[trigger] items[i] is SoftDeletes
}

/// Whether `items` holds `validated`.
pub open spec fn body_validated(items: Seq<ModelItem>) -> bool {
    exists|i: int| 0 <= i < items.len() && #[trigger] items[i] is Validated
}

/// The fields of `items`, in order.
pub open spec fn body_fields(items: Seq<ModelItem>) -> Seq<SimpleField>
    decreases items.len(),
{
    if items.len() == 0 {
        Seq::empty()
    } else {
        match items.last() {
            ModelItem::Field(f) => body_fields(items.drop_last()).push(f),
            _ => body_fields(items.drop_last()),
        }
    }
}

/// The relations of `items`, in order.
pub open spec fn body_relations(items: Seq<ModelItem>) -> Seq<Relationship>
    decreases items.len(),
{
    if items.len() == 0 {
        Seq::empty()
    } else {
        match items.last() {
            ModelItem::Relation(r) => body_relations(items.drop_last()).push(r),
            _ => body_relations(items.drop_last()),
        }
    }
}

impl ModelDef {
    /// The full-syntax declaration `name { items }`: the last `table` and
    /// `timestamps` settings win (timestamps default to on), `softDeletes`
    /// and `validated` switch their option on, and fields and relations keep
    /// their order.
    pub fn full(name: String, items: Vec<ModelItem>) -> (d: ModelDef)
        ensures
            d matches ModelDef::Full { name: n, table, fields, relationships, timestamps, soft_deletes, validated }
                && n@ == name@ && opt_view(table) == body_table(items@) && fields@ == body_fields(items@)
                && relationships@ == body_relations(items@) && timestamps == body_timestamps(items@)
                && soft_deletes == body_soft_deletes(items@) && validated == body_validated(items@),
    {
        let ghost all = items@;
        let mut rest = items;
        let mut table: Option<String> = None;
        let mut fields: Vec<SimpleField> = Vec::new();
        let mut relationships: Vec<Relationship> = Vec::new();
        let mut timestamps = true;
        let mut soft_deletes = false;
        let mut validated = false;
        let mut k: usize = 0;
        let total = rest.len();
        while rest.len() > 0
            invariant
                total == all.len(),
                k + rest@.len() == all.len(),
                rest@ == all.skip(k as int),
                opt_view(table) == body_table(all.take(k as int)),
                fields@ == body_fields(all.take(k as int)),
                relationships@ == body_relations(all.take(k as int)),
                timestamps == body_timestamps(all.take(k as int)),
                soft_deletes == body_soft_deletes(all.take(k as int)),
                validated == body_validated(all.take(k as int)),
            decreases rest@.len(),
        {
            let item = rest.remove(0);
            proof {
                let pre = all.take(k as int);
                let next = all.take(k + 1);
                assert(item == all[k as int]);
                assert(next.drop_last() =~= pre);
                assert(next.last() == item);
                assert(rest@ =~= all.skip(k + 1));
                assert(body_soft_deletes(next) == (body_soft_deletes(pre) || item is SoftDeletes)) by {
                    if item is SoftDeletes {
                        assert(next[k as int] is SoftDeletes);
                    }
                    if body_soft_deletes(pre) {
                        let i = choose|i: int| 0 <= i < pre.len() && #[trigger] pre[i] is SoftDeletes;
                        assert(next[i] == pre[i]);
                    }
                    if body_soft_deletes(next) && !(item is SoftDeletes) {
                        let i = choose|i: int| 0 <= i < next.len() && #[trigger] next[i] is SoftDeletes;
                        assert(i < k);
                        assert(pre[i] == next[i]);
                    }
                }
                assert(body_validated(next) == (body_validated(pre) || item is Validated)) by {
                    if item is Validated {
                        assert(next[k as int] is Validated);
                    }
                    if body_validated(pre) {
                        let i = choose|i: int| 0 <= i < pre.len() && #[trigger] pre[i] is Validated;
                        assert(next[i] == pre[i]);
                    }
                    if body_validated(next) && !(item is Validated) {
                        let i = choose|i: int| 0 <= i < next.len() && #[trigger] next[i] is Validated;
                        assert(i < k);
                        assert(pre[i] == next[i]);
                    }
                }
            }
            match item {
                ModelItem::Validated => {
                    validated = true;
                },
                ModelItem::Table(t) => {
                    table = Some(t);
                },
                ModelItem::Timestamps(b) => {
                    timestamps = b;
                },
                ModelItem::SoftDeletes => {
                    soft_deletes = true;
                },
                ModelItem::Relation(r) => {
                    relationships.push(r);
                },
                ModelItem::Field(f) => {
                    fields.push(f);
                },
            }
            k = k + 1;
        }
        proof {
            assert(all.take(k as int) =~= all);
        }
        ModelDef::Full { name, table, fields, relationships, timestamps, soft_deletes, validated }
    }
}

/// Whether `p` is the expansion of declaration `d`.
pub open spec fn expansion_of(p: ModelPlan, d: ModelDef) -> bool {
    match d {
        ModelDef::Full { name, table, fields, relationships, timestamps, soft_deletes, validated } =>
            full_plan_is(
            p,
            name@,
            opt_view(table),
            fields@,
            relationships@,
            timestamps,
            soft_deletes,
            validated,
        ),
        ModelDef::Simple { name, fields } => simple_plan_is(p, name@, fields@),
    }
}

/// The expansion of a `Model!` declaration in either syntax.
pub fn simple_model_impl(d: &ModelDef) -> (p: ModelPlan)
    ensures
        expansion_of(p, *d),
{
    match d {
        ModelDef::Full { name, table, fields, relationships, timestamps, soft_deletes, validated } =>
            generate_full_model(
            name.as_str(),
            table,
            fields,
            relationships,
            *timestamps,
            *soft_deletes,
            *validated,
        ),
        ModelDef::Simple { name, fields } => generate_simple_model(name.as_str(), fields),
    }
}

} // verus!
