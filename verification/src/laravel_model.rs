//! The `model!` declaration `Post => "posts" { .. }`: its fields (with the
//! timestamp columns when `timestamps` is written) and the methods its
//! `belongs_to` and `has_many` relations get.
use vstd::prelude::*;
use crate::outside::{str_lower, str_to_lowercase};
use crate::text::{copy_str, push_str};

verus! {

/// One member of a `model!` body.
#[derive(Debug)]
pub enum ModelMember {
    /// `name: Type` (a `primary` marker or a default value is dropped)
    Field { name: String, ty: String },
    /// `timestamps`
    Timestamps,
    /// `belongs_to Model via foreign_key`
    BelongsTo { model: String, foreign_key: String },
    /// `has_many Model`
    HasMany { model: String },
}

/// A relation method of the model: its name, the related model, the
/// foreign key and whether it returns a list.
#[derive(Debug, PartialEq, Eq)]
pub struct RelationMethod {
    pub method: String,
    pub related: String,
    pub foreign_key: String,
    pub many: bool,
}

/// What a `model!` declaration expands to: the struct's fields as
/// `(name, type)`, the table its `table_name()` returns, and the relation
/// methods.
#[derive(Debug)]
pub struct ModelExpansion {
    pub name: String,
    pub table: String,
    pub fields: Vec<(String, String)>,
    pub relations: Vec<RelationMethod>,
}

/// The type of the timestamp columns.
pub open spec fn timestamp_type() -> Seq<char> {
    "Option<chrono::DateTime<chrono::Utc>>"@
}

/// The fields the members declare, in order; `timestamps` adds
/// `created_at` and `updated_at`.
pub open spec fn member_fields(ms: Seq<ModelMember>) -> Seq<(Seq<char>, Seq<char>)>
    decreases ms.len(),
{
    if ms.len() == 0 {
        Seq::empty()
    } else {
        member_fields(ms.drop_last()) + match ms.last() {
            ModelMember::Field { name, ty } => seq![(name@, ty@)],
            ModelMember::Timestamps => seq![("created_at"@, timestamp_type()), ("updated_at"@, timestamp_type())],
            _ => Seq::empty(),
        }
    }
}

/// A relation method as plain values.
pub open spec fn method_view(m: RelationMethod) -> (Seq<char>, Seq<char>, Seq<char>, bool) {
    (m.method@, m.related@, m.foreign_key@, m.many)
}

/// The relation methods of model `model`: `belongs_to X via k` gives
/// method `x` (the model's name lowercased) on key `k`; `has_many X` gives
/// method `xs` on the key `<model>_id`, lowercased.
pub open spec fn member_relations(model: Seq<char>, ms: Seq<ModelMember>) -> Seq<(Seq<char>, Seq<char>, Seq<char>, bool)>
    decreases ms.len(),
{
    if ms.len() == 0 {
        Seq::empty()
    } else {
        member_relations(model, ms.drop_last()) + match ms.last() {
            ModelMember::BelongsTo { model: m, foreign_key } => seq![(str_lower(m@), m@, foreign_key@, false)],
            ModelMember::HasMany { model: m } => seq![(str_lower(m@) + "s"@, m@, str_lower(model) + "_id"@, true)],
            _ => Seq::empty(),
        }
    }
}

/// The expansion of `model! { name => "table" { members } }`.
pub fn model_impl(name: &str, table: &str, members: &Vec<ModelMember>) -> (r: ModelExpansion)
    ensures
        r.name@ == name@,
        r.table@ == table@,
        r.fields@.map_values(|f: (String, String)| (f.0@, f.1@)) == member_fields(members@),
        r.relations@.map_values(|m: RelationMethod| method_view(m)) == member_relations(name@, members@),
{
    let mut fields: Vec<(String, String)> = Vec::new();
    let mut relations: Vec<RelationMethod> = Vec::new();
    let lower_name = str_to_lowercase(name);
    let mut i: usize = 0;
    proof {
        assert(members@.take(0) =~= Seq::<ModelMember>::empty());
        assert(fields@.map_values(|f: (String, String)| (f.0@, f.1@)) =~= Seq::<(Seq<char>, Seq<char>)>::empty());
        assert(relations@.map_values(|m: RelationMethod| method_view(m)) =~= Seq::<
            (Seq<char>, Seq<char>, Seq<char>, bool),
        >::empty());
    }
    while i < members.len()
        invariant
            i <= members.len(),
            lower_name@ == str_lower(name@),
            fields@.map_values(|f: (String, String)| (f.0@, f.1@)) == member_fields(members@.take(i as int)),
            relations@.map_values(|m: RelationMethod| method_view(m)) == member_relations(
                name@,
                members@.take(i as int),
            ),
        decreases members.len() - i,
    {
        proof {
            assert(members@.take(i + 1).drop_last() =~= members@.take(i as int));
            assert(members@.take(i + 1).last() == members@[i as int]);
        }
        let ghost fb = fields@;
        let ghost rb = relations@;
        match &members[i] {
            ModelMember::Field { name: n, ty } => {
                fields.push((copy_str(n.as_str()), copy_str(ty.as_str())));
                proof {
                    assert(fields@.map_values(|f: (String, String)| (f.0@, f.1@)) =~= fb.map_values(
                        |f: (String, String)| (f.0@, f.1@),
                    ) + seq![(n@, ty@)]);
                    assert(relations@ == rb);
                }
            },
            ModelMember::Timestamps => {
                fields.push((copy_str("created_at"), copy_str("Option<chrono::DateTime<chrono::Utc>>")));
                fields.push((copy_str("updated_at"), copy_str("Option<chrono::DateTime<chrono::Utc>>")));
                proof {
                    assert(fields@.map_values(|f: (String, String)| (f.0@, f.1@)) =~= fb.map_values(
                        |f: (String, String)| (f.0@, f.1@),
                    ) + seq![("created_at"@, timestamp_type()), ("updated_at"@, timestamp_type())]);
                }
            },
            ModelMember::BelongsTo { model, foreign_key } => {
                let m = RelationMethod {
                    method: str_to_lowercase(model.as_str()),
                    related: copy_str(model.as_str()),
                    foreign_key: copy_str(foreign_key.as_str()),
                    many: false,
                };
                let ghost mv = method_view(m);
                relations.push(m);
                proof {
                    assert(relations@.map_values(|m: RelationMethod| method_view(m)) =~= rb.map_values(
                        |m: RelationMethod| method_view(m),
                    ) + seq![mv]);
                }
            },
            ModelMember::HasMany { model } => {
                let mut method = str_to_lowercase(model.as_str());
                push_str(&mut method, "s");
                let mut key = copy_str(lower_name.as_str());
                push_str(&mut key, "_id");
                let m = RelationMethod { method, related: copy_str(model.as_str()), foreign_key: key, many: true };
                let ghost mv = method_view(m);
                relations.push(m);
                proof {
                    assert(relations@.map_values(|m: RelationMethod| method_view(m)) =~= rb.map_values(
                        |m: RelationMethod| method_view(m),
                    ) + seq![mv]);
                }
            },
        }
        i = i + 1;
    }
    proof {
        assert(members@.take(i as int) =~= members@);
    }
    ModelExpansion { name: copy_str(name), table: copy_str(table), fields, relations }
}

} // verus!
