//! Convention-over-configuration validation inference: the rule keyword and
//! the presence requirement a field's declared type implies. Types are
//! modelled by the shapes the inference looks at.
use vstd::prelude::*;
use crate::naming::{keyword_for_ident, type_keyword};
use crate::text::str_eq;

verus! {

/// A declared type, as far as the inference looks into it.
#[derive(Debug)]
pub enum TypeExpr {
    /// A path type such as `Option<String>`, by its segments
    Path(Vec<Segment>),
    /// Any other type (references, tuples, arrays, ...)
    Other,
}

/// One path segment: its name and its angle-bracketed arguments.
#[derive(Debug)]
pub struct Segment {
    pub ident: String,
    pub args: Vec<GenericArg>,
}

/// One angle-bracketed argument.
#[derive(Debug)]
pub enum GenericArg {
    /// A type argument
    Type(TypeExpr),
    /// A lifetime, constant or binding
    Other,
}

/// Whether `ty` is syntactically an `Option<...>`: its last path segment is
/// named `Option`.
pub open spec fn is_option(ty: TypeExpr) -> bool {
    ty matches TypeExpr::Path(segs) && segs@.len() > 0 && segs@.last().ident@ == "Option"@
}

/// The validation keyword and presence requirement a field type implies:
/// `Option<T>` is not required and takes its keyword from `T` (none when its
/// first argument is not a type); another path takes the keyword of its last
/// segment's name and keeps `required`; other types have no keyword.
pub open spec fn inferred_rule(ty: TypeExpr, required: bool) -> (Seq<char>, bool)
    decreases ty,
{
    match ty {
        TypeExpr::Path(segs) => if segs@.len() == 0 {
            (Seq::empty(), required)
        } else if segs@.last().ident@ == "Option"@ {
            if segs@.last().args@.len() > 0 {
                match segs@.last().args@[0] {
                    GenericArg::Type(inner) => (inferred_rule(inner, false).0, false),
                    GenericArg::Other => (Seq::empty(), false),
                }
            } else {
                (Seq::empty(), false)
            }
        } else {
            (type_keyword(segs@.last().ident@), required)
        },
        TypeExpr::Other => (Seq::empty(), required),
    }
}

/// Whether `ty` is syntactically an `Option<...>`.
pub fn is_option_type(ty: &TypeExpr) -> (r: bool)
    ensures
        r == is_option(*ty),
{
    match ty {
        TypeExpr::Path(segs) => segs.len() > 0 && str_eq(segs[segs.len() - 1].ident.as_str(), "Option"),
        TypeExpr::Other => false,
    }
}

/// The validation keyword and presence requirement a field type implies.
pub fn infer_field_rule(ty: &TypeExpr, required: bool) -> (r: (String, bool))
    ensures
        r.0@ == inferred_rule(*ty, required).0,
        r.1 == inferred_rule(*ty, required).1,
    decreases ty,
{
    match ty {
        TypeExpr::Path(segs) => {
            if segs.len() == 0 {
                return (String::new(), required);
            }
            let last = &segs[segs.len() - 1];
            if str_eq(last.ident.as_str(), "Option") {
                if last.args.len() > 0 {
                    match &last.args[0] {
                        GenericArg::Type(inner) => {
                            proof {
                                assert(decreases_to!(*ty => segs));
                                assert(decreases_to!(segs => segs@));
                                assert(decreases_to!(segs@ => segs@[segs@.len() - 1]));
                                assert(decreases_to!(segs@[segs@.len() - 1] => last.args));
                                assert(decreases_to!(last.args => last.args@));
                                assert(decreases_to!(last.args@ => last.args@[0]));
                            }
                            let (kw, _) = infer_field_rule(inner, false);
                            (kw, false)
                        },
                        GenericArg::Other => (String::new(), false),
                    }
                } else {
                    (String::new(), false)
                }
            } else {
                (keyword_for_ident(last.ident.as_str()), required)
            }
        },
        TypeExpr::Other => (String::new(), required),
    }
}

} // verus!
