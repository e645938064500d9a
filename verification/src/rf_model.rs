//! Model metadata: what the `RfModel` derive gathers from a struct's
//! `#[rf(...)]` attributes, and the table name, field lists and switches it
//! gives the model.
use vstd::prelude::*;
use crate::naming::{lowered_snake, snake_case};
use crate::text::{copy_str, push_str, views};

verus! {

/// One `#[rf(...)]` attribute, already split into its key and value.
#[derive(Debug)]
pub enum RfAttr {
    /// `table = "name"`
    Table(String),
    /// `hidden = [..]`
    Hidden(Vec<String>),
    /// `fillable = [..]`
    Fillable(Vec<String>),
    /// `guarded = [..]`
    Guarded(Vec<String>),
    /// `timestamps`
    Timestamps,
    /// `soft_delete`
    SoftDelete,
    /// Any other key
    Unknown(String),
}

/// The content of an attribute.
pub enum RfAttrView {
    Table(Seq<char>),
    Hidden(Seq<Seq<char>>),
    Fillable(Seq<Seq<char>>),
    Guarded(Seq<Seq<char>>),
    Timestamps,
    SoftDelete,
    Unknown(Seq<char>),
}

impl View for RfAttr {
    type V = RfAttrView;

    open spec fn view(&self) -> RfAttrView {
        match self {
            RfAttr::Table(t) => RfAttrView::Table(t@),
            RfAttr::Hidden(v) => RfAttrView::Hidden(views(v@)),
            RfAttr::Fillable(v) => RfAttrView::Fillable(views(v@)),
            RfAttr::Guarded(v) => RfAttrView::Guarded(views(v@)),
            RfAttr::Timestamps => RfAttrView::Timestamps,
            RfAttr::SoftDelete => RfAttrView::SoftDelete,
            RfAttr::Unknown(k) => RfAttrView::Unknown(k@),
        }
    }
}

/// All metadata collected from the attributes of a struct.
#[derive(Debug)]
pub struct RfModelAttrs {
    table: Option<String>,
    hidden: Vec<String>,
    fillable: Vec<String>,
    guarded: Vec<String>,
    timestamps: bool,
    soft_delete: bool,
}

/// The content of collected metadata.
pub struct AttrsView {
    pub table: Option<Seq<char>>,
    pub hidden: Seq<Seq<char>>,
    pub fillable: Seq<Seq<char>>,
    pub guarded: Seq<Seq<char>>,
    pub timestamps: bool,
    pub soft_delete: bool,
}

impl View for RfModelAttrs {
    type V = AttrsView;

    closed spec fn view(&self) -> AttrsView {
        AttrsView {
            table: match self.table {
                Some(t) => Some(t@),
                None => None,
            },
            hidden: views(self.hidden@),
            fillable: views(self.fillable@),
            guarded: views(self.guarded@),
            timestamps: self.timestamps,
            soft_delete: self.soft_delete,
        }
    }
}

/// Metadata with nothing collected yet.
pub open spec fn no_attrs() -> AttrsView {
    AttrsView {
        table: None,
        hidden: Seq::empty(),
        fillable: Seq::empty(),
        guarded: Seq::empty(),
        timestamps: false,
        soft_delete: false,
    }
}

/// The error for an attribute key the derive does not know.
pub open spec fn unknown_attr_text(key: Seq<char>) -> Seq<char> {
    "Unknown rf attribute: `"@ + key
        + "`. Expected one of: table, hidden, fillable, guarded, timestamps, soft_delete"@
}

/// Metadata after merging one attribute: a table name replaces the earlier
/// one, field lists are extended, switches are turned on, and an unknown key
/// is an error.
pub open spec fn merge_attr(a: AttrsView, attr: RfAttrView) -> Result<AttrsView, Seq<char>> {
    match attr {
        RfAttrView::Table(t) => Ok(AttrsView { table: Some(t), ..a }),
        RfAttrView::Hidden(v) => Ok(AttrsView { hidden: a.hidden + v, ..a }),
        RfAttrView::Fillable(v) => Ok(AttrsView { fillable: a.fillable + v, ..a }),
        RfAttrView::Guarded(v) => Ok(AttrsView { guarded: a.guarded + v, ..a }),
        RfAttrView::Timestamps => Ok(AttrsView { timestamps: true, ..a }),
        RfAttrView::SoftDelete => Ok(AttrsView { soft_delete: true, ..a }),
        RfAttrView::Unknown(k) => Err(unknown_attr_text(k)),
    }
}

/// The metadata of a list of attributes, merged in order; the first unknown
/// key is the error.
pub open spec fn merge_all(attrs: Seq<RfAttrView>) -> Result<AttrsView, Seq<char>>
    decreases attrs.len(),
{
    if attrs.len() == 0 {
        Ok(no_attrs())
    } else {
        match merge_all(attrs.drop_last()) {
            Ok(a) => merge_attr(a, attrs.last()),
            Err(e) => Err(e),
        }
    }
}

/// The table name of a model: the explicit one, else the struct name in
/// lowered snake case with an `s`.
pub open spec fn table_name_of(struct_name: Seq<char>, table: Option<Seq<char>>) -> Seq<char> {
    match table {
        Some(t) => t,
        None => lowered_snake(struct_name) + "s"@,
    }
}

fn copy_strings(v: &Vec<String>) -> (r: Vec<String>)
    ensures
        views(r@) == views(v@),
{
    let mut r: Vec<String> = Vec::new();
    let mut i: usize = 0;
    while i < v.len()
        invariant
            i <= v.len(),
            views(r@) == views(v@).take(i as int),
        decreases v.len() - i,
    {
        let s = copy_str(v[i].as_str());
        let ghost before = r@;
        let ghost sv = s@;
        r.push(s);
        proof {
            assert(views(r@) =~= views(before).push(sv));
            assert(views(r@) =~= views(v@).take(i + 1));
        }
        i = i + 1;
    }
    proof {
        assert(views(v@).take(i as int) =~= views(v@));
    }
    r
}

fn extend(dst: &mut Vec<String>, src: &Vec<String>)
    ensures
        views(final(dst)@) == views(old(dst)@) + views(src@),
{
    let mut more = copy_strings(src);
    let ghost a = views(dst@);
    let ghost b = views(more@);
    dst.append(&mut more);
    proof {
        assert(views(dst@) =~= a + b);
    }
}

impl RfModelAttrs {
    /// Metadata with nothing collected yet.
    pub fn new() -> (a: Self)
        ensures
            a@ == no_attrs(),
    {
        let a = RfModelAttrs {
            table: None,
            hidden: Vec::new(),
            fillable: Vec::new(),
            guarded: Vec::new(),
            timestamps: false,
            soft_delete: false,
        };
        proof {
            assert(a@.hidden =~= Seq::<Seq<char>>::empty());
            assert(a@.fillable =~= Seq::<Seq<char>>::empty());
            assert(a@.guarded =~= Seq::<Seq<char>>::empty());
        }
        a
    }

    /// Merge one attribute; an unknown key is refused and leaves the metadata
    /// unchanged.
    pub fn merge(&mut self, attr: &RfAttr) -> (r: Result<(), String>)
        ensures
            match merge_attr(old(self)@, attr@) {
                Ok(a) => r is Ok && final(self)@ == a,
                Err(e) => r matches Err(m) && m@ == e && final(self)@ == old(self)@,
            },
    {
        match attr {
            RfAttr::Table(t) => {
                self.table = Some(copy_str(t.as_str()));
                Ok(())
            },
            RfAttr::Hidden(v) => {
                extend(&mut self.hidden, v);
                Ok(())
            },
            RfAttr::Fillable(v) => {
                extend(&mut self.fillable, v);
                Ok(())
            },
            RfAttr::Guarded(v) => {
                extend(&mut self.guarded, v);
                Ok(())
            },
            RfAttr::Timestamps => {
                self.timestamps = true;
                Ok(())
            },
            RfAttr::SoftDelete => {
                self.soft_delete = true;
                Ok(())
            },
            RfAttr::Unknown(k) => {
                let mut m = copy_str("Unknown rf attribute: `");
                push_str(&mut m, k.as_str());
                push_str(
                    &mut m,
                    "`. Expected one of: table, hidden, fillable, guarded, timestamps, soft_delete",
                );
                Err(m)
            },
        }
    }
}

/// The metadata methods a derived model gets.
#[derive(Debug)]
pub struct ModelMeta {
    table_name: String,
    hidden: Vec<String>,
    fillable: Vec<String>,
    guarded: Vec<String>,
    timestamps: bool,
    soft_delete: bool,
}

/// The content of model metadata.
pub struct MetaView {
    pub table_name: Seq<char>,
    pub hidden: Seq<Seq<char>>,
    pub fillable: Seq<Seq<char>>,
    pub guarded: Seq<Seq<char>>,
    pub timestamps: bool,
    pub soft_delete: bool,
}

impl View for ModelMeta {
    type V = MetaView;

    closed spec fn view(&self) -> MetaView {
        MetaView {
            table_name: self.table_name@,
            hidden: views(self.hidden@),
            fillable: views(self.fillable@),
            guarded: views(self.guarded@),
            timestamps: self.timestamps,
            soft_delete: self.soft_delete,
        }
    }
}

/// The metadata a struct named `struct_name` with collected attributes `a`
/// gets.
pub open spec fn meta_of(struct_name: Seq<char>, a: AttrsView) -> MetaView {
    MetaView {
        table_name: table_name_of(struct_name, a.table),
        hidden: a.hidden,
        fillable: a.fillable,
        guarded: a.guarded,
        timestamps: a.timestamps,
        soft_delete: a.soft_delete,
    }
}

/// The string slices of a list of strings.
pub open spec fn str_views(v: Seq<&str>) -> Seq<Seq<char>> {
    v.map_values(|s: &str| s@)
}

fn slices(v: &Vec<String>) -> (r: Vec<&str>)
    ensures
        str_views(r@) == views(v@),
{
    let mut r: Vec<&str> = Vec::new();
    let mut i: usize = 0;
    while i < v.len()
        invariant
            i <= v.len(),
            str_views(r@) == views(v@).take(i as int),
        decreases v.len() - i,
    {
        let ghost before = r@;
        let t = v[i].as_str();
        r.push(t);
        proof {
            assert(str_views(r@) =~= str_views(before).push(t@));
            assert(views(v@)[i as int] == v@[i as int]@);
            assert(str_views(r@) =~= views(v@).take(i + 1));
        }
        i = i + 1;
    }
    proof {
        assert(views(v@).take(i as int) =~= views(v@));
    }
    r
}

impl ModelMeta {
    /// The metadata of the struct `struct_name` with the attributes `attrs`,
    /// in order; the first unknown attribute key is the error.
    pub fn derive(struct_name: &str, attrs: &Vec<RfAttr>) -> (r: Result<Self, String>)
        ensures
            match merge_all(attrs@.map_values(|a: RfAttr| a@)) {
                Ok(a) => r matches Ok(m) && m@ == meta_of(struct_name@, a),
                Err(e) => r matches Err(m) && m@ == e,
            },
    {
        let ghost av = attrs@.map_values(|a: RfAttr| a@);
        let mut collected = RfModelAttrs::new();
        let mut i: usize = 0;
        while i < attrs.len()
            invariant
                i <= attrs.len(),
                av == attrs@.map_values(|a: RfAttr| a@),
                merge_all(av.take(i as int)) == Ok::<AttrsView, Seq<char>>(collected@),
            decreases attrs.len() - i,
        {
            proof {
                assert(av.take(i + 1).drop_last() =~= av.take(i as int));
                assert(av.take(i + 1).last() == attrs@[i as int]@);
            }
            match collected.merge(&attrs[i]) {
                Ok(()) => {},
                Err(e) => {
                    proof {
                        lemma_merge_all_err(av, i as int + 1);
                    }
                    return Err(e);
                },
            }
            i = i + 1;
        }
        proof {
            assert(av.take(i as int) =~= av);
        }
        let table_name = match &collected.table {
            Some(t) => copy_str(t.as_str()),
            None => {
                let mut t = snake_case(struct_name);
                push_str(&mut t, "s");
                t
            },
        };
        Ok(
            ModelMeta {
                table_name,
                hidden: collected.hidden,
                fillable: collected.fillable,
                guarded: collected.guarded,
                timestamps: collected.timestamps,
                soft_delete: collected.soft_delete,
            },
        )
    }

    /// The database table name of the model.
    pub fn table_name(&self) -> (s: &str)
        ensures
            s@ == self@.table_name,
    {
        self.table_name.as_str()
    }

    /// The hidden fields (excluded from serialization).
    pub fn hidden_fields(&self) -> (v: Vec<&str>)
        ensures
            str_views(v@) == self@.hidden,
    {
        slices(&self.hidden)
    }

    /// The mass-assignable fields.
    pub fn fillable_fields(&self) -> (v: Vec<&str>)
        ensures
            str_views(v@) == self@.fillable,
    {
        slices(&self.fillable)
    }

    /// The guarded (non-mass-assignable) fields.
    pub fn guarded_fields(&self) -> (v: Vec<&str>)
        ensures
            str_views(v@) == self@.guarded,
    {
        slices(&self.guarded)
    }

    /// Whether the model uses automatic timestamp management.
    pub fn uses_timestamps(&self) -> (b: bool)
        ensures
            b == self@.timestamps,
    {
        self.timestamps
    }

    /// Whether the model supports soft deletes.
    pub fn uses_soft_delete(&self) -> (b: bool)
        ensures
            b == self@.soft_delete,
    {
        self.soft_delete
    }
}

/// Once merging fails, it stays failed with the same error.
proof fn lemma_merge_all_err(attrs: Seq<RfAttrView>, n: int)
    requires
        0 < n <= attrs.len(),
        merge_all(attrs.take(n)) is Err,
    ensures
        merge_all(attrs) == merge_all(attrs.take(n)),
    decreases attrs.len() - n,
{
    if n < attrs.len() {
        assert(attrs.take(n + 1).drop_last() =~= attrs.take(n));
        lemma_merge_all_err(attrs, n + 1);
    } else {
        assert(attrs.take(n) =~= attrs);
    }
}

} // verus!
