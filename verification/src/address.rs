//! Email addresses with an optional display name.
use vstd::prelude::*;
use crate::text::{copy_str, push_str, views};

verus! {

/// Email address with optional display name.
#[derive(Debug)]
pub struct Address {
    /// Email address
    pub email: String,
    /// Display name
    pub name: Option<String>,
}

/// The character view of an optional string.
pub open spec fn opt_view(o: Option<String>) -> Option<Seq<char>> {
    match o {
        Some(s) => Some(s@),
        None => None,
    }
}

/// Copies an optional string.
pub fn copy_opt(o: &Option<String>) -> (r: Option<String>)
    ensures
        opt_view(*o) == opt_view(r),
{
    match o {
        Some(s) => Some(copy_str(s.as_str())),
        None => None,
    }
}

/// `name <email>` when a display name is set, else the bare email.
pub open spec fn address_text(a: Address) -> Seq<char> {
    match a.name {
        Some(n) => n@ + " <"@ + a.email@ + ">"@,
        None => a.email@,
    }
}

/// Whether two addresses hold the same email and display name.
pub open spec fn same_address(a: Address, b: Address) -> bool {
    a.email@ == b.email@ && opt_view(a.name) == opt_view(b.name)
}

/// Whether two address lists agree element by element.
pub open spec fn same_addresses(a: Seq<Address>, b: Seq<Address>) -> bool {
    a.len() == b.len() && forall|i: int| 0 <= i < a.len() ==> same_address(#[trigger] a[i], b[i])
}

impl Address {
    /// Create new address with email only.
    pub fn new(email: &str) -> (a: Self)
        ensures
            a.email@ == email@,
            a.name is None,
    {
        Address { email: copy_str(email), name: None }
    }

    /// Create new address with email and display name.
    pub fn with_name(email: &str, name: &str) -> (a: Self)
        ensures
            a.email@ == email@,
            opt_view(a.name) == Some(name@),
    {
        Address { email: copy_str(email), name: Some(copy_str(name)) }
    }

    /// Format the address for display: `name <email>`, or the bare email.
    pub fn format(&self) -> (s: String)
        ensures
            s@ == address_text(*self),
    {
        match &self.name {
            Some(name) => {
                let mut s = copy_str(name.as_str());
                push_str(&mut s, " <");
                push_str(&mut s, self.email.as_str());
                push_str(&mut s, ">");
                s
            },
            None => copy_str(self.email.as_str()),
        }
    }

    /// A copy of this address.
    pub fn duplicate(&self) -> (a: Self)
        ensures
            same_address(a, *self),
    {
        Address { email: copy_str(self.email.as_str()), name: copy_opt(&self.name) }
    }
}

/// Copies an address list.
pub fn copy_addresses(v: &Vec<Address>) -> (r: Vec<Address>)
    ensures
        same_addresses(r@, v@),
{
    let mut r: Vec<Address> = Vec::new();
    let mut i: usize = 0;
    while i < v.len()
        invariant
            i <= v.len(),
            r@.len() == i,
            forall|j: int| 0 <= j < i ==> same_address(#[trigger] r@[j], v@[j]),
        decreases v.len() - i,
    {
        r.push(v[i].duplicate());
        i = i + 1;
    }
    r
}

impl Clone for Address {
    fn clone(&self) -> (a: Self)
        ensures
            same_address(a, *self),
    {
        self.duplicate()
    }
}

impl<'a> From<&'a str> for Address {
    /// An address holding `email` and no display name (see [`Address::new`]).
    fn from(email: &'a str) -> (a: Self)
        ensures
            a.email@ == email@,
            a.name is None,
    {
        Address::new(email)
    }
}

impl<'a> vstd::std_specs::convert::FromSpecImpl<&'a str> for Address {
    open spec fn obeys_from_spec() -> bool {
        false
    }

    open spec fn from_spec(v: &'a str) -> Self {
        vstd::pervasive::arbitrary()
    }
}

impl From<String> for Address {
    /// An address holding `email` and no display name (see [`Address::new`]).
    fn from(email: String) -> (a: Self) {
        Address { email, name: None }
    }
}

impl vstd::std_specs::convert::FromSpecImpl<String> for Address {
    open spec fn obeys_from_spec() -> bool {
        true
    }

    open spec fn from_spec(v: String) -> Self {
        Address { email: v, name: None }
    }
}

/// The email part of each address.
pub open spec fn emails_of(addrs: Seq<Address>) -> Seq<Seq<char>> {
    addrs.map_values(|a: Address| a.email@)
}

/// The display text (`name <email>` or the bare email) of each address.
pub open spec fn texts_of(addrs: Seq<Address>) -> Seq<Seq<char>> {
    addrs.map_values(|a: Address| address_text(a))
}

/// The email part of each address.
pub fn emails(addrs: &Vec<Address>) -> (r: Vec<String>)
    ensures
        views(r@) == emails_of(addrs@),
{
    let mut r: Vec<String> = Vec::new();
    let mut i: usize = 0;
    while i < addrs.len()
        invariant
            i <= addrs.len(),
            views(r@) == emails_of(addrs@).take(i as int),
        decreases addrs.len() - i,
    {
        let e = copy_str(addrs[i].email.as_str());
        let ghost old_r = r@;
        let ghost ev = e@;
        r.push(e);
        proof {
            assert(views(r@) =~= views(old_r).push(ev));
            assert(views(r@) =~= emails_of(addrs@).take(i + 1));
        }
        i = i + 1;
    }
    proof {
        assert(emails_of(addrs@).take(i as int) =~= emails_of(addrs@));
    }
    r
}

/// The display text of each address.
pub fn display_texts(addrs: &Vec<Address>) -> (r: Vec<String>)
    ensures
        views(r@) == texts_of(addrs@),
{
    let mut r: Vec<String> = Vec::new();
    let mut i: usize = 0;
    while i < addrs.len()
        invariant
            i <= addrs.len(),
            views(r@) == texts_of(addrs@).take(i as int),
        decreases addrs.len() - i,
    {
        let e = addrs[i].format();
        let ghost old_r = r@;
        let ghost ev = e@;
        r.push(e);
        proof {
            assert(views(r@) =~= views(old_r).push(ev));
            assert(views(r@) =~= texts_of(addrs@).take(i + 1));
        }
        i = i + 1;
    }
    proof {
        assert(texts_of(addrs@).take(i as int) =~= texts_of(addrs@));
    }
    r
}

} // verus!
