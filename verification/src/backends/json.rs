//! JSON text for provider requests. String literals are quoted by serde_json;
//! objects and arrays are framed here from already rendered member values.
use vstd::prelude::*;
use crate::message::{Headers, store};
use crate::simple_model::{str_le, str_sorts_first};
use crate::text::{copy_str, join, join_strings, push_str, views};

verus! {

/// The lowercase hexadecimal digit for `d < 16`.
pub open spec fn json_hex(d: int) -> char {
    if d < 10 {
        (48 + d) as char
    } else {
        (87 + d) as char
    }
}

/// How serde_json writes one character inside a string literal: `"` and
/// `\` with a backslash; backspace, tab, line feed, form feed and carriage
/// return as `\b`, `\t`, `\n`, `\f`, `\r`; any other control character
/// below U+0020 as `\u00` and two lowercase hexadecimal digits; every other
/// character as itself.
pub open spec fn json_escape(c: char) -> Seq<char> {
    let u = (c as u32) as int;
    if c == '"' {
        seq!['\\', '"']
    } else if c == '\\' {
        seq!['\\', '\\']
    } else if u == 8 {
        seq!['\\', 'b']
    } else if u == 9 {
        seq!['\\', 't']
    } else if u == 10 {
        seq!['\\', 'n']
    } else if u == 12 {
        seq!['\\', 'f']
    } else if u == 13 {
        seq!['\\', 'r']
    } else if u < 32 {
        seq!['\\', 'u', '0', '0', json_hex(u / 16), json_hex(u % 16)]
    } else {
        seq![c]
    }
}

/// The escaped characters of `s`, in order.
pub open spec fn json_escaped(s: Seq<char>) -> Seq<char>
    decreases s.len(),
{
    if s.len() == 0 {
        Seq::empty()
    } else {
        json_escaped(s.drop_last()) + json_escape(s.last())
    }
}

/// The JSON string literal serde_json writes for `s`: `s` in double quotes,
/// each character escaped by [`json_escape`].
pub open spec fn json_quoted(s: Seq<char>) -> Seq<char> {
    seq!['"'] + json_escaped(s) + seq!['"']
}

/// `serde_json::to_string(s)` for a string slice. Serialising a `str` into
/// a fresh buffer cannot fail: a `str` serialises as one string and the
/// buffer is a `Vec<u8>`; the error arm only converts the type.
#[verifier::external_body]
pub(crate) fn quote(s: &str) -> (r: String)
    ensures
        r@ == json_quoted(s@),
{
    match serde_json::to_string(s) {
        Ok(t) => t,
        Err(_) => String::new(),
    }
}

/// The JSON literal of a boolean.
pub open spec fn json_bool(b: bool) -> Seq<char> {
    if b {
        "true"@
    } else {
        "false"@
    }
}

/// One object member: the quoted name, a colon and the rendered value.
pub open spec fn json_member(kv: (Seq<char>, Seq<char>)) -> Seq<char> {
    json_quoted(kv.0) + ":"@ + kv.1
}

/// `s` with `kv` inserted before the first member whose name sorts no
/// earlier than `kv`'s (at the end if none does).
pub open spec fn insert_by_key(s: Seq<(Seq<char>, Seq<char>)>, kv: (Seq<char>, Seq<char>)) -> Seq<
    (Seq<char>, Seq<char>),
>
    decreases s.len(),
{
    if s.len() == 0 {
        seq![kv]
    } else if str_le(kv.0, s[0].0) {
        seq![kv] + s
    } else {
        seq![s[0]] + insert_by_key(s.drop_first(), kv)
    }
}

/// `fields` ordered by name, as a serde_json map (a `BTreeMap` by default)
/// orders its members: byte order of the names, which is the order of
/// their characters' code points.
pub open spec fn by_key(fields: Seq<(Seq<char>, Seq<char>)>) -> Seq<(Seq<char>, Seq<char>)>
    decreases fields.len(),
{
    if fields.len() == 0 {
        Seq::empty()
    } else {
        insert_by_key(by_key(fields.drop_last()), fields.last())
    }
}

/// A JSON object whose members are `fields`, ordered by name as a
/// serde_json map writes them; each value is already rendered JSON text.
pub open spec fn json_object(fields: Seq<(Seq<char>, Seq<char>)>) -> Seq<char> {
    "{"@ + join(by_key(fields).map_values(|kv: (Seq<char>, Seq<char>)| json_member(kv)), ","@) + "}"@
}

/// The index at which [`insert_by_key`] puts `kv` into `s`.
pub open spec fn key_slot(s: Seq<(Seq<char>, Seq<char>)>, kv: (Seq<char>, Seq<char>), j: int) -> bool {
    &&& 0 <= j <= s.len()
    &&& forall|i: int| 0 <= i < j ==> !str_le(kv.0, #[trigger] s[i].0)
    &&& j < s.len() ==> str_le(kv.0, s[j].0)
}

proof fn lemma_insert_at(s: Seq<(Seq<char>, Seq<char>)>, kv: (Seq<char>, Seq<char>), j: int)
    requires
        key_slot(s, kv, j),
    ensures
        insert_by_key(s, kv) == s.take(j) + seq![kv] + s.skip(j),
    decreases s.len(),
{
    if s.len() == 0 {
        assert(s.take(j) + seq![kv] + s.skip(j) =~= seq![kv]);
    } else if j == 0 {
        assert(s.take(j) + seq![kv] + s.skip(j) =~= seq![kv] + s);
    } else {
        assert(!str_le(kv.0, s[0].0));
        let t = s.drop_first();
        assert forall|i: int| 0 <= i < j - 1 implies !str_le(kv.0, #[trigger] t[i].0) by {
            assert(t[i] == s[i + 1]);
        }
        if j - 1 < t.len() {
            assert(t[j - 1] == s[j]);
        }
        lemma_insert_at(t, kv, j - 1);
        assert(s.take(j) + seq![kv] + s.skip(j) =~= seq![s[0]] + (t.take(j - 1) + seq![kv] + t.skip(j - 1)));
    }
}

/// A JSON array of already rendered items.
pub open spec fn json_array(items: Seq<Seq<char>>) -> Seq<char> {
    "["@ + join(items, ","@) + "]"@
}

/// The JSON literal of a boolean.
pub fn bool_text(b: bool) -> (s: &'static str)
    ensures
        s@ == json_bool(b),
{
    if b {
        "true"
    } else {
        "false"
    }
}

/// The JSON object whose members are the entries of `fields`, ordered by
/// name, each value already rendered JSON text.
pub fn object(fields: &Headers) -> (s: String)
    ensures
        s@ == json_object(fields@),
{
    let pairs = fields.pairs();
    let ghost fv = fields@;
    let mut sorted: Vec<(String, String)> = Vec::new();
    let mut i: usize = 0;
    while i < pairs.len()
        invariant
            i <= pairs.len(),
            pairs@.map_values(|e: (String, String)| (e.0@, e.1@)) == fv,
            sorted@.map_values(|e: (String, String)| (e.0@, e.1@)) == by_key(fv.take(i as int)),
        decreases pairs.len() - i,
    {
        let ghost sv = sorted@.map_values(|e: (String, String)| (e.0@, e.1@));
        let ghost kv = fv[i as int];
        proof {
            assert(kv == (pairs@[i as int].0@, pairs@[i as int].1@));
        }
        let mut j: usize = 0;
        while j < sorted.len() && !str_sorts_first(pairs[i].0.as_str(), sorted[j].0.as_str())
            invariant
                j <= sorted.len(),
                sv == sorted@.map_values(|e: (String, String)| (e.0@, e.1@)),
                kv.0 == pairs@[i as int].0@,
                i < pairs.len(),
                forall|m: int| 0 <= m < j ==> !str_le(kv.0, #[trigger] sv[m].0),
            decreases sorted.len() - j,
        {
            j = j + 1;
        }
        proof {
            lemma_insert_at(sv, kv, j as int);
            assert(fv.take(i + 1).drop_last() =~= fv.take(i as int));
            assert(fv.take(i + 1).last() == kv);
        }
        let ghost before = sorted@;
        sorted.insert(j, (copy_str(pairs[i].0.as_str()), copy_str(pairs[i].1.as_str())));
        proof {
            assert(sorted@.map_values(|e: (String, String)| (e.0@, e.1@)) =~= sv.take(j as int) + seq![kv] + sv.skip(
                j as int,
            ));
        }
        i = i + 1;
    }
    proof {
        assert(fv.take(i as int) =~= fv);
    }
    let ghost ov = by_key(fv);
    let mut members: Vec<String> = Vec::new();
    let mut k: usize = 0;
    while k < sorted.len()
        invariant
            k <= sorted.len(),
            sorted@.map_values(|e: (String, String)| (e.0@, e.1@)) == ov,
            views(members@) == ov.take(k as int).map_values(|kv: (Seq<char>, Seq<char>)| json_member(kv)),
        decreases sorted.len() - k,
    {
        let mut m = quote(sorted[k].0.as_str());
        push_str(&mut m, ":");
        push_str(&mut m, sorted[k].1.as_str());
        let ghost before = members@;
        let ghost mv = m@;
        members.push(m);
        proof {
            assert(ov[k as int] == (sorted@[k as int].0@, sorted@[k as int].1@));
            assert(views(members@) =~= views(before).push(mv));
            assert(views(members@) =~= ov.take(k + 1).map_values(|kv: (Seq<char>, Seq<char>)| json_member(kv)));
        }
        k = k + 1;
    }
    proof {
        assert(ov.take(k as int) =~= ov);
    }
    let inner = join_strings(&members, ",");
    let mut s = copy_str("{");
    push_str(&mut s, inner.as_str());
    push_str(&mut s, "}");
    s
}

/// The JSON array of already rendered `items`.
pub fn array(items: &Vec<String>) -> (s: String)
    ensures
        s@ == json_array(views(items@)),
{
    let inner = join_strings(items, ",");
    let mut s = copy_str("[");
    push_str(&mut s, inner.as_str());
    push_str(&mut s, "]");
    s
}

/// The JSON array of the quoted `items`.
pub fn string_array(items: &Vec<String>) -> (s: String)
    ensures
        s@ == json_array(views(items@).map_values(|t: Seq<char>| json_quoted(t))),
{
    let mut quoted: Vec<String> = Vec::new();
    let mut i: usize = 0;
    while i < items.len()
        invariant
            i <= items.len(),
            views(quoted@) == views(items@).take(i as int).map_values(|t: Seq<char>| json_quoted(t)),
        decreases items.len() - i,
    {
        let q = quote(items[i].as_str());
        let ghost before = quoted@;
        let ghost qv = q@;
        quoted.push(q);
        proof {
            assert(views(quoted@) =~= views(before).push(qv));
            assert(views(quoted@) =~= views(items@).take(i + 1).map_values(
                |t: Seq<char>| json_quoted(t),
            ));
        }
        i = i + 1;
    }
    proof {
        assert(views(items@).take(i as int) =~= views(items@));
    }
    array(&quoted)
}

/// Stores an already rendered JSON value under `key`.
pub fn put_raw(fields: &mut Headers, key: &str, value: &str)
    ensures
        final(fields)@ == store(old(fields)@, key@, value@),
{
    fields.insert(copy_str(key), copy_str(value));
}

/// Stores the quoted `value` under `key`.
pub fn put_quoted(fields: &mut Headers, key: &str, value: &str)
    ensures
        final(fields)@ == store(old(fields)@, key@, json_quoted(value@)),
{
    let q = quote(value);
    fields.insert(copy_str(key), q);
}

} // verus!
