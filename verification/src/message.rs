//! Email messages with separate optional HTML and text bodies.
use vstd::prelude::*;
use crate::address::{Address, copy_addresses, copy_opt, opt_view, same_address, same_addresses};
use crate::attachment::{Attachment, copy_attachments, same_attachments, total_size};
use crate::outside::new_uuid_string;
use crate::text::{copy_str, str_eq};

verus! {

// ---------------------------------------------------------------------------
// Headers
// ---------------------------------------------------------------------------

/// Position of the entry with key `k` in `kvs`, scanning from the front.
pub open spec fn key_index(kvs: Seq<(Seq<char>, Seq<char>)>, k: Seq<char>) -> Option<int>
    decreases kvs.len(),
{
    if kvs.len() == 0 {
        None
    } else if kvs.last().0 == k && key_index(kvs.drop_last(), k) is None {
        Some(kvs.len() - 1)
    } else {
        key_index(kvs.drop_last(), k)
    }
}

/// The value stored under `k`, if any.
pub open spec fn lookup(kvs: Seq<(Seq<char>, Seq<char>)>, k: Seq<char>) -> Option<Seq<char>> {
    match key_index(kvs, k) {
        Some(i) => Some(kvs[i].1),
        None => None,
    }
}

/// The entries after storing `v` under `k`: an existing entry for `k` is
/// overwritten in place, otherwise the pair is appended.
pub open spec fn store(kvs: Seq<(Seq<char>, Seq<char>)>, k: Seq<char>, v: Seq<char>) -> Seq<(Seq<char>, Seq<char>)> {
    match key_index(kvs, k) {
        Some(i) => kvs.update(i, (k, v)),
        None => kvs.push((k, v)),
    }
}

/// No key occurs twice.
pub open spec fn keys_distinct(kvs: Seq<(Seq<char>, Seq<char>)>) -> bool {
    forall|i: int, j: int| 0 <= i < j < kvs.len() ==> kvs[i].0 != kvs[j].0
}

pub proof fn lemma_key_index(kvs: Seq<(Seq<char>, Seq<char>)>, k: Seq<char>)
    ensures
        match key_index(kvs, k) {
            Some(i) => 0 <= i < kvs.len() && kvs[i].0 == k && forall|j: int|
                0 <= j < i ==> kvs[j].0 != k,
            None => forall|j: int| 0 <= j < kvs.len() ==> kvs[j].0 != k,
        },
    decreases kvs.len(),
{
    if kvs.len() > 0 {
        let d = kvs.drop_last();
        lemma_key_index(d, k);
        assert(forall|j: int| 0 <= j < d.len() ==> d[j] == kvs[j]);
    }
}

pub proof fn lemma_key_index_unique(kvs: Seq<(Seq<char>, Seq<char>)>, k: Seq<char>, i: int)
    requires
        0 <= i < kvs.len(),
        kvs[i].0 == k,
        keys_distinct(kvs),
    ensures
        key_index(kvs, k) == Some(i),
{
    lemma_key_index(kvs, k);
}

/// Whether some entry of `kvs` has the name `k`.
pub open spec fn has_key(kvs: Seq<(Seq<char>, Seq<char>)>, k: Seq<char>) -> bool {
    exists|i: int| 0 <= i < kvs.len() && #[trigger] kvs[i].0 == k
}

/// Whether every entry of `kvs` named `k` has the value `v`.
pub open spec fn values_are(kvs: Seq<(Seq<char>, Seq<char>)>, k: Seq<char>, v: Seq<char>) -> bool {
    forall|i: int| 0 <= i < kvs.len() && #[trigger] kvs[i].0 == k ==> kvs[i].1 == v
}

/// Storing under a name that is not there yet adds it, with that value only.
pub proof fn lemma_store_fresh(kvs: Seq<(Seq<char>, Seq<char>)>, k: Seq<char>, v: Seq<char>)
    requires
        !has_key(kvs, k),
    ensures
        has_key(store(kvs, k, v), k),
        values_are(store(kvs, k, v), k, v),
{
    lemma_key_index(kvs, k);
    let r = store(kvs, k, v);
    assert(r == kvs.push((k, v)));
    assert(r[kvs.len() as int].0 == k);
    assert forall|i: int| 0 <= i < r.len() && #[trigger] r[i].0 == k implies r[i].1 == v by {
        if i < kvs.len() {
            assert(r[i] == kvs[i]);
        }
    }
}

/// Storing under one name leaves the entries of every other name as they
/// were.
pub proof fn lemma_store_other(
    kvs: Seq<(Seq<char>, Seq<char>)>,
    k: Seq<char>,
    v: Seq<char>,
    k2: Seq<char>,
    v2: Seq<char>,
)
    requires
        k != k2,
    ensures
        has_key(store(kvs, k, v), k2) == has_key(kvs, k2),
        values_are(kvs, k2, v2) ==> values_are(store(kvs, k, v), k2, v2),
{
    lemma_key_index(kvs, k);
    let r = store(kvs, k, v);
    match key_index(kvs, k) {
        Some(j) => {
            assert(r == kvs.update(j, (k, v)));
            assert(forall|i: int| 0 <= i < r.len() && i != j ==> r[i] == kvs[i]);
            if has_key(kvs, k2) {
                let i = choose|i: int| 0 <= i < kvs.len() && #[trigger] kvs[i].0 == k2;
                assert(r[i].0 == k2);
            }
            if has_key(r, k2) {
                let i = choose|i: int| 0 <= i < r.len() && #[trigger] r[i].0 == k2;
                assert(kvs[i].0 == k2);
            }
        },
        None => {
            assert(r == kvs.push((k, v)));
            assert(forall|i: int| 0 <= i < kvs.len() ==> r[i] == kvs[i]);
            if has_key(kvs, k2) {
                let i = choose|i: int| 0 <= i < kvs.len() && #[trigger] kvs[i].0 == k2;
                assert(r[i].0 == k2);
            }
            if has_key(r, k2) {
                let i = choose|i: int| 0 <= i < r.len() && #[trigger] r[i].0 == k2;
                assert(kvs[i].0 == k2);
            }
        },
    }
}

/// Appending entries none of which is named `k` leaves the entries named
/// `k` as they were.
pub proof fn lemma_append_other(
    a: Seq<(Seq<char>, Seq<char>)>,
    b: Seq<(Seq<char>, Seq<char>)>,
    k: Seq<char>,
    v: Seq<char>,
)
    requires
        forall|j: int| 0 <= j < b.len() ==> (#[trigger] b[j]).0 != k,
    ensures
        has_key(a + b, k) == has_key(a, k),
        values_are(a, k, v) ==> values_are(a + b, k, v),
{
    let r = a + b;
    if has_key(a, k) {
        let i = choose|i: int| 0 <= i < a.len() && #[trigger] a[i].0 == k;
        assert(r[i].0 == k);
    }
    if has_key(r, k) {
        let i = choose|i: int| 0 <= i < r.len() && #[trigger] r[i].0 == k;
        if i >= a.len() {
            assert(r[i] == b[i - a.len()]);
        }
        assert(a[i].0 == k);
    }
    assert forall|i: int| 0 <= i < r.len() && #[trigger] r[i].0 == k && values_are(a, k, v) implies r[i].1 == v by {
        if i >= a.len() {
            assert(r[i] == b[i - a.len()]);
        } else {
            assert(r[i] == a[i]);
        }
    }
}

/// Whether `kvs` holds an entry named `k` exactly when `present`, each with
/// the value `v`.
pub open spec fn tracks(kvs: Seq<(Seq<char>, Seq<char>)>, k: Seq<char>, present: bool, v: Seq<char>) -> bool {
    has_key(kvs, k) == present && values_are(kvs, k, v)
}

/// No entry of an empty list is named `k`.
pub proof fn lemma_tracks_empty(k: Seq<char>, v: Seq<char>)
    ensures
        tracks(Seq::empty(), k, false, v),
{
}

/// Storing under another name keeps what is tracked of `k2`; storing under
/// a name not there yet tracks it with the stored value.
pub proof fn lemma_tracks_store(
    kvs: Seq<(Seq<char>, Seq<char>)>,
    k: Seq<char>,
    v: Seq<char>,
    k2: Seq<char>,
    present: bool,
    v2: Seq<char>,
)
    requires
        k != k2 ==> tracks(kvs, k2, present, v2),
        k == k2 ==> tracks(kvs, k2, false, v2) && present && v == v2,
    ensures
        tracks(store(kvs, k, v), k2, present, v2),
{
    if k != k2 {
        lemma_store_other(kvs, k, v, k2, v2);
    } else {
        lemma_store_fresh(kvs, k, v);
    }
}

/// A map from names to values that keeps entries in insertion order and each
/// name once: message headers, and the named fields of a provider request.
#[derive(Debug)]
pub struct Headers {
    entries: Vec<(String, String)>,
}

impl View for Headers {
    type V = Seq<(Seq<char>, Seq<char>)>;

    closed spec fn view(&self) -> Seq<(Seq<char>, Seq<char>)> {
        self.entries@.map_values(|e: (String, String)| (e.0@, e.1@))
    }
}

impl Headers {
    #[verifier::type_invariant]
    spec fn inv(self) -> bool {
        keys_distinct(self@)
    }

    /// An empty header map.
    pub fn new() -> (h: Self)
        ensures
            h@ == Seq::<(Seq<char>, Seq<char>)>::empty(),
    {
        let h = Headers { entries: Vec::new() };
        proof {
            assert(h@ =~= Seq::<(Seq<char>, Seq<char>)>::empty());
        }
        h
    }

    /// Number of stored headers.
    pub fn len(&self) -> (n: usize)
        ensures
            n == self@.len(),
    {
        self.entries.len()
    }

    fn position(&self, key: &str) -> (r: Option<usize>)
        ensures
            match r {
                Some(i) => key_index(self@, key@) == Some(i as int),
                None => key_index(self@, key@) is None,
            },
    {
        proof {
            use_type_invariant(self);
            lemma_key_index(self@, key@);
        }
        let mut i: usize = 0;
        while i < self.entries.len()
            invariant
                i <= self.entries@.len(),
                self@.len() == self.entries@.len(),
                keys_distinct(self@),
                forall|j: int| 0 <= j < i ==> self@[j].0 != key@,
            decreases self.entries.len() - i,
        {
            if str_eq(self.entries[i].0.as_str(), key) {
                proof {
                    lemma_key_index_unique(self@, key@, i as int);
                }
                return Some(i);
            }
            i = i + 1;
        }
        None
    }

    /// The value stored under `key`.
    pub fn get(&self, key: &str) -> (r: Option<&String>)
        ensures
            match r {
                Some(v) => lookup(self@, key@) == Some(v@),
                None => lookup(self@, key@) is None,
            },
    {
        proof {
            lemma_key_index(self@, key@);
        }
        match self.position(key) {
            Some(i) => {
                proof {
                    assert(self@[i as int] == (self.entries@[i as int].0@, self.entries@[i as int].1@));
                }
                Some(&self.entries[i].1)
            },
            None => None,
        }
    }

    /// Store `value` under `key`, overwriting an existing entry for `key`.
    pub fn insert(&mut self, key: String, value: String)
        ensures
            final(self)@ == store(old(self)@, key@, value@),
    {
        proof {
            use_type_invariant(&*self);
        }
        let ghost kv = key@;
        let ghost vv = value@;
        let ghost before = self@;
        let pos = self.position(key.as_str());
        proof {
            lemma_key_index(before, kv);
        }
        let mut entries: Vec<(String, String)> = Vec::new();
        std::mem::swap(&mut entries, &mut self.entries);
        assert(entries@.map_values(|e: (String, String)| (e.0@, e.1@)) == before);
        match pos {
            Some(i) => {
                entries.set(i, (key, value));
                proof {
                    assert(entries@.map_values(|e: (String, String)| (e.0@, e.1@)) =~= before.update(
                        i as int,
                        (kv, vv),
                    ));
                }
            },
            None => {
                entries.push((key, value));
                proof {
                    assert(entries@.map_values(|e: (String, String)| (e.0@, e.1@)) =~= before.push(
                        (kv, vv),
                    ));
                }
            },
        }
        self.entries = entries;
    }

    /// The stored entries, in order.
    pub fn pairs(&self) -> (v: Vec<(String, String)>)
        ensures
            v@.map_values(|e: (String, String)| (e.0@, e.1@)) == self@,
            keys_distinct(self@),
    {
        proof {
            use_type_invariant(self);
        }
        let mut v: Vec<(String, String)> = Vec::new();
        let mut i: usize = 0;
        while i < self.entries.len()
            invariant
                i <= self.entries@.len(),
                self@.len() == self.entries@.len(),
                v@.map_values(|e: (String, String)| (e.0@, e.1@)) == self@.take(i as int),
            decreases self.entries.len() - i,
        {
            let k = copy_str(self.entries[i].0.as_str());
            let w = copy_str(self.entries[i].1.as_str());
            let ghost before = v@;
            v.push((k, w));
            proof {
                assert(v@.map_values(|e: (String, String)| (e.0@, e.1@)) =~= before.map_values(
                    |e: (String, String)| (e.0@, e.1@),
                ).push(self@[i as int]));
                assert(self@.take(i + 1) =~= self@.take(i as int).push(self@[i as int]));
            }
            i = i + 1;
        }
        proof {
            assert(self@.take(i as int) =~= self@);
        }
        v
    }

    /// A copy of this header map.
    pub fn duplicate(&self) -> (h: Self)
        ensures
            h@ == self@,
    {
        proof {
            use_type_invariant(self);
        }
        let mut entries: Vec<(String, String)> = Vec::new();
        let mut i: usize = 0;
        while i < self.entries.len()
            invariant
                i <= self.entries@.len(),
                self@.len() == self.entries@.len(),
                keys_distinct(self@),
                entries@.map_values(|e: (String, String)| (e.0@, e.1@)) == self@.take(i as int),
            decreases self.entries.len() - i,
        {
            let k = copy_str(self.entries[i].0.as_str());
            let v = copy_str(self.entries[i].1.as_str());
            let ghost before = entries@;
            entries.push((k, v));
            proof {
                assert(entries@.map_values(|e: (String, String)| (e.0@, e.1@)) =~= before.map_values(
                    |e: (String, String)| (e.0@, e.1@),
                ).push(self@[i as int]));
                assert(self@.take(i + 1) =~= self@.take(i as int).push(self@[i as int]));
            }
            i = i + 1;
        }
        proof {
            assert(self@.take(i as int) =~= self@);
        }
        Headers { entries }
    }
}

/// Reading a header back after storing it gives the stored value, and other
/// headers keep their values.
pub proof fn lemma_store_then_lookup(
    kvs: Seq<(Seq<char>, Seq<char>)>,
    k: Seq<char>,
    v: Seq<char>,
    other: Seq<char>,
)
    requires
        keys_distinct(kvs),
    ensures
        keys_distinct(store(kvs, k, v)),
        lookup(store(kvs, k, v), k) == Some(v),
        other != k ==> lookup(store(kvs, k, v), other) == lookup(kvs, other),
{
    lemma_key_index(kvs, k);
    lemma_key_index(kvs, other);
    let s = store(kvs, k, v);
    assert(keys_distinct(s));
    lemma_key_index(s, k);
    lemma_key_index(s, other);
    match key_index(kvs, k) {
        Some(i) => {
            lemma_key_index_unique(s, k, i);
            if other != k {
                match key_index(kvs, other) {
                    Some(j) => {
                        lemma_key_index_unique(s, other, j);
                    },
                    None => {},
                }
            }
        },
        None => {
            lemma_key_index_unique(s, k, kvs.len() as int);
            if other != k {
                match key_index(kvs, other) {
                    Some(j) => {
                        lemma_key_index_unique(s, other, j);
                    },
                    None => {},
                }
            }
        },
    }
}

/// Storing a header twice under one name leaves only the second value, in
/// the place of the first.
pub proof fn lemma_store_overwrites(
    kvs: Seq<(Seq<char>, Seq<char>)>,
    k: Seq<char>,
    v1: Seq<char>,
    v2: Seq<char>,
)
    requires
        keys_distinct(kvs),
    ensures
        store(store(kvs, k, v1), k, v2) == store(kvs, k, v2),
{
    lemma_key_index(kvs, k);
    let s1 = store(kvs, k, v1);
    assert(keys_distinct(s1)) by {
        lemma_store_then_lookup(kvs, k, v1, k);
    }
    match key_index(kvs, k) {
        Some(i) => {
            lemma_key_index_unique(s1, k, i);
            assert(s1.update(i, (k, v2)) =~= kvs.update(i, (k, v2)));
        },
        None => {
            lemma_key_index_unique(s1, k, kvs.len() as int);
            assert(s1.update(kvs.len() as int, (k, v2)) =~= kvs.push((k, v2)));
        },
    }
}

// ---------------------------------------------------------------------------
// Message
// ---------------------------------------------------------------------------

/// Email message.
#[derive(Debug)]
pub struct Message {
    /// Message ID
    pub id: String,
    /// From address
    pub from: Address,
    /// To addresses
    pub to: Vec<Address>,
    /// CC addresses
    pub cc: Vec<Address>,
    /// BCC addresses
    pub bcc: Vec<Address>,
    /// Reply-to address
    pub reply_to: Option<Address>,
    /// Subject
    pub subject: String,
    /// HTML body
    pub html: Option<String>,
    /// Plain text body
    pub text: Option<String>,
    /// Attachments
    pub attachments: Vec<Attachment>,
    /// Custom headers
    pub headers: Headers,
}

/// Whether two optional addresses agree.
pub open spec fn same_opt_address(a: Option<Address>, b: Option<Address>) -> bool {
    match (a, b) {
        (Some(x), Some(y)) => same_address(x, y),
        (None, None) => true,
        _ => false,
    }
}

/// Copies an optional address.
pub fn copy_opt_address(a: &Option<Address>) -> (r: Option<Address>)
    ensures
        same_opt_address(r, *a),
{
    match a {
        Some(x) => Some(x.duplicate()),
        None => None,
    }
}

/// Whether two messages hold the same content.
pub open spec fn same_message(a: Message, b: Message) -> bool {
    &&& a.id@ == b.id@
    &&& same_address(a.from, b.from)
    &&& same_addresses(a.to@, b.to@)
    &&& same_addresses(a.cc@, b.cc@)
    &&& same_addresses(a.bcc@, b.bcc@)
    &&& same_opt_address(a.reply_to, b.reply_to)
    &&& a.subject@ == b.subject@
    &&& opt_view(a.html) == opt_view(b.html)
    &&& opt_view(a.text) == opt_view(b.text)
    &&& same_attachments(a.attachments@, b.attachments@)
    &&& a.headers@ == b.headers@
}

/// A message with an empty sender, no recipients, empty subject, no body, no
/// attachments and no headers (its id is left open).
pub open spec fn blank_message(m: Message) -> bool {
    &&& m.from.email@ == Seq::<char>::empty()
    &&& m.from.name is None
    &&& m.to@.len() == 0
    &&& m.cc@.len() == 0
    &&& m.bcc@.len() == 0
    &&& m.reply_to is None
    &&& m.subject@ == Seq::<char>::empty()
    &&& m.html is None
    &&& m.text is None
    &&& m.attachments@.len() == 0
    &&& m.headers@.len() == 0
}

/// The first reason a message cannot be sent, if any.
pub open spec fn message_problem(m: Message) -> Option<Seq<char>> {
    if m.from.email@.len() == 0 {
        Some("From address is required"@)
    } else if m.to@.len() == 0 {
        Some("At least one To address is required"@)
    } else if m.subject@.len() == 0 {
        Some("Subject is required"@)
    } else if m.html is None && m.text is None {
        Some("Either HTML or text body is required"@)
    } else {
        None
    }
}

impl Message {
    /// Create new message with defaults: a fresh random id, an empty sender,
    /// no recipients, empty subject, no body, no attachments or headers.
    pub fn new() -> (m: Self)
        ensures
            m.id@.len() == 36,
            blank_message(m),
    {
        Message {
            id: new_uuid_string(),
            from: Address { email: String::new(), name: None },
            to: Vec::new(),
            cc: Vec::new(),
            bcc: Vec::new(),
            reply_to: None,
            subject: String::new(),
            html: None,
            text: None,
            attachments: Vec::new(),
            headers: Headers::new(),
        }
    }

    /// Validate message: sender, a recipient, a subject and some body.
    pub fn validate(&self) -> (r: Result<(), String>)
        ensures
            match r {
                Ok(()) => message_problem(*self) is None,
                Err(e) => message_problem(*self) == Some(e@),
            },
    {
        if self.from.email.as_str().is_empty() {
            return Err(copy_str("From address is required"));
        }
        if self.to.len() == 0 {
            return Err(copy_str("At least one To address is required"));
        }
        if self.subject.as_str().is_empty() {
            return Err(copy_str("Subject is required"));
        }
        if self.html.is_none() && self.text.is_none() {
            return Err(copy_str("Either HTML or text body is required"));
        }
        Ok(())
    }

    /// Get total number of recipients.
    pub fn recipient_count(&self) -> (n: usize)
        requires
            self.to@.len() + self.cc@.len() + self.bcc@.len() <= usize::MAX,
        ensures
            n == self.to@.len() + self.cc@.len() + self.bcc@.len(),
    {
        self.to.len() + self.cc.len() + self.bcc.len()
    }

    /// Get total attachment size in bytes.
    pub fn attachment_size(&self) -> (n: usize)
        requires
            total_size(self.attachments@) <= usize::MAX,
        ensures
            n == total_size(self.attachments@),
    {
        sum_sizes(&self.attachments)
    }

    /// A copy of this message.
    pub fn duplicate(&self) -> (m: Self)
        ensures
            same_message(m, *self),
    {
        Message {
            id: copy_str(self.id.as_str()),
            from: self.from.duplicate(),
            to: copy_addresses(&self.to),
            cc: copy_addresses(&self.cc),
            bcc: copy_addresses(&self.bcc),
            reply_to: copy_opt_address(&self.reply_to),
            subject: copy_str(self.subject.as_str()),
            html: copy_opt(&self.html),
            text: copy_opt(&self.text),
            attachments: copy_attachments(&self.attachments),
            headers: self.headers.duplicate(),
        }
    }
}

proof fn lemma_total_size_prefix(atts: Seq<Attachment>, i: int)
    requires
        0 <= i <= atts.len(),
    ensures
        total_size(atts.take(i)) <= total_size(atts),
    decreases atts.len() - i,
{
    if i < atts.len() {
        lemma_total_size_prefix(atts, i + 1);
        assert(atts.take(i + 1).drop_last() =~= atts.take(i));
    } else {
        assert(atts.take(i) =~= atts);
    }
}

/// Total byte size of a list of attachments.
pub fn sum_sizes(atts: &Vec<Attachment>) -> (n: usize)
    requires
        total_size(atts@) <= usize::MAX,
    ensures
        n == total_size(atts@),
{
    let mut n: usize = 0;
    let mut i: usize = 0;
    while i < atts.len()
        invariant
            i <= atts.len(),
            total_size(atts@) <= usize::MAX,
            n == total_size(atts@.take(i as int)),
        decreases atts.len() - i,
    {
        proof {
            assert(atts@.take(i + 1).drop_last() =~= atts@.take(i as int));
            lemma_total_size_prefix(atts@, i + 1);
        }
        n = n + atts[i].size();
        i = i + 1;
    }
    proof {
        assert(atts@.take(i as int) =~= atts@);
    }
    n
}

impl Default for Message {
    fn default() -> (m: Self)
        ensures
            m.id@.len() == 36,
            blank_message(m),
    {
        Self::new()
    }
}

} // verus!
