//! Filesystem transport: each email becomes an RFC 5322 `.eml` file in a
//! mailbox directory. This module renders the file name and the file's text;
//! the application writes them to disk.
use vstd::prelude::*;
use crate::address::Address;
use crate::mail::{BodyView, Mail, MailBody};
use crate::outside::{utc_now_format, utc_now_rfc2822};
use crate::text::{has_piece, lemma_piece, 
    chars_of, copy_str, join, join_strings, push_char, push_str, split_char, split_on_char, views,
};

verus! {

/// Mailer that writes each message to disk as an `.eml` file.
#[derive(Debug)]
pub struct FileMailer {
    mailbox: String,
}

/// A header value with every CR and LF turned into a space, so that a value
/// can never start a header of its own.
pub open spec fn header_value(value: Seq<char>) -> Seq<char> {
    value.map_values(|c: char| if c == '\r' || c == '\n' { ' ' } else { c })
}

/// One header line: `Name: value` and CRLF.
pub open spec fn header_line(name: Seq<char>, value: Seq<char>) -> Seq<char> {
    name + ": "@ + header_value(value) + "\r\n"@
}

/// `p` without any trailing carriage returns.
pub open spec fn trim_trailing_cr(p: Seq<char>) -> Seq<char>
    decreases p.len(),
{
    if p.len() > 0 && p.last() == '\r' {
        trim_trailing_cr(p.drop_last())
    } else {
        p
    }
}

/// Each line, without trailing carriage returns, ended by CRLF.
pub open spec fn crlf_lines(parts: Seq<Seq<char>>) -> Seq<char>
    decreases parts.len(),
{
    if parts.len() == 0 {
        Seq::empty()
    } else {
        crlf_lines(parts.drop_last()) + trim_trailing_cr(parts.last()) + "\r\n"@
    }
}

/// A body with its line endings normalised to CRLF.
pub open spec fn crlf_body(body: Seq<char>) -> Seq<char> {
    crlf_lines(split_char(body, '\n'))
}

/// `name <email>` when the address has a non-empty display name, else the
/// bare email.
pub open spec fn mailbox_text(a: Address) -> Seq<char> {
    match a.name {
        Some(n) => if n@.len() > 0 {
            n@ + " <"@ + a.email@ + ">"@
        } else {
            a.email@
        },
        None => a.email@,
    }
}

/// The mailbox texts of `addrs`, comma separated.
pub open spec fn mailbox_list(addrs: Seq<Address>) -> Seq<char> {
    join(addrs.map_values(|a: Address| mailbox_text(a)), ", "@)
}

/// Whether `c` is kept as is in a file name.
pub open spec fn file_safe(c: char) -> bool {
    let u = c as u32;
    ||| (48 <= u <= 57)
    ||| (65 <= u <= 90)
    ||| (97 <= u <= 122)
    ||| c == '-'
    ||| c == '_'
}

/// `input` with every character that is not an ASCII letter, digit, `-` or
/// `_` replaced by `_`.
pub open spec fn sanitized(input: Seq<char>) -> Seq<char> {
    input.map_values(|c: char| if file_safe(c) { c } else { '_' })
}

/// The `.eml` file name for mail `id` written at time `stamp`.
pub open spec fn eml_file_name(id: Seq<char>, stamp: Seq<char>) -> Seq<char> {
    stamp + "-"@ + sanitized(id) + ".eml"@
}

/// The multipart boundary of mail `id`.
pub open spec fn boundary_of(id: Seq<char>) -> Seq<char> {
    "rustforge-"@ + id
}

/// The `Content-Type` header and the body part(s) of a message.
pub open spec fn eml_body(body: BodyView, id: Seq<char>) -> Seq<char> {
    match body {
        BodyView::Text(t) => header_line("Content-Type"@, "text/plain; charset=utf-8"@) + "\r\n"@
            + crlf_body(t),
        BodyView::Html(h) => header_line("Content-Type"@, "text/html; charset=utf-8"@) + "\r\n"@
            + crlf_body(h),
        BodyView::Both { html, text } => header_line(
            "Content-Type"@,
            "multipart/alternative; boundary=\""@ + boundary_of(id) + "\""@,
        ) + "\r\n"@ + "--"@ + boundary_of(id) + "\r\n"@
            + "Content-Type: text/plain; charset=utf-8\r\n\r\n"@ + crlf_body(text) + "\r\n--"@
            + boundary_of(id) + "\r\n"@ + "Content-Type: text/html; charset=utf-8\r\n\r\n"@
            + crlf_body(html) + "\r\n--"@ + boundary_of(id) + "--\r\n"@,
    }
}

/// The address headers of a message: From, To, and Cc, Bcc and Reply-To
/// where present.
pub open spec fn eml_addresses(m: Mail) -> Seq<char> {
    header_line("From"@, mailbox_text(m.from)) + header_line("To"@, mailbox_list(m.to@)) + (if m.cc@.len()
        == 0 {
        Seq::empty()
    } else {
        header_line("Cc"@, mailbox_list(m.cc@))
    }) + (if m.bcc@.len() == 0 {
        Seq::empty()
    } else {
        header_line("Bcc"@, mailbox_list(m.bcc@))
    }) + (match m.reply_to {
        Some(r) => header_line("Reply-To"@, mailbox_text(r)),
        None => Seq::empty(),
    })
}

/// The whole RFC 5322 text of `m` with the given `Date` header value.
pub open spec fn eml_text(m: Mail, date: Seq<char>) -> Seq<char> {
    eml_addresses(m) + header_line("Subject"@, m.subject@) + header_line("Date"@, date)
        + header_line("Message-ID"@, "<"@ + m.id@ + "@rustforge>"@) + header_line(
        "MIME-Version"@,
        "1.0"@,
    ) + eml_body(m.body@, m.id@)
}

/// Appends one header line.
pub fn push_header(out: &mut String, name: &str, value: &str)
    ensures
        final(out)@ == old(out)@ + header_line(name@, value@),
{
    let v = chars_of(value);
    let mut clean = String::new();
    let mut i: usize = 0;
    while i < v.len()
        invariant
            i <= v.len(),
            v@ == value@,
            clean@ == header_value(v@.take(i as int)),
        decreases v.len() - i,
    {
        let c = v[i];
        if c == '\r' || c == '\n' {
            push_char(&mut clean, ' ');
        } else {
            push_char(&mut clean, c);
        }
        proof {
            assert(clean@ =~= header_value(v@.take(i + 1)));
        }
        i = i + 1;
    }
    proof {
        assert(v@.take(i as int) =~= v@);
    }
    push_str(out, name);
    push_str(out, ": ");
    push_str(out, clean.as_str());
    push_str(out, "\r\n");
}

/// `p` without trailing carriage returns.
fn trim_cr(p: &str) -> (r: String)
    ensures
        r@ == trim_trailing_cr(p@),
{
    let v = chars_of(p);
    let mut n = v.len();
    proof {
        assert(v@.subrange(0, n as int) =~= v@);
    }
    while n > 0 && v[n - 1] == '\r'
        invariant
            n <= v.len(),
            v@ == p@,
            trim_trailing_cr(v@.subrange(0, n as int)) == trim_trailing_cr(p@),
        decreases n,
    {
        proof {
            assert(v@.subrange(0, n as int).drop_last() =~= v@.subrange(0, n - 1));
        }
        n = n - 1;
    }
    let mut r = String::new();
    let mut i: usize = 0;
    while i < n
        invariant
            i <= n <= v.len(),
            r@ == v@.subrange(0, i as int),
        decreases n - i,
    {
        push_char(&mut r, v[i]);
        proof {
            assert(r@ =~= v@.subrange(0, i + 1));
        }
        i = i + 1;
    }
    r
}

/// Appends a body with its line endings normalised to CRLF.
fn push_body(out: &mut String, body: &str)
    ensures
        final(out)@ == old(out)@ + crlf_body(body@),
{
    let parts = split_on_char(body, '\n');
    let ghost start = out@;
    let mut i: usize = 0;
    while i < parts.len()
        invariant
            i <= parts.len(),
            views(parts@) == split_char(body@, '\n'),
            out@ == start + crlf_lines(views(parts@).take(i as int)),
        decreases parts.len() - i,
    {
        proof {
            assert(views(parts@).take(i + 1).drop_last() =~= views(parts@).take(i as int));
            assert(views(parts@)[i as int] == parts@[i as int]@);
        }
        let line = trim_cr(parts[i].as_str());
        push_str(out, line.as_str());
        push_str(out, "\r\n");
        proof {
            assert(out@ =~= start + crlf_lines(views(parts@).take(i + 1)));
        }
        i = i + 1;
    }
    proof {
        assert(views(parts@).take(i as int) =~= views(parts@));
    }
}

/// The mailbox text of an address.
pub fn format_address(addr: &Address) -> (s: String)
    ensures
        s@ == mailbox_text(*addr),
{
    match &addr.name {
        Some(name) => {
            if name.as_str().is_empty() {
                copy_str(addr.email.as_str())
            } else {
                let mut s = copy_str(name.as_str());
                push_str(&mut s, " <");
                push_str(&mut s, addr.email.as_str());
                push_str(&mut s, ">");
                s
            }
        },
        None => copy_str(addr.email.as_str()),
    }
}

/// The mailbox texts of `addrs`, comma separated.
pub fn format_address_list(addrs: &Vec<Address>) -> (s: String)
    ensures
        s@ == mailbox_list(addrs@),
{
    let mut parts: Vec<String> = Vec::new();
    let mut i: usize = 0;
    while i < addrs.len()
        invariant
            i <= addrs.len(),
            views(parts@) == addrs@.take(i as int).map_values(|a: Address| mailbox_text(a)),
        decreases addrs.len() - i,
    {
        let t = format_address(&addrs[i]);
        let ghost old_parts = parts@;
        let ghost tv = t@;
        parts.push(t);
        proof {
            assert(views(parts@) =~= views(old_parts).push(tv));
            assert(views(parts@) =~= addrs@.take(i + 1).map_values(|a: Address| mailbox_text(a)));
        }
        i = i + 1;
    }
    proof {
        assert(addrs@.take(i as int) =~= addrs@);
    }
    join_strings(&parts, ", ")
}

fn is_file_safe(c: char) -> (r: bool)
    ensures
        r == file_safe(c),
{
    let u = c as u32;
    (48 <= u && u <= 57) || (65 <= u && u <= 90) || (97 <= u && u <= 122) || c == '-' || c == '_'
}

/// `input` with characters unsafe in file names replaced by `_`.
pub fn sanitize(input: &str) -> (r: String)
    ensures
        r@ == sanitized(input@),
{
    let v = chars_of(input);
    let mut r = String::new();
    let mut i: usize = 0;
    while i < v.len()
        invariant
            i <= v.len(),
            v@ == input@,
            r@ == sanitized(v@.take(i as int)),
        decreases v.len() - i,
    {
        let c = v[i];
        if is_file_safe(c) {
            push_char(&mut r, c);
        } else {
            push_char(&mut r, '_');
        }
        proof {
            assert(r@ =~= sanitized(v@.take(i + 1)));
        }
        i = i + 1;
    }
    proof {
        assert(v@.take(i as int) =~= v@);
    }
    r
}

/// The address headers of `mail`.
fn address_headers(mail: &Mail) -> (out: String)
    ensures
        out@ == eml_addresses(*mail),
{
    let mut out = String::new();
    let from = format_address(&mail.from);
    push_header(&mut out, "From", from.as_str());
    let to = format_address_list(&mail.to);
    push_header(&mut out, "To", to.as_str());
    let mut cc = String::new();
    if mail.cc.len() > 0 {
        let list = format_address_list(&mail.cc);
        push_header(&mut cc, "Cc", list.as_str());
    }
    push_str(&mut out, cc.as_str());
    let mut bcc = String::new();
    if mail.bcc.len() > 0 {
        let list = format_address_list(&mail.bcc);
        push_header(&mut bcc, "Bcc", list.as_str());
    }
    push_str(&mut out, bcc.as_str());
    let mut reply = String::new();
    match &mail.reply_to {
        Some(r) => {
            let rt = format_address(r);
            push_header(&mut reply, "Reply-To", rt.as_str());
        },
        None => {},
    }
    push_str(&mut out, reply.as_str());
    out
}

/// The `Content-Type` header and body part(s) of a message with id `id`.
fn body_part(body: &MailBody, id: &str) -> (out: String)
    ensures
        out@ == eml_body(body@, id@),
{
    let mut out = String::new();
    match body {
        MailBody::Text(text) => {
            push_header(&mut out, "Content-Type", "text/plain; charset=utf-8");
            push_str(&mut out, "\r\n");
            push_body(&mut out, text.as_str());
        },
        MailBody::Html(html) => {
            push_header(&mut out, "Content-Type", "text/html; charset=utf-8");
            push_str(&mut out, "\r\n");
            push_body(&mut out, html.as_str());
        },
        MailBody::Both { html, text } => {
            let mut boundary = copy_str("rustforge-");
            push_str(&mut boundary, id);
            let mut ct = copy_str("multipart/alternative; boundary=\"");
            push_str(&mut ct, boundary.as_str());
            push_str(&mut ct, "\"");
            push_header(&mut out, "Content-Type", ct.as_str());
            push_str(&mut out, "\r\n");
            push_str(&mut out, "--");
            push_str(&mut out, boundary.as_str());
            push_str(&mut out, "\r\n");
            push_str(&mut out, "Content-Type: text/plain; charset=utf-8\r\n\r\n");
            push_body(&mut out, text.as_str());
            push_str(&mut out, "\r\n--");
            push_str(&mut out, boundary.as_str());
            push_str(&mut out, "\r\n");
            push_str(&mut out, "Content-Type: text/html; charset=utf-8\r\n\r\n");
            push_body(&mut out, html.as_str());
            push_str(&mut out, "\r\n--");
            push_str(&mut out, boundary.as_str());
            push_str(&mut out, "--\r\n");
        },
    }
    out
}

impl FileMailer {
    /// Create a new file mailer writing to the directory `mailbox`. The
    /// directory is created on first delivery if it does not exist.
    pub fn new(mailbox: &str) -> (m: Self)
        ensures
            m.mailbox_view() == mailbox@,
    {
        FileMailer { mailbox: copy_str(mailbox) }
    }

    /// The mailbox directory messages are written to.
    pub closed spec fn mailbox_view(&self) -> Seq<char> {
        self.mailbox@
    }

    /// The mailbox directory messages are written to.
    pub fn mailbox(&self) -> (p: &str)
        ensures
            p@ == self.mailbox_view(),
    {
        self.mailbox.as_str()
    }

    /// The file name of `mail` written at time `stamp`: the stamp, a hyphen,
    /// the sanitised id and `.eml`.
    pub fn file_name_at(mail: &Mail, stamp: &str) -> (s: String)
        ensures
            s@ == eml_file_name(mail.id@, stamp@),
    {
        let mut s = copy_str(stamp);
        push_str(&mut s, "-");
        let id = sanitize(mail.id.as_str());
        push_str(&mut s, id.as_str());
        push_str(&mut s, ".eml");
        s
    }

    /// A filesystem-safe, time-ordered file name for `mail`: the current UTC
    /// time to the millisecond, so that files sort chronologically, then the
    /// mail id, so that concurrent sends never collide.
    pub fn file_name(mail: &Mail) -> (s: String)
        ensures
            exists|stamp: Seq<char>| s@ == eml_file_name(mail.id@, stamp),
    {
        proof {
            reveal_strlit("%Y%m%dT%H%M%S%3f");
        }
        let stamp = utc_now_format("%Y%m%dT%H%M%S%3f");
        Self::file_name_at(mail, stamp.as_str())
    }

    /// The RFC 5322 text of `mail` with the given `Date` header value.
    pub fn to_eml_at(mail: &Mail, date: &str) -> (s: String)
        ensures
            s@ == eml_text(*mail, date@),
    {
        let mut out = address_headers(mail);
        push_header(&mut out, "Subject", mail.subject.as_str());
        push_header(&mut out, "Date", date);
        let mut mid = copy_str("<");
        push_str(&mut mid, mail.id.as_str());
        push_str(&mut mid, "@rustforge>");
        push_header(&mut out, "Message-ID", mid.as_str());
        push_header(&mut out, "MIME-Version", "1.0");
        let body = body_part(&mail.body, mail.id.as_str());
        push_str(&mut out, body.as_str());
        out
    }

    /// The RFC 5322 text of `mail`, dated now (RFC 2822 form).
    pub fn to_eml(mail: &Mail) -> (s: String)
        ensures
            exists|date: Seq<char>| s@ == eml_text(*mail, date),
    {
        let date = utc_now_rfc2822();
        Self::to_eml_at(mail, date.as_str())
    }
}

/// A header value never contains a line break, so no value can start a
/// header of its own; it keeps the length of the value it cleans.
pub proof fn lemma_header_value_is_one_line(value: Seq<char>)
    ensures
        header_value(value).len() == value.len(),
        forall|i: int|
            0 <= i < value.len() ==> #[trigger] header_value(value)[i] != '\r' && header_value(value)[i]
                != '\n',
{
}

/// A sanitised name holds only ASCII letters, digits, `-` and `_`, one for
/// each character of the input, and leaves safe names unchanged.
pub proof fn lemma_sanitized_is_file_safe(input: Seq<char>)
    ensures
        sanitized(input).len() == input.len(),
        forall|i: int| 0 <= i < input.len() ==> file_safe(#[trigger] sanitized(input)[i]),
        (forall|i: int| 0 <= i < input.len() ==> file_safe(#[trigger] input[i])) ==> sanitized(input)
            == input,
{
    if forall|i: int| 0 <= i < input.len() ==> file_safe(#[trigger] input[i]) {
        assert(sanitized(input) =~= input);
    }
}

/// Every line feed in `s` ends a CRLF pair.
pub open spec fn crlf_only(s: Seq<char>) -> bool {
    forall|i: int| 0 <= i < s.len() && #[trigger] s[i] == '\n' ==> i > 0 && s[i - 1] == '\r'
}

/// `c` does not occur in `s`.
pub open spec fn lacks(s: Seq<char>, c: char) -> bool {
    forall|j: int| 0 <= j < s.len() ==> #[trigger] s[j] != c
}

proof fn lemma_split_pieces_lack(s: Seq<char>, c: char)
    ensures
        forall|k: int| 0 <= k < split_char(s, c).len() ==> lacks(#[trigger] split_char(s, c)[k], c),
    decreases s.len(),
{
    if s.len() > 0 {
        let prev = split_char(s.drop_last(), c);
        lemma_split_pieces_lack(s.drop_last(), c);
        crate::text::lemma_split_char_nonempty(s.drop_last(), c);
        if s.last() != c {
            let grown = prev.last().push(s.last());
            assert(lacks(grown, c)) by {
                assert(lacks(prev[prev.len() - 1], c));
            }
        }
    }
}

proof fn lemma_trim_trailing_cr_lacks(p: Seq<char>, c: char)
    requires
        lacks(p, c),
    ensures
        lacks(trim_trailing_cr(p), c),
    decreases p.len(),
{
    if p.len() > 0 && p.last() == '\r' {
        assert(lacks(p.drop_last(), c)) by {
            assert forall|j: int| 0 <= j < p.drop_last().len() implies #[trigger] p.drop_last()[j] != c by {
                assert(p.drop_last()[j] == p[j]);
            }
        }
        lemma_trim_trailing_cr_lacks(p.drop_last(), c);
    }
}

proof fn lemma_crlf_lines(parts: Seq<Seq<char>>)
    requires
        forall|k: int| 0 <= k < parts.len() ==> lacks(#[trigger] parts[k], '\n'),
    ensures
        crlf_only(crlf_lines(parts)),
    decreases parts.len(),
{
    reveal_strlit("\r\n");
    if parts.len() > 0 {
        let front = parts.drop_last();
        assert forall|k: int| 0 <= k < front.len() implies lacks(#[trigger] front[k], '\n') by {
            assert(front[k] == parts[k]);
        }
        lemma_crlf_lines(front);
        assert(lacks(parts[parts.len() - 1], '\n'));
        lemma_trim_trailing_cr_lacks(parts.last(), '\n');
        let a = crlf_lines(front);
        let b = trim_trailing_cr(parts.last());
        let out = crlf_lines(parts);
        assert(out == a + b + "\r\n"@);
        assert forall|i: int| 0 <= i < out.len() && #[trigger] out[i] == '\n' implies i > 0 && out[i - 1]
            == '\r' by {
            if i < a.len() {
                assert(out[i] == a[i]);
                assert(out[i - 1] == a[i - 1]);
            } else if i < a.len() + b.len() {
                assert(out[i] == b[i - a.len()]);
            } else if i == a.len() + b.len() {
                assert(out[i] == '\r');
            } else {
                assert(i == a.len() + b.len() + 1);
                assert(out[i - 1] == '\r');
            }
        }
    }
}

/// A normalised body has CRLF line endings only: every line feed follows a
/// carriage return.
pub proof fn lemma_body_lines_end_in_crlf(body: Seq<char>)
    ensures
        crlf_only(crlf_body(body)),
{
    lemma_split_pieces_lack(body, '\n');
    lemma_crlf_lines(split_char(body, '\n'));
}

/// The `Content-Type` value of a body.
pub open spec fn eml_content_type(body: BodyView, id: Seq<char>) -> Seq<char> {
    match body {
        BodyView::Text(_) => "text/plain; charset=utf-8"@,
        BodyView::Html(_) => "text/html; charset=utf-8"@,
        BodyView::Both { .. } => "multipart/alternative; boundary=\""@ + boundary_of(id) + "\""@,
    }
}

/// Appending a header whose name has no line break adds exactly one line:
/// the name, `: `, the value with each CR and LF turned into a space, and
/// CRLF; the only line feed is the last character.
pub proof fn lemma_header_line_is_one_line(name: Seq<char>, value: Seq<char>)
    requires
        forall|i: int| 0 <= i < name.len() ==> #[trigger] name[i] != '\r' && name[i] != '\n',
    ensures
        header_line(name, value).len() == name.len() + value.len() + 4,
        header_line(name, value).subrange(0, name.len() as int) == name,
        forall|i: int|
            0 <= i < header_line(name, value).len() - 1 ==> #[trigger] header_line(name, value)[i] != '\n',
        header_line(name, value).last() == '\n',
        header_line(name, value)[header_line(name, value).len() - 2] == '\r',
{
    reveal_strlit(": ");
    reveal_strlit("\r\n");
    lemma_header_value_is_one_line(value);
    let h = header_line(name, value);
    let v = header_value(value);
    assert(h =~= name + ": "@ + v + "\r\n"@);
    assert forall|i: int| 0 <= i < h.len() - 1 implies #[trigger] h[i] != '\n' by {
        if i < name.len() {
            assert(h[i] == name[i]);
        } else if i < name.len() + 2 {
            assert(h[i] == ": "@[i - name.len()]);
        } else if i < name.len() + 2 + v.len() {
            assert(h[i] == v[i - name.len() - 2]);
        } else {
            assert(h[i] == '\r');
        }
    }
    assert(h.subrange(0, name.len() as int) =~= name);
}

/// A mail file starts with its `From` header; the `Cc`, `Bcc` and
/// `Reply-To` headers follow `To` exactly when the mail has them.
pub proof fn lemma_eml_addresses(m: Mail, date: Seq<char>)
    ensures
        header_line("From"@, mailbox_text(m.from)).is_prefix_of(eml_text(m, date)),
        eml_addresses(m) == header_line("From"@, mailbox_text(m.from)) + header_line("To"@, mailbox_list(m.to@))
            + (if m.cc@.len() == 0 {
            Seq::empty()
        } else {
            header_line("Cc"@, mailbox_list(m.cc@))
        }) + (if m.bcc@.len() == 0 {
            Seq::empty()
        } else {
            header_line("Bcc"@, mailbox_list(m.bcc@))
        }) + (match m.reply_to {
            Some(r) => header_line("Reply-To"@, mailbox_text(r)),
            None => Seq::empty(),
        }),
{
    let e = eml_text(m, date);
    let from = header_line("From"@, mailbox_text(m.from));
    let tail = e.subrange(from.len() as int, e.len() as int);
    assert(e =~= from + tail);
    assert(e.subrange(0, from.len() as int) =~= from);
}

proof fn lemma_eml_body_head(body: BodyView, id: Seq<char>) -> (after: Seq<char>)
    ensures
        eml_body(body, id) == header_line("Content-Type"@, eml_content_type(body, id)) + after,
{
    let b = eml_body(body, id);
    let ct = header_line("Content-Type"@, eml_content_type(body, id));
    let after = b.subrange(ct.len() as int, b.len() as int);
    assert(b =~= ct + after);
    after
}

/// After the address headers a mail file has `Subject`, `Date`,
/// `Message-ID <id@rustforge>`, `MIME-Version: 1.0` and the `Content-Type`
/// of its body, in that order and next to each other.
#[verifier::rlimit(50)]
pub proof fn lemma_eml_header_order(m: Mail, date: Seq<char>)
    ensures
        has_piece(
            eml_text(m, date),
            header_line("Subject"@, m.subject@) + header_line("Date"@, date) + header_line(
                "Message-ID"@,
                "<"@ + m.id@ + "@rustforge>"@,
            ) + header_line("MIME-Version"@, "1.0"@) + header_line(
                "Content-Type"@,
                eml_content_type(m.body@, m.id@),
            ),
        ),
{
    let mid = header_line("Subject"@, m.subject@) + header_line("Date"@, date) + header_line(
        "Message-ID"@,
        "<"@ + m.id@ + "@rustforge>"@,
    ) + header_line("MIME-Version"@, "1.0"@);
    let ct = header_line("Content-Type"@, eml_content_type(m.body@, m.id@));
    let after = lemma_eml_body_head(m.body@, m.id@);
    assert(eml_text(m, date) =~= eml_addresses(m) + (mid + ct) + after);
    lemma_piece(eml_addresses(m), mid + ct, after);
}

/// A two-part body has its text part before its HTML part and ends with the
/// closing boundary.
#[verifier::rlimit(50)]
pub proof fn lemma_eml_two_parts(m: Mail, date: Seq<char>)
    ensures
        m.body@ matches BodyView::Both { html, text } ==> has_piece(
            eml_text(m, date),
            "Content-Type: text/plain; charset=utf-8\r\n\r\n"@ + crlf_body(text) + "\r\n--"@ + boundary_of(m.id@)
                + "\r\n"@ + "Content-Type: text/html; charset=utf-8\r\n\r\n"@ + crlf_body(html) + "\r\n--"@
                + boundary_of(m.id@) + "--\r\n"@,
        ),
{
    match m.body@ {
        BodyView::Both { html, text } => {
            let b = boundary_of(m.id@);
            let parts = "Content-Type: text/plain; charset=utf-8\r\n\r\n"@ + crlf_body(text) + "\r\n--"@ + b
                + "\r\n"@ + "Content-Type: text/html; charset=utf-8\r\n\r\n"@ + crlf_body(html) + "\r\n--"@ + b
                + "--\r\n"@;
            let head = eml_text(m, date).subrange(0, eml_text(m, date).len() - parts.len());
            let ct = header_line("Content-Type"@, eml_content_type(m.body@, m.id@));
            assert(eml_body(m.body@, m.id@) =~= ct + "\r\n"@ + "--"@ + b + "\r\n"@ + parts);
            assert(eml_text(m, date) =~= head + parts + Seq::<char>::empty());
            lemma_piece(head, parts, Seq::<char>::empty());
        },
        _ => {},
    }
}

} // verus!
