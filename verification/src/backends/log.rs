//! Log transport: renders each message as a plain-text record that the
//! application appends to a log file instead of sending it.
use vstd::prelude::*;
use crate::address::{Address, display_texts, emails, emails_of, texts_of};
use crate::attachment::Attachment;
use crate::message::Message;
use crate::outside::utc_now_rfc3339;
use crate::text::{has_piece, lemma_piece, lemma_piece_extend, copy_str, decimal, join, join_strings, push_char, push_decimal, push_str};

verus! {

/// Log mailer that writes emails to a file.
///
/// Useful for development and testing.
#[derive(Debug)]
pub struct LogMailer {
    log_path: String,
}

/// A line of eighty `=` characters.
pub open spec fn rule_line() -> Seq<char> {
    Seq::new(80, |_i: int| '=')
}

/// `label` and the emails of `addrs`, comma separated, on one line; nothing
/// when the list is empty.
pub open spec fn email_list_line(label: Seq<char>, addrs: Seq<Address>) -> Seq<char> {
    if addrs.len() == 0 {
        Seq::empty()
    } else {
        label + join(emails_of(addrs), ", "@) + "\n"@
    }
}

/// One `  - name (N bytes)` line per attachment.
pub open spec fn attachment_lines(atts: Seq<Attachment>) -> Seq<char>
    decreases atts.len(),
{
    if atts.len() == 0 {
        Seq::empty()
    } else {
        attachment_lines(atts.drop_last()) + "  - "@ + atts.last().filename@ + " ("@ + decimal(
            atts.last().data@.len(),
        ) + " bytes)\n"@
    }
}

/// The attachment section: a count line and one line per attachment, or
/// nothing when there are none.
pub open spec fn attachment_section(atts: Seq<Attachment>) -> Seq<char> {
    if atts.len() == 0 {
        Seq::empty()
    } else {
        "Attachments: "@ + decimal(atts.len()) + "\n"@ + attachment_lines(atts)
    }
}

/// The header block of a log record, up to and including the subject line.
pub open spec fn log_head(m: Message) -> Seq<char> {
    rule_line() + "\n"@ + "Message ID: "@ + m.id@ + "\n"@ + "From: "@ + (match m.from.name {
        Some(n) => n@,
        None => Seq::empty(),
    }) + " <"@ + m.from.email@ + ">\n"@ + "To: "@ + join(texts_of(m.to@), ", "@) + "\n"@
        + email_list_line("CC: "@, m.cc@) + email_list_line("BCC: "@, m.bcc@) + (match m.reply_to {
        Some(r) => "Reply-To: "@ + r.email@ + "\n"@,
        None => Seq::empty(),
    }) + "Subject: "@ + m.subject@ + "\n"@
}

/// The body block of a log record: both bodies, or a placeholder for each
/// missing one, and the closing rule.
pub open spec fn log_tail(m: Message) -> Seq<char> {
    "\n--- TEXT BODY ---\n"@ + (match m.text {
        Some(t) => t@,
        None => "(no text body)"@,
    }) + "\n\n--- HTML BODY ---\n"@ + (match m.html {
        Some(h) => h@,
        None => "(no html body)"@,
    }) + "\n"@ + rule_line() + "\n\n"@
}

/// The whole log record of `m` stamped with `timestamp`.
pub open spec fn log_record(m: Message, timestamp: Seq<char>) -> Seq<char> {
    log_head(m) + "Timestamp: "@ + timestamp + "\n"@ + attachment_section(m.attachments@)
        + log_tail(m)
}

fn rule() -> (s: String)
    ensures
        s@ == rule_line(),
{
    let mut s = String::new();
    let mut i: usize = 0;
    while i < 80
        invariant
            i <= 80,
            s@ == Seq::new(i as nat, |_j: int| '='),
        decreases 80 - i,
    {
        push_char(&mut s, '=');
        i = i + 1;
        proof {
            assert(s@ =~= Seq::new(i as nat, |_j: int| '='));
        }
    }
    s
}

fn email_list(label: &str, addrs: &Vec<Address>) -> (s: String)
    ensures
        s@ == email_list_line(label@, addrs@),
{
    if addrs.len() == 0 {
        return String::new();
    }
    let mut s = copy_str(label);
    let list = emails(addrs);
    let joined = join_strings(&list, ", ");
    push_str(&mut s, joined.as_str());
    push_str(&mut s, "\n");
    s
}

fn attachments_text(atts: &Vec<Attachment>) -> (s: String)
    ensures
        s@ == attachment_section(atts@),
{
    if atts.len() == 0 {
        return String::new();
    }
    let mut lines = String::new();
    let mut i: usize = 0;
    while i < atts.len()
        invariant
            i <= atts.len(),
            lines@ == attachment_lines(atts@.take(i as int)),
        decreases atts.len() - i,
    {
        proof {
            assert(atts@.take(i + 1).drop_last() =~= atts@.take(i as int));
        }
        push_str(&mut lines, "  - ");
        push_str(&mut lines, atts[i].filename.as_str());
        push_str(&mut lines, " (");
        let n = atts[i].size();
        push_decimal(&mut lines, n as u64);
        push_str(&mut lines, " bytes)\n");
        i = i + 1;
    }
    proof {
        assert(atts@.take(i as int) =~= atts@);
    }
    let mut s = copy_str("Attachments: ");
    push_decimal(&mut s, atts.len() as u64);
    push_str(&mut s, "\n");
    push_str(&mut s, lines.as_str());
    s
}

fn head_text(m: &Message) -> (s: String)
    ensures
        s@ == log_head(*m),
{
    let mut s = rule();
    push_str(&mut s, "\n");
    push_str(&mut s, "Message ID: ");
    push_str(&mut s, m.id.as_str());
    push_str(&mut s, "\n");
    push_str(&mut s, "From: ");
    let name = match &m.from.name {
        Some(n) => copy_str(n.as_str()),
        None => String::new(),
    };
    push_str(&mut s, name.as_str());
    push_str(&mut s, " <");
    push_str(&mut s, m.from.email.as_str());
    push_str(&mut s, ">\n");
    push_str(&mut s, "To: ");
    let to = display_texts(&m.to);
    let to_joined = join_strings(&to, ", ");
    push_str(&mut s, to_joined.as_str());
    push_str(&mut s, "\n");
    let cc = email_list("CC: ", &m.cc);
    push_str(&mut s, cc.as_str());
    let bcc = email_list("BCC: ", &m.bcc);
    push_str(&mut s, bcc.as_str());
    let reply = match &m.reply_to {
        Some(r) => {
            let mut t = copy_str("Reply-To: ");
            push_str(&mut t, r.email.as_str());
            push_str(&mut t, "\n");
            t
        },
        None => String::new(),
    };
    push_str(&mut s, reply.as_str());
    push_str(&mut s, "Subject: ");
    push_str(&mut s, m.subject.as_str());
    push_str(&mut s, "\n");
    s
}

fn tail_text(m: &Message) -> (s: String)
    ensures
        s@ == log_tail(*m),
{
    let mut s = copy_str("\n--- TEXT BODY ---\n");
    match &m.text {
        Some(t) => push_str(&mut s, t.as_str()),
        None => push_str(&mut s, "(no text body)"),
    }
    push_str(&mut s, "\n\n--- HTML BODY ---\n");
    match &m.html {
        Some(h) => push_str(&mut s, h.as_str()),
        None => push_str(&mut s, "(no html body)"),
    }
    push_str(&mut s, "\n");
    let r = rule();
    push_str(&mut s, r.as_str());
    push_str(&mut s, "\n\n");
    s
}

impl LogMailer {
    /// Create a new log mailer appending to the file at `log_path`.
    pub fn new(log_path: &str) -> (m: Self)
        ensures
            m.log_path_view() == log_path@,
    {
        LogMailer { log_path: copy_str(log_path) }
    }

    /// The file the records are appended to.
    pub closed spec fn log_path_view(&self) -> Seq<char> {
        self.log_path@
    }

    /// The file the records are appended to.
    pub fn log_path(&self) -> (p: &str)
        ensures
            p@ == self.log_path_view(),
    {
        self.log_path.as_str()
    }

    /// The log record of `message`, stamped with the given timestamp.
    pub fn format_message_at(message: &Message, timestamp: &str) -> (s: String)
        ensures
            s@ == log_record(*message, timestamp@),
            log_record_shape(*message, s@),
    {
        proof {
            lemma_log_record_shape(*message, timestamp@);
        }
        let mut s = head_text(message);
        push_str(&mut s, "Timestamp: ");
        push_str(&mut s, timestamp);
        push_str(&mut s, "\n");
        let atts = attachments_text(&message.attachments);
        push_str(&mut s, atts.as_str());
        let tail = tail_text(message);
        push_str(&mut s, tail.as_str());
        s
    }

    /// The log record of `message`, stamped with the current UTC time in
    /// RFC 3339 form.
    pub fn format_message(message: &Message) -> (s: String)
        ensures
            exists|ts: Seq<char>| s@ == log_record(*message, ts),
            log_record_shape(*message, s@),
    {
        let now = utc_now_rfc3339();
        Self::format_message_at(message, now.as_str())
    }
}

/// The parts of the header block before the subject line.
pub open spec fn log_lead(m: Message) -> Seq<char> {
    rule_line() + "\n"@ + "Message ID: "@ + m.id@ + "\n"@ + "From: "@ + (match m.from.name {
        Some(n) => n@,
        None => Seq::empty(),
    }) + " <"@ + m.from.email@ + ">\n"@ + "To: "@ + join(texts_of(m.to@), ", "@) + "\n"@
        + email_list_line("CC: "@, m.cc@) + email_list_line("BCC: "@, m.bcc@) + (match m.reply_to {
        Some(r) => "Reply-To: "@ + r.email@ + "\n"@,
        None => Seq::empty(),
    })
}

/// The text and HTML sections of a log record, each body replaced by its
/// placeholder when missing.
pub open spec fn log_bodies(m: Message) -> Seq<char> {
    "\n--- TEXT BODY ---\n"@ + (match m.text {
        Some(t) => t@,
        None => "(no text body)"@,
    }) + "\n\n--- HTML BODY ---\n"@ + (match m.html {
        Some(h) => h@,
        None => "(no html body)"@,
    }) + "\n"@
}

/// A log record is its header block (ending with the `Subject` line), the
/// timestamp and attachments, the body sections and the closing rule.
pub proof fn lemma_log_sections(m: Message, timestamp: Seq<char>)
    ensures
        log_record(m, timestamp) == log_lead(m) + ("Subject: "@ + m.subject@ + "\n"@) + (("Timestamp: "@
            + timestamp + "\n"@ + attachment_section(m.attachments@)) + log_bodies(m) + (rule_line()
            + "\n\n"@)),
{
    assert(log_head(m) =~= log_lead(m) + ("Subject: "@ + m.subject@ + "\n"@));
    assert(log_tail(m) =~= log_bodies(m) + (rule_line() + "\n\n"@));
    assert(log_record(m, timestamp) =~= log_lead(m) + ("Subject: "@ + m.subject@ + "\n"@) + (("Timestamp: "@
        + timestamp + "\n"@ + attachment_section(m.attachments@)) + log_bodies(m) + (rule_line() + "\n\n"@)));
}

/// A log record holds its `Subject` line and, further on, the text and
/// HTML body sections (placeholders for missing bodies).
pub proof fn lemma_log_subject_and_bodies(m: Message, timestamp: Seq<char>)
    ensures
        has_piece(log_record(m, timestamp), "Subject: "@ + m.subject@ + "\n"@),
        has_piece(log_record(m, timestamp), log_bodies(m)),
{
    lemma_log_sections(m, timestamp);
    let subj = "Subject: "@ + m.subject@ + "\n"@;
    let stamp = "Timestamp: "@ + timestamp + "\n"@ + attachment_section(m.attachments@);
    let close = rule_line() + "\n\n"@;
    lemma_piece(log_lead(m), subj, stamp + log_bodies(m) + close);
    assert(log_record(m, timestamp) =~= (log_lead(m) + subj + stamp) + log_bodies(m) + close);
    lemma_piece(log_lead(m) + subj + stamp, log_bodies(m), close);
}

proof fn lemma_lead_piece(m: Message, timestamp: Seq<char>, p: Seq<char>)
    requires
        has_piece(log_lead(m), p),
    ensures
        has_piece(log_record(m, timestamp), p),
{
    lemma_log_sections(m, timestamp);
    let rest = ("Subject: "@ + m.subject@ + "\n"@) + (("Timestamp: "@ + timestamp + "\n"@ + attachment_section(
        m.attachments@,
    )) + log_bodies(m) + (rule_line() + "\n\n"@));
    assert(log_record(m, timestamp) =~= log_lead(m) + rest);
    lemma_piece_extend(log_lead(m), rest, p);
}

/// The `From` and `To` lines of a log record.
pub open spec fn from_to_lines(m: Message) -> Seq<char> {
    "From: "@ + (match m.from.name {
        Some(n) => n@,
        None => Seq::empty(),
    }) + " <"@ + m.from.email@ + ">\n"@ + "To: "@ + join(texts_of(m.to@), ", "@) + "\n"@
}

/// The `Reply-To` line of a log record, if any.
pub open spec fn reply_line(m: Message) -> Seq<char> {
    match m.reply_to {
        Some(r) => "Reply-To: "@ + r.email@ + "\n"@,
        None => Seq::empty(),
    }
}

#[verifier::spinoff_prover]
#[verifier::rlimit(30)]
proof fn lemma_lead_parts(m: Message)
    ensures
        log_lead(m) == (rule_line() + "\n"@) + ("Message ID: "@ + m.id@ + "\n"@) + from_to_lines(m)
            + email_list_line("CC: "@, m.cc@) + email_list_line("BCC: "@, m.bcc@) + reply_line(m),
{
    assert(log_lead(m) =~= (rule_line() + "\n"@) + ("Message ID: "@ + m.id@ + "\n"@) + from_to_lines(m)
        + email_list_line("CC: "@, m.cc@) + email_list_line("BCC: "@, m.bcc@) + reply_line(m));
}

/// A log record holds its `Message ID` line and, when the message has a
/// reply-to address, its `Reply-To` line.
pub proof fn lemma_log_id_and_reply(m: Message, timestamp: Seq<char>)
    ensures
        has_piece(log_record(m, timestamp), "Message ID: "@ + m.id@ + "\n"@),
        m.reply_to matches Some(r) ==> has_piece(log_record(m, timestamp), "Reply-To: "@ + r.email@ + "\n"@),
{
    lemma_lead_parts(m);
    let a = rule_line() + "\n"@;
    let i = "Message ID: "@ + m.id@ + "\n"@;
    let f = from_to_lines(m);
    let c = email_list_line("CC: "@, m.cc@);
    let b = email_list_line("BCC: "@, m.bcc@);
    let r = reply_line(m);
    assert(log_lead(m) =~= a + i + (f + c + b + r));
    lemma_piece(a, i, f + c + b + r);
    lemma_lead_piece(m, timestamp, i);
    assert(log_lead(m) =~= (a + i + f + c + b) + r + Seq::<char>::empty());
    lemma_piece(a + i + f + c + b, r, Seq::<char>::empty());
    lemma_lead_piece(m, timestamp, r);
}

/// A log record has a `CC` line exactly when the message has copy
/// recipients, and a `BCC` line exactly when it has blind-copy recipients:
/// each section is empty otherwise.
pub proof fn lemma_log_copy_lines(m: Message, timestamp: Seq<char>)
    ensures
        (email_list_line("CC: "@, m.cc@).len() > 0) == (m.cc@.len() > 0),
        m.cc@.len() > 0 ==> has_piece(log_record(m, timestamp), "CC: "@ + join(emails_of(m.cc@), ", "@) + "\n"@),
        (email_list_line("BCC: "@, m.bcc@).len() > 0) == (m.bcc@.len() > 0),
        m.bcc@.len() > 0 ==> has_piece(log_record(m, timestamp), "BCC: "@ + join(emails_of(m.bcc@), ", "@) + "\n"@),
{
    reveal_strlit("CC: ");
    reveal_strlit("BCC: ");
    lemma_lead_parts(m);
    let a = rule_line() + "\n"@;
    let i = "Message ID: "@ + m.id@ + "\n"@;
    let f = from_to_lines(m);
    let c = email_list_line("CC: "@, m.cc@);
    let b = email_list_line("BCC: "@, m.bcc@);
    let r = reply_line(m);
    assert(log_lead(m) =~= (a + i + f) + c + (b + r));
    lemma_piece(a + i + f, c, b + r);
    lemma_lead_piece(m, timestamp, c);
    assert(log_lead(m) =~= (a + i + f + c) + b + r);
    lemma_piece(a + i + f + c, b, r);
    lemma_lead_piece(m, timestamp, b);
}


/// The `From` line of a log record.
pub open spec fn from_line(m: Message) -> Seq<char> {
    "From: "@ + (match m.from.name {
        Some(n) => n@,
        None => Seq::empty(),
    }) + " <"@ + m.from.email@ + ">\n"@
}

/// The `To` line of a log record.
pub open spec fn to_line(m: Message) -> Seq<char> {
    "To: "@ + join(texts_of(m.to@), ", "@) + "\n"@
}

/// `line` as a one-entry list when `present`, else no entry.
pub open spec fn optional_line(present: bool, line: Seq<char>) -> Seq<Seq<char>> {
    if present {
        seq![line]
    } else {
        Seq::empty()
    }
}

/// The entries of a log record's header block, in order, each with its
/// newline: the rule, `Message ID`, `From`, `To`, a `CC` entry only with copy
/// recipients, a `BCC` entry only with blind-copy recipients, a `Reply-To`
/// entry only with a reply-to address, and `Subject`.
pub open spec fn log_header_entries(m: Message) -> Seq<Seq<char>> {
    seq![rule_line() + "\n"@, "Message ID: "@ + m.id@ + "\n"@, from_line(m), to_line(m)]
        + optional_line(m.cc@.len() > 0, "CC: "@ + join(emails_of(m.cc@), ", "@) + "\n"@)
        + optional_line(m.bcc@.len() > 0, "BCC: "@ + join(emails_of(m.bcc@), ", "@) + "\n"@)
        + optional_line(m.reply_to is Some, reply_line(m))
        + seq!["Subject: "@ + m.subject@ + "\n"@]
}

/// The entries of `s`, written one after the other.
pub open spec fn concat_lines(s: Seq<Seq<char>>) -> Seq<char>
    decreases s.len(),
{
    if s.len() == 0 {
        Seq::empty()
    } else {
        concat_lines(s.drop_last()) + s.last()
    }
}

proof fn lemma_concat_lines_append(a: Seq<Seq<char>>, b: Seq<Seq<char>>)
    ensures
        concat_lines(a + b) == concat_lines(a) + concat_lines(b),
    decreases b.len(),
{
    if b.len() == 0 {
        assert(a + b =~= a);
        assert(concat_lines(a) + concat_lines(b) =~= concat_lines(a));
    } else {
        lemma_concat_lines_append(a, b.drop_last());
        assert((a + b).drop_last() =~= a + b.drop_last());
        assert((a + b).last() == b.last());
        assert(concat_lines(a) + concat_lines(b.drop_last()) + b.last() =~= concat_lines(a) + (
        concat_lines(b.drop_last()) + b.last()));
    }
}

proof fn lemma_concat_one(x: Seq<char>)
    ensures
        concat_lines(seq![x]) == x,
{
    assert(seq![x].drop_last() =~= Seq::<Seq<char>>::empty());
    assert(concat_lines(Seq::<Seq<char>>::empty()) =~= Seq::<char>::empty());
    assert(Seq::<char>::empty() + x =~= x);
}

/// Whether some entry of `entries` begins with `label`.
pub open spec fn has_entry(entries: Seq<Seq<char>>, label: Seq<char>) -> bool {
    exists|k: int| 0 <= k < entries.len() && label.is_prefix_of(#[trigger] entries[k])
}

proof fn lemma_concat_four(a: Seq<char>, b: Seq<char>, c: Seq<char>, d: Seq<char>)
    ensures
        concat_lines(seq![a, b, c, d]) == a + b + c + d,
{
    lemma_concat_lines_append(seq![a, b, c], seq![d]);
    lemma_concat_lines_append(seq![a, b], seq![c]);
    lemma_concat_lines_append(seq![a], seq![b]);
    assert(seq![a, b, c] + seq![d] =~= seq![a, b, c, d]);
    assert(seq![a, b] + seq![c] =~= seq![a, b, c]);
    assert(seq![a] + seq![b] =~= seq![a, b]);
    lemma_concat_one(a);
    lemma_concat_one(b);
    lemma_concat_one(c);
    lemma_concat_one(d);
}

proof fn lemma_concat_optional(present: bool, line: Seq<char>)
    ensures
        concat_lines(optional_line(present, line)) == if present {
            line
        } else {
            Seq::<char>::empty()
        },
{
    if present {
        lemma_concat_one(line);
    } else {
        assert(concat_lines(optional_line(present, line)) =~= Seq::<char>::empty());
    }
}

proof fn lemma_head_is_lead(m: Message)
    ensures
        log_head(m) == log_lead(m) + ("Subject: "@ + m.subject@ + "\n"@),
{
    assert(log_head(m) =~= log_lead(m) + ("Subject: "@ + m.subject@ + "\n"@));
}

proof fn lemma_log_header_text(m: Message)
    ensures
        concat_lines(log_header_entries(m)) == log_head(m),
{
    let r = rule_line() + "\n"@;
    let i = "Message ID: "@ + m.id@ + "\n"@;
    let f = from_line(m);
    let t = to_line(m);
    let fixed = seq![r, i, f, t];
    let ccl = "CC: "@ + join(emails_of(m.cc@), ", "@) + "\n"@;
    let bccl = "BCC: "@ + join(emails_of(m.bcc@), ", "@) + "\n"@;
    let cc = optional_line(m.cc@.len() > 0, ccl);
    let bcc = optional_line(m.bcc@.len() > 0, bccl);
    let rep = optional_line(m.reply_to is Some, reply_line(m));
    let sl = "Subject: "@ + m.subject@ + "\n"@;
    let subj = seq![sl];
    let c = email_list_line("CC: "@, m.cc@);
    let b = email_list_line("BCC: "@, m.bcc@);
    let rl = reply_line(m);
    assert(log_header_entries(m) == fixed + cc + bcc + rep + subj);
    lemma_concat_lines_append(fixed + cc + bcc + rep, subj);
    lemma_concat_lines_append(fixed + cc + bcc, rep);
    lemma_concat_lines_append(fixed + cc, bcc);
    lemma_concat_lines_append(fixed, cc);
    lemma_concat_one(sl);
    lemma_concat_four(r, i, f, t);
    lemma_concat_optional(m.cc@.len() > 0, ccl);
    lemma_concat_optional(m.bcc@.len() > 0, bccl);
    lemma_concat_optional(m.reply_to is Some, rl);
    assert(concat_lines(cc) == c);
    assert(concat_lines(bcc) == b);
    assert(concat_lines(rep) == rl) by {
        if m.reply_to is None {
            assert(rl =~= Seq::<char>::empty());
        }
    }
    assert(concat_lines(log_header_entries(m)) == r + i + f + t + c + b + rl + sl);
    lemma_lead_parts(m);
    assert(from_to_lines(m) =~= f + t);
    assert(r + i + from_to_lines(m) =~= r + i + f + t);
    lemma_head_is_lead(m);
}

#[verifier::rlimit(40)]
proof fn lemma_log_header_labels(m: Message)
    ensures
        has_entry(log_header_entries(m), "CC: "@) <==> m.cc@.len() > 0,
        has_entry(log_header_entries(m), "BCC: "@) <==> m.bcc@.len() > 0,
        has_entry(log_header_entries(m), "Reply-To: "@) <==> m.reply_to is Some,
        log_header_entries(m).contains("Message ID: "@ + m.id@ + "\n"@),
        log_header_entries(m).contains("Subject: "@ + m.subject@ + "\n"@),
{
    reveal_strlit("CC: ");
    reveal_strlit("BCC: ");
    reveal_strlit("Reply-To: ");
    reveal_strlit("Message ID: ");
    reveal_strlit("From: ");
    reveal_strlit("To: ");
    reveal_strlit("Subject: ");
    let fixed = seq![rule_line() + "\n"@, "Message ID: "@ + m.id@ + "\n"@, from_line(m), to_line(m)];
    let cc = optional_line(m.cc@.len() > 0, "CC: "@ + join(emails_of(m.cc@), ", "@) + "\n"@);
    let bcc = optional_line(m.bcc@.len() > 0, "BCC: "@ + join(emails_of(m.bcc@), ", "@) + "\n"@);
    let rep = optional_line(m.reply_to is Some, reply_line(m));
    let subj = seq!["Subject: "@ + m.subject@ + "\n"@];
    let e = log_header_entries(m);
    assert(e == fixed + cc + bcc + rep + subj);
    let nc = cc.len() as int;
    let nb = bcc.len() as int;
    let nr = rep.len() as int;
    assert(e.len() == 5 + nc + nb + nr);
    assert(e[1] == "Message ID: "@ + m.id@ + "\n"@);
    assert(e[4 + nc + nb + nr] == "Subject: "@ + m.subject@ + "\n"@);
    assert forall|k: int| 0 <= k < e.len() implies {
        &&& (k == 4 && nc == 1) <==> "CC: "@.is_prefix_of(#[trigger] e[k])
        &&& (k == 4 + nc && nb == 1) <==> "BCC: "@.is_prefix_of(e[k])
        &&& (k == 4 + nc + nb && nr == 1) <==> "Reply-To: "@.is_prefix_of(e[k])
    } by {
        if k < 4 {
            assert(e[k] == fixed[k]);
            assert(rule_line()[0] == '=');
            assert(e[k][0] != 'C' && e[k][0] != 'B' && e[k][0] != 'R');
        } else if k < 4 + nc {
            assert(e[k] == cc[0]);
            assert(e[k].subrange(0, 4) =~= "CC: "@);
        } else if k < 4 + nc + nb {
            assert(e[k] == bcc[0]);
            assert(e[k].subrange(0, 5) =~= "BCC: "@);
        } else if k < 4 + nc + nb + nr {
            assert(e[k] == rep[0]);
            assert(e[k].subrange(0, 10) =~= "Reply-To: "@);
        } else {
            assert(e[k] == subj[0]);
            assert(e[k][0] == 'S');
        }
        if "CC: "@.is_prefix_of(e[k]) {
            assert(e[k][0] == "CC: "@[0]);
        }
        if "BCC: "@.is_prefix_of(e[k]) {
            assert(e[k][0] == "BCC: "@[0]);
        }
        if "Reply-To: "@.is_prefix_of(e[k]) {
            assert(e[k][0] == "Reply-To: "@[0]);
        }
    }
    if nc == 1 {
        assert("CC: "@.is_prefix_of(e[4]));
    }
    if nb == 1 {
        assert("BCC: "@.is_prefix_of(e[4 + nc]));
    }
    if nr == 1 {
        assert("Reply-To: "@.is_prefix_of(e[4 + nc + nb]));
    }
}

/// The header block of a log record is its header entries written in
/// order. It holds a `CC` entry exactly when the message has copy
/// recipients, a `BCC` entry exactly when it has blind-copy recipients, and
/// a `Reply-To` entry exactly when it has a reply-to address; its `Message
/// ID` and `Subject` entries are always there.
pub proof fn lemma_log_header_shape(m: Message)
    ensures
        concat_lines(log_header_entries(m)) == log_head(m),
        has_entry(log_header_entries(m), "CC: "@) <==> m.cc@.len() > 0,
        has_entry(log_header_entries(m), "BCC: "@) <==> m.bcc@.len() > 0,
        has_entry(log_header_entries(m), "Reply-To: "@) <==> m.reply_to is Some,
        log_header_entries(m).contains("Message ID: "@ + m.id@ + "\n"@),
        log_header_entries(m).contains("Subject: "@ + m.subject@ + "\n"@),
{
    lemma_log_header_text(m);
    lemma_log_header_labels(m);
}

/// What a log record `s` of message `m` shows: it begins with the header
/// entries of `m` (see [`lemma_log_header_shape`]: `CC`, `BCC` and
/// `Reply-To` entries exactly when `m` has such recipients); it holds the
/// `Message ID` and `Subject` lines, each present copy, blind-copy and
/// reply-to line, and the text and HTML sections with a placeholder for each
/// missing body.
pub open spec fn log_record_shape(m: Message, s: Seq<char>) -> bool {
    &&& concat_lines(log_header_entries(m)).is_prefix_of(s)
    &&& has_piece(s, "Message ID: "@ + m.id@ + "\n"@)
    &&& has_piece(s, "Subject: "@ + m.subject@ + "\n"@)
    &&& m.cc@.len() > 0 ==> has_piece(s, "CC: "@ + join(emails_of(m.cc@), ", "@) + "\n"@)
    &&& m.bcc@.len() > 0 ==> has_piece(s, "BCC: "@ + join(emails_of(m.bcc@), ", "@) + "\n"@)
    &&& m.reply_to matches Some(r) ==> has_piece(s, "Reply-To: "@ + r.email@ + "\n"@)
    &&& has_piece(s, log_bodies(m))
}

/// Every log record has the shape of [`log_record_shape`], whatever its
/// timestamp.
pub proof fn lemma_log_record_shape(m: Message, timestamp: Seq<char>)
    ensures
        log_record_shape(m, log_record(m, timestamp)),
{
    lemma_log_header_shape(m);
    lemma_log_subject_and_bodies(m, timestamp);
    lemma_log_id_and_reply(m, timestamp);
    lemma_log_copy_lines(m, timestamp);
    let rest = "Timestamp: "@ + timestamp + "\n"@ + attachment_section(m.attachments@) + log_tail(m);
    assert(log_record(m, timestamp) =~= log_head(m) + rest);
    assert((log_head(m) + rest).take(log_head(m).len() as int) =~= log_head(m));
}

} // verus!
