//! Laravel-style mail facade: `Mail::to(..)` and the one-off drafts it
//! starts. This module builds the mail a facade call sends; the application
//! holds the global transports and delivers it.
use vstd::prelude::*;
use crate::address::{Address, opt_view};
use crate::error::MailError;
use crate::mail::{BodyView, Mail as MailMessage, parts_problem};
use crate::mail_builder::{MailBuilder, MailBuilderView, build_problem, planned_body};
use crate::mailable::Mailable;
use crate::text::copy_str;

verus! {

/// Entry point of the facade.
pub struct Mail;

impl Mail {
    /// Create a mailer for a specific recipient.
    pub fn to(address: &str) -> (m: Mailer)
        ensures
            m.to@ == address@,
    {
        Mailer::new(copy_str(address))
    }
}

/// A recipient chosen with [`Mail::to`].
pub struct Mailer {
    /// The recipient's email address
    pub to: String,
}

impl Mailer {
    /// A mailer for the recipient `to`.
    pub fn new(to: String) -> (m: Self)
        ensures
            m.to == to,
    {
        Mailer { to }
    }

    /// Begin a one-off message to this recipient by setting its subject.
    pub fn subject(self, subject: &str) -> (d: DraftMail)
        ensures
            d@ == (DraftView { to: self.to@, from: None, subject: subject@, text: None, html: None }),
    {
        DraftMail::new(self.to).subject(subject)
    }

    /// Begin a one-off message to this recipient by setting a plain-text body.
    pub fn text(self, body: &str) -> (d: DraftMail)
        ensures
            d@ == (DraftView {
                to: self.to@,
                from: None,
                subject: Seq::empty(),
                text: Some(body@),
                html: None,
            }),
    {
        DraftMail::new(self.to).text(body)
    }

    /// Begin a one-off message to this recipient by setting an HTML body.
    pub fn html(self, body: &str) -> (d: DraftMail)
        ensures
            d@ == (DraftView {
                to: self.to@,
                from: None,
                subject: Seq::empty(),
                text: None,
                html: Some(body@),
            }),
    {
        DraftMail::new(self.to).html(body)
    }
}

/// A one-off message under construction: recipient, optional sender,
/// subject and bodies.
pub struct DraftMail {
    to: String,
    from: Option<String>,
    subject: String,
    text: Option<String>,
    html: Option<String>,
}

/// The content of a draft.
pub struct DraftView {
    pub to: Seq<char>,
    pub from: Option<Seq<char>>,
    pub subject: Seq<char>,
    pub text: Option<Seq<char>>,
    pub html: Option<Seq<char>>,
}

impl View for DraftMail {
    type V = DraftView;

    closed spec fn view(&self) -> DraftView {
        DraftView {
            to: self.to@,
            from: opt_view(self.from),
            subject: self.subject@,
            text: opt_view(self.text),
            html: opt_view(self.html),
        }
    }
}

/// The body a draft is sent with: both parts when both are set, else the one
/// that is set, and an empty text body when neither is.
pub open spec fn draft_body(d: DraftView) -> BodyView {
    match (d.html, d.text) {
        (Some(h), Some(t)) => BodyView::Both { html: h, text: t },
        (Some(h), None) => BodyView::Html(h),
        (None, Some(t)) => BodyView::Text(t),
        (None, None) => BodyView::Text(Seq::empty()),
    }
}

/// Why a draft cannot be sent, if it cannot: a draft with a body must make
/// a sendable mail; one with neither body needs only a sender and a subject
/// (it always has its one recipient) and is sent with an empty text body.
pub open spec fn draft_problem(d: DraftView, default_from: Seq<char>) -> Option<Seq<char>> {
    if d.html is None && d.text is None {
        if draft_sender(d, default_from).len() == 0 {
            Some("From address is required"@)
        } else if d.subject.len() == 0 {
            Some("Subject is required"@)
        } else {
            None
        }
    } else {
        parts_problem(draft_sender(d, default_from), 1, d.subject, draft_body(d))
    }
}

/// The sender a draft is sent from: its own, else the default.
pub open spec fn draft_sender(d: DraftView, default_from: Seq<char>) -> Seq<char> {
    match d.from {
        Some(f) => f,
        None => default_from,
    }
}

impl DraftMail {
    fn new(to: String) -> (d: Self)
        ensures
            d@ == (DraftView { to: to@, from: None, subject: Seq::empty(), text: None, html: None }),
    {
        DraftMail { to, from: None, subject: String::new(), text: None, html: None }
    }

    /// Set the subject line.
    pub fn subject(self, subject: &str) -> (d: Self)
        ensures
            d@ == (DraftView { subject: subject@, ..self@ }),
    {
        let mut s = self;
        s.subject = copy_str(subject);
        s
    }

    /// Set the plain-text body.
    pub fn text(self, body: &str) -> (d: Self)
        ensures
            d@ == (DraftView { text: Some(body@), ..self@ }),
    {
        let mut s = self;
        s.text = Some(copy_str(body));
        s
    }

    /// Set the HTML body.
    pub fn html(self, body: &str) -> (d: Self)
        ensures
            d@ == (DraftView { html: Some(body@), ..self@ }),
    {
        let mut s = self;
        s.html = Some(copy_str(body));
        s
    }

    /// Override the sender for this message (defaults to the facade's
    /// default sender).
    pub fn from(self, address: &str) -> (d: Self)
        ensures
            d@ == (DraftView { from: Some(address@), ..self@ }),
    {
        let mut s = self;
        s.from = Some(copy_str(address));
        s
    }

    /// The mail this draft is sent as: from its own sender or `default_from`,
    /// to its one recipient, with its subject and [`draft_body`]. A draft
    /// with neither body gets an empty text body and is still sent: only
    /// its sender, recipient and subject are checked. Building fails exactly
    /// when [`draft_problem`] names a problem.
    pub fn build(self, default_from: &str) -> (r: Result<MailMessage, MailError>)
        ensures
            draft_problem(self@, default_from@) is None <==> r is Ok,
            match r {
                Ok(m) => {
                    &&& m.from.email@ == draft_sender(self@, default_from@)
                    &&& m.from.name is None
                    &&& m.to@.len() == 1
                    &&& m.to@[0].email@ == self@.to
                    &&& m.to@[0].name is None
                    &&& m.cc@.len() == 0
                    &&& m.bcc@.len() == 0
                    &&& m.reply_to is None
                    &&& m.subject@ == self@.subject
                    &&& m.body@ == draft_body(self@)
                    &&& m.attachments@.len() == 0
                    &&& m.id@.len() == 36
                },
                Err(e) => e matches MailError::InvalidMessage(msg) && draft_problem(self@, default_from@)
                    == Some(msg@),
            },
    {
        let from = match &self.from {
            Some(f) => copy_str(f.as_str()),
            None => copy_str(default_from),
        };
        if self.html.is_none() && self.text.is_none() {
            if from.as_str().is_empty() {
                return Err(MailError::InvalidMessage(copy_str("From address is required")));
            }
            if self.subject.as_str().is_empty() {
                return Err(MailError::InvalidMessage(copy_str("Subject is required")));
            }
            let mut m = MailMessage::new();
            m.from = Address::new(from.as_str());
            m.to.push(Address::new(self.to.as_str()));
            m.subject = copy_str(self.subject.as_str());
            proof {
                assert(m.to@.len() == 1);
            }
            return Ok(m);
        }
        let mut builder = MailBuilder::new().from(Address::new(from.as_str())).to(
            Address::new(self.to.as_str()),
        ).subject(self.subject.as_str());
        match &self.html {
            Some(h) => {
                builder = builder.html(h.as_str());
            },
            None => {},
        }
        match &self.text {
            Some(t) => {
                builder = builder.text(t.as_str());
            },
            None => {},
        }
        builder.build()
    }
}

/// `mail` with `to_override` as its one recipient when it names one and the
/// mail has no recipients of its own; otherwise `mail` unchanged.
pub fn with_recipient(mail: MailMessage, to_override: Option<&str>) -> (r: MailMessage)
    ensures
        match to_override {
            Some(a) => if mail.to@.len() == 0 {
                &&& r.to@.len() == 1
                &&& r.to@[0].email@ == a@
                &&& r.to@[0].name is None
                &&& r == (MailMessage { to: r.to, ..mail })
            } else {
                r == mail
            },
            None => r == mail,
        },
{
    let mut mail = mail;
    match to_override {
        Some(a) => {
            if mail.to.len() == 0 {
                mail.to.push(Address::new(a));
            }
        },
        None => {},
    }
    mail
}

/// Whether `r` is what a facade send prepares from a mailable whose builder
/// is `v`: the built mail, or the builder's first problem. A mail that builds
/// always names a recipient, so the recipient override never applies.
pub open spec fn prepared(r: Result<MailMessage, MailError>, v: MailBuilderView) -> bool {
    match r {
        Ok(m) => {
            &&& build_problem(v) is None
            &&& m.id@.len() == 36
            &&& m.to@ == v.to
            &&& m.cc@ == v.cc
            &&& m.bcc@ == v.bcc
            &&& v.from == Some(m.from)
            &&& m.reply_to == v.reply_to
            &&& m.subject@ == v.subject
            &&& planned_body(v) == Some(m.body@)
            &&& m.attachments@ == v.attachments
        },
        Err(e) => e matches MailError::InvalidMessage(msg) && build_problem(v) == Some(msg@),
    }
}

/// The mail a facade send delivers for a mailable whose builder is
/// `builder`: the built mail, with `to_override` as recipient when it names
/// none.
pub fn prepare_built(builder: MailBuilder, to_override: Option<&str>) -> (r: Result<MailMessage, MailError>)
    ensures
        prepared(r, builder@),
{
    let mail = builder.build()?;
    Ok(with_recipient(mail, to_override))
}

/// The mail a facade send of `mailable` delivers: the mailable built, with
/// `to_override` as recipient when the mailable names none.
pub fn prepare<M: Mailable>(mailable: &M, to_override: Option<&str>) -> (r: Result<MailMessage, MailError>)
    ensures
        exists|v: MailBuilderView| #[trigger] prepared(r, v),
{
    let builder = mailable.build();
    let ghost v = builder@;
    let r = prepare_built(builder, to_override);
    proof {
        assert(prepared(r, v));
    }
    r
}

} // verus!
