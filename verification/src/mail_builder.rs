//! Fluent builder for [`Mail`] values, with markdown bodies.
use vstd::prelude::*;
use crate::address::Address;
use crate::attachment::Attachment;
use crate::error::MailError;
use crate::mail::{BodyView, Mail, MailBody, mail_problem, parts_problem};
use crate::markdown::{markdown_html, markdown_text, markdown_to_text, render_markdown};
use crate::outside::new_uuid_string;
use crate::text::copy_str;

verus! {

/// Fluent builder for constructing [`Mail`] objects.
#[derive(Debug)]
pub struct MailBuilder {
    to: Vec<Address>,
    cc: Vec<Address>,
    bcc: Vec<Address>,
    from: Option<Address>,
    reply_to: Option<Address>,
    subject: String,
    html: Option<String>,
    text: Option<String>,
    markdown: Option<String>,
    attachments: Vec<Attachment>,
}

/// What a [`MailBuilder`] has collected so far.
pub struct MailBuilderView {
    pub to: Seq<Address>,
    pub cc: Seq<Address>,
    pub bcc: Seq<Address>,
    pub from: Option<Address>,
    pub reply_to: Option<Address>,
    pub subject: Seq<char>,
    pub html: Option<Seq<char>>,
    pub text: Option<Seq<char>>,
    pub markdown: Option<Seq<char>>,
    pub attachments: Seq<Attachment>,
}

/// The character view of an optional string.
pub open spec fn opt_chars(o: Option<String>) -> Option<Seq<char>> {
    match o {
        Some(s) => Some(s@),
        None => None,
    }
}

impl View for MailBuilder {
    type V = MailBuilderView;

    closed spec fn view(&self) -> MailBuilderView {
        MailBuilderView {
            to: self.to@,
            cc: self.cc@,
            bcc: self.bcc@,
            from: self.from,
            reply_to: self.reply_to,
            subject: self.subject@,
            html: opt_chars(self.html),
            text: opt_chars(self.text),
            markdown: opt_chars(self.markdown),
            attachments: self.attachments@,
        }
    }
}

/// The body a builder produces: markdown wins and yields both an HTML and a
/// plain-text part; otherwise HTML and text as given; nothing when no body was
/// set.
pub open spec fn planned_body(v: MailBuilderView) -> Option<BodyView> {
    match v.markdown {
        Some(md) => Some(BodyView::Both { html: markdown_html(md), text: markdown_text(md) }),
        None => match (v.html, v.text) {
            (Some(h), Some(t)) => Some(BodyView::Both { html: h, text: t }),
            (Some(h), None) => Some(BodyView::Html(h)),
            (None, Some(t)) => Some(BodyView::Text(t)),
            (None, None) => None,
        },
    }
}

/// Why building fails, if it does: a missing body, a missing sender, or the
/// first problem the assembled mail has.
pub open spec fn build_problem(v: MailBuilderView) -> Option<Seq<char>> {
    match planned_body(v) {
        None => Some("At least one body type (html, text, or markdown) is required"@),
        Some(body) => match v.from {
            None => Some("From address is required"@),
            Some(from) => parts_problem(from.email@, v.to.len(), v.subject, body),
        },
    }
}

impl MailBuilder {
    /// Create a new, empty mail builder.
    pub fn new() -> (b: Self)
        ensures
            b@ == (MailBuilderView {
                to: Seq::empty(),
                cc: Seq::empty(),
                bcc: Seq::empty(),
                from: None,
                reply_to: None,
                subject: Seq::empty(),
                html: None,
                text: None,
                markdown: None,
                attachments: Seq::empty(),
            }),
    {
        MailBuilder {
            to: Vec::new(),
            cc: Vec::new(),
            bcc: Vec::new(),
            from: None,
            reply_to: None,
            subject: String::new(),
            html: None,
            text: None,
            markdown: None,
            attachments: Vec::new(),
        }
    }

    /// Set the from address.
    pub fn from(self, address: Address) -> (b: Self)
        ensures
            b@ == (MailBuilderView { from: Some(address), ..self@ }),
    {
        let mut s = self;
        s.from = Some(address);
        s
    }

    /// Add a to address.
    pub fn to(self, address: Address) -> (b: Self)
        ensures
            b@ == (MailBuilderView { to: self@.to.push(address), ..self@ }),
    {
        let mut s = self;
        s.to.push(address);
        s
    }

    /// Add multiple to addresses.
    pub fn to_many(self, addresses: Vec<Address>) -> (b: Self)
        ensures
            b@ == (MailBuilderView { to: self@.to + addresses@, ..self@ }),
    {
        let mut s = self;
        let mut addresses = addresses;
        s.to.append(&mut addresses);
        s
    }

    /// Add a cc address.
    pub fn cc(self, address: Address) -> (b: Self)
        ensures
            b@ == (MailBuilderView { cc: self@.cc.push(address), ..self@ }),
    {
        let mut s = self;
        s.cc.push(address);
        s
    }

    /// Add a bcc address.
    pub fn bcc(self, address: Address) -> (b: Self)
        ensures
            b@ == (MailBuilderView { bcc: self@.bcc.push(address), ..self@ }),
    {
        let mut s = self;
        s.bcc.push(address);
        s
    }

    /// Set the reply-to address.
    pub fn reply_to(self, address: Address) -> (b: Self)
        ensures
            b@ == (MailBuilderView { reply_to: Some(address), ..self@ }),
    {
        let mut s = self;
        s.reply_to = Some(address);
        s
    }

    /// Set the subject.
    pub fn subject(self, subject: &str) -> (b: Self)
        ensures
            b@ == (MailBuilderView { subject: subject@, ..self@ }),
    {
        let mut s = self;
        s.subject = copy_str(subject);
        s
    }

    /// Set HTML body.
    pub fn html(self, html: &str) -> (b: Self)
        ensures
            b@ == (MailBuilderView { html: Some(html@), ..self@ }),
    {
        let mut s = self;
        s.html = Some(copy_str(html));
        s
    }

    /// Set plain text body.
    pub fn text(self, text: &str) -> (b: Self)
        ensures
            b@ == (MailBuilderView { text: Some(text@), ..self@ }),
    {
        let mut s = self;
        s.text = Some(copy_str(text));
        s
    }

    /// Set markdown body (converted to HTML and plain text on build).
    pub fn markdown(self, markdown: &str) -> (b: Self)
        ensures
            b@ == (MailBuilderView { markdown: Some(markdown@), ..self@ }),
    {
        let mut s = self;
        s.markdown = Some(copy_str(markdown));
        s
    }

    /// Attach an already loaded attachment.
    pub fn attach_attachment(self, attachment: Attachment) -> (b: Self)
        ensures
            b@ == (MailBuilderView { attachments: self@.attachments.push(attachment), ..self@ }),
    {
        let mut s = self;
        s.attachments.push(attachment);
        s
    }

    /// Attach data directly.
    pub fn attach_data(self, data: Vec<u8>, filename: &str, content_type: &str) -> (b: Self)
        ensures
            b@.attachments.len() == self@.attachments.len() + 1,
            b@.attachments.take(self@.attachments.len() as int) == self@.attachments,
            b@.attachments.last().filename@ == filename@,
            b@.attachments.last().content_type@ == content_type@,
            b@.attachments.last().data@ == data@,
            b@ == (MailBuilderView { attachments: b@.attachments, ..self@ }),
    {
        let attachment = Attachment::from_data(data, copy_str(filename), copy_str(content_type));
        let ghost before = self@.attachments;
        let b = self.attach_attachment(attachment);
        proof {
            assert(b@.attachments.take(before.len() as int) =~= before);
        }
        b
    }

    /// Build the final [`Mail`], with a fresh random id, validating it.
    pub fn build(self) -> (r: Result<Mail, MailError>)
        ensures
            match r {
                Ok(m) => {
                    &&& build_problem(self@) is None
                    &&& m.id@.len() == 36
                    &&& m.to@ == self@.to
                    &&& m.cc@ == self@.cc
                    &&& m.bcc@ == self@.bcc
                    &&& self@.from == Some(m.from)
                    &&& m.reply_to == self@.reply_to
                    &&& m.subject@ == self@.subject
                    &&& planned_body(self@) == Some(m.body@)
                    &&& m.attachments@ == self@.attachments
                },
                Err(e) => e matches MailError::InvalidMessage(msg) && build_problem(self@) == Some(
                    msg@,
                ),
            },
    {
        let ghost v = self@;
        let body = match self.markdown {
            Some(md) => {
                let html = render_markdown(md.as_str())?;
                let text = markdown_to_text(md.as_str());
                MailBody::Both { html, text }
            },
            None => match (self.html, self.text) {
                (Some(html), Some(text)) => MailBody::Both { html, text },
                (Some(html), None) => MailBody::Html(html),
                (None, Some(text)) => MailBody::Text(text),
                (None, None) => {
                    return Err(
                        MailError::InvalidMessage(
                            copy_str("At least one body type (html, text, or markdown) is required"),
                        ),
                    );
                },
            },
        };
        let from = match self.from {
            Some(f) => f,
            None => {
                return Err(MailError::InvalidMessage(copy_str("From address is required")));
            },
        };
        let mail = Mail {
            id: new_uuid_string(),
            to: self.to,
            cc: self.cc,
            bcc: self.bcc,
            from,
            reply_to: self.reply_to,
            subject: self.subject,
            body,
            attachments: self.attachments,
        };
        match mail.validate() {
            Ok(()) => Ok(mail),
            Err(e) => Err(MailError::InvalidMessage(e)),
        }
    }
}

/// A mail that the builder builds passes `Mail::validate`: building refuses
/// exactly what validation would refuse.
pub proof fn lemma_built_mail_validates(v: MailBuilderView, m: Mail)
    requires
        build_problem(v) is None,
        v.from == Some(m.from),
        m.to@ == v.to,
        m.subject@ == v.subject,
        planned_body(v) == Some(m.body@),
    ensures
        mail_problem(m) is None,
{
}

/// Setting both an HTML and a text body, without markdown, gives a
/// multipart body holding both.
pub proof fn lemma_html_and_text_make_multipart(v: MailBuilderView, html: Seq<char>, text: Seq<char>)
    requires
        v.markdown is None,
        v.html == Some(html),
        v.text == Some(text),
    ensures
        planned_body(v) == Some(BodyView::Both { html, text }),
{
}

/// Markdown wins over any HTML or text body: the mail gets the rendered
/// markdown as its HTML part and the markdown's plain text as its text part.
pub proof fn lemma_markdown_wins(v: MailBuilderView, md: Seq<char>)
    requires
        v.markdown == Some(md),
    ensures
        planned_body(v) == Some(BodyView::Both { html: markdown_html(md), text: markdown_text(md) }),
{
}

impl Default for MailBuilder {
    fn default() -> (b: Self)
        ensures
            b@ == (MailBuilderView {
                to: Seq::empty(),
                cc: Seq::empty(),
                bcc: Seq::empty(),
                from: None,
                reply_to: None,
                subject: Seq::empty(),
                html: None,
                text: None,
                markdown: None,
                attachments: Seq::empty(),
            }),
    {
        Self::new()
    }
}

} // verus!
