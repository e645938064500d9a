//! Core mail type with a typed body.
use vstd::prelude::*;
use crate::address::Address;
use crate::attachment::{Attachment, total_size};
use crate::message::sum_sizes;
use crate::outside::new_uuid_string;
use crate::text::copy_str;

verus! {

/// Mail body variants.
#[derive(Debug)]
pub enum MailBody {
    /// HTML only
    Html(String),
    /// Plain text only
    Text(String),
    /// Both HTML and plain text (multipart)
    Both {
        /// HTML version
        html: String,
        /// Plain text version
        text: String,
    },
}

/// The character view of a mail body.
pub enum BodyView {
    Html(Seq<char>),
    Text(Seq<char>),
    Both { html: Seq<char>, text: Seq<char> },
}

impl View for MailBody {
    type V = BodyView;

    open spec fn view(&self) -> BodyView {
        match self {
            MailBody::Html(h) => BodyView::Html(h@),
            MailBody::Text(t) => BodyView::Text(t@),
            MailBody::Both { html, text } => BodyView::Both { html: html@, text: text@ },
        }
    }
}

/// The HTML part of a body, if it has one.
pub open spec fn html_part(b: BodyView) -> Option<Seq<char>> {
    match b {
        BodyView::Html(h) => Some(h),
        BodyView::Both { html, .. } => Some(html),
        BodyView::Text(_) => None,
    }
}

/// The text part of a body, if it has one.
pub open spec fn text_part(b: BodyView) -> Option<Seq<char>> {
    match b {
        BodyView::Text(t) => Some(t),
        BodyView::Both { text, .. } => Some(text),
        BodyView::Html(_) => None,
    }
}

/// A complete mail representation with typed body.
#[derive(Debug)]
pub struct Mail {
    /// Unique mail ID
    pub id: String,
    /// Recipient addresses
    pub to: Vec<Address>,
    /// CC addresses
    pub cc: Vec<Address>,
    /// BCC addresses
    pub bcc: Vec<Address>,
    /// From address
    pub from: Address,
    /// Reply-to address
    pub reply_to: Option<Address>,
    /// Subject line
    pub subject: String,
    /// Mail body (HTML, Text, or both)
    pub body: MailBody,
    /// File attachments
    pub attachments: Vec<Attachment>,
}

/// The first reason a mail with these parts cannot be sent, if any.
pub open spec fn parts_problem(from_email: Seq<char>, to_count: nat, subject: Seq<char>, body: BodyView) -> Option<Seq<char>> {
    if from_email.len() == 0 {
        Some("From address is required"@)
    } else if to_count == 0 {
        Some("At least one To address is required"@)
    } else if subject.len() == 0 {
        Some("Subject is required"@)
    } else {
        match body {
            BodyView::Html(h) => if h.len() == 0 {
                Some("HTML body cannot be empty"@)
            } else {
                None
            },
            BodyView::Text(t) => if t.len() == 0 {
                Some("Text body cannot be empty"@)
            } else {
                None
            },
            BodyView::Both { html, text } => if html.len() == 0 && text.len() == 0 {
                Some("At least one body part must be non-empty"@)
            } else {
                None
            },
        }
    }
}

/// The first reason a mail cannot be sent, if any.
pub open spec fn mail_problem(m: Mail) -> Option<Seq<char>> {
    parts_problem(m.from.email@, m.to@.len(), m.subject@, m.body@)
}

impl Mail {
    /// Create a new mail with defaults: a fresh random id, no recipients, an
    /// empty sender and subject, an empty text body and no attachments.
    pub fn new() -> (m: Self)
        ensures
            m.id@.len() == 36,
            m.to@.len() == 0,
            m.cc@.len() == 0,
            m.bcc@.len() == 0,
            m.from.email@ == Seq::<char>::empty(),
            m.from.name is None,
            m.reply_to is None,
            m.subject@ == Seq::<char>::empty(),
            m.body@ == BodyView::Text(Seq::empty()),
            m.attachments@.len() == 0,
    {
        Mail {
            id: new_uuid_string(),
            to: Vec::new(),
            cc: Vec::new(),
            bcc: Vec::new(),
            from: Address { email: String::new(), name: None },
            reply_to: None,
            subject: String::new(),
            body: MailBody::Text(String::new()),
            attachments: Vec::new(),
        }
    }

    /// Validate the mail: sender, a recipient, a subject and a non-empty body.
    pub fn validate(&self) -> (r: Result<(), String>)
        ensures
            match r {
                Ok(()) => mail_problem(*self) is None,
                Err(e) => mail_problem(*self) == Some(e@),
            },
    {
        if self.from.email.as_str().is_empty() {
            return Err(copy_str("From address is required"));
        }
        if self.to.len() == 0 {
            return Err(copy_str("At least one To address is required"));
        }
        if self.subject.as_str().is_empty() {
            return Err(copy_str("Subject is required"));
        }
        match &self.body {
            MailBody::Html(html) => {
                if html.as_str().is_empty() {
                    return Err(copy_str("HTML body cannot be empty"));
                }
            },
            MailBody::Text(text) => {
                if text.as_str().is_empty() {
                    return Err(copy_str("Text body cannot be empty"));
                }
            },
            MailBody::Both { html, text } => {
                if html.as_str().is_empty() && text.as_str().is_empty() {
                    return Err(copy_str("At least one body part must be non-empty"));
                }
            },
        }
        Ok(())
    }

    /// Get total recipient count.
    pub fn recipient_count(&self) -> (n: usize)
        requires
            self.to@.len() + self.cc@.len() + self.bcc@.len() <= usize::MAX,
        ensures
            n == self.to@.len() + self.cc@.len() + self.bcc@.len(),
    {
        self.to.len() + self.cc.len() + self.bcc.len()
    }

    /// Get total attachment size in bytes.
    pub fn attachment_size(&self) -> (n: usize)
        requires
            total_size(self.attachments@) <= usize::MAX,
        ensures
            n == total_size(self.attachments@),
    {
        sum_sizes(&self.attachments)
    }

    /// Check if mail has HTML body.
    pub fn has_html(&self) -> (b: bool)
        ensures
            b == (html_part(self.body@) is Some),
    {
        match &self.body {
            MailBody::Html(_) => true,
            MailBody::Both { .. } => true,
            MailBody::Text(_) => false,
        }
    }

    /// Check if mail has text body.
    pub fn has_text(&self) -> (b: bool)
        ensures
            b == (text_part(self.body@) is Some),
    {
        match &self.body {
            MailBody::Text(_) => true,
            MailBody::Both { .. } => true,
            MailBody::Html(_) => false,
        }
    }

    /// Get HTML body if present.
    pub fn html(&self) -> (r: Option<&str>)
        ensures
            match r {
                Some(h) => html_part(self.body@) == Some(h@),
                None => html_part(self.body@) is None,
            },
    {
        match &self.body {
            MailBody::Html(html) => Some(html.as_str()),
            MailBody::Both { html, .. } => Some(html.as_str()),
            MailBody::Text(_) => None,
        }
    }

    /// Get text body if present.
    pub fn text(&self) -> (r: Option<&str>)
        ensures
            match r {
                Some(t) => text_part(self.body@) == Some(t@),
                None => text_part(self.body@) is None,
            },
    {
        match &self.body {
            MailBody::Text(text) => Some(text.as_str()),
            MailBody::Both { text, .. } => Some(text.as_str()),
            MailBody::Html(_) => None,
        }
    }
}

impl Default for Mail {
    fn default() -> (m: Self)
        ensures
            m.id@.len() == 36,
            m.to@.len() == 0,
            m.cc@.len() == 0,
            m.bcc@.len() == 0,
            m.from.email@ == Seq::<char>::empty(),
            m.from.name is None,
            m.reply_to is None,
            m.subject@ == Seq::<char>::empty(),
            m.body@ == BodyView::Text(Seq::empty()),
            m.attachments@.len() == 0,
    {
        Self::new()
    }
}

} // verus!
