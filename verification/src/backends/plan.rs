//! What a transport that builds RFC 5322 messages itself (SMTP, sendmail)
//! is handed: mailbox texts for each header and the shape of the body.
use vstd::prelude::*;

verus! {

/// The body of an outgoing message.
#[derive(Debug)]
pub enum PartsPlan {
    /// A `multipart/alternative` body: a plain-text part, then an HTML part.
    Alternative {
        /// The plain-text part
        text: String,
        /// The HTML part
        html: String,
    },
    /// One part declared `text/html`.
    SingleHtml(String),
    /// One part declared `text/plain`.
    SingleText(String),
    /// A bare body with the transport's default content type.
    Body(String),
}

/// The character view of a body plan.
pub enum PartsView {
    Alternative { text: Seq<char>, html: Seq<char> },
    SingleHtml(Seq<char>),
    SingleText(Seq<char>),
    Body(Seq<char>),
}

impl View for PartsPlan {
    type V = PartsView;

    open spec fn view(&self) -> PartsView {
        match self {
            PartsPlan::Alternative { text, html } => PartsView::Alternative { text: text@, html: html@ },
            PartsPlan::SingleHtml(h) => PartsView::SingleHtml(h@),
            PartsPlan::SingleText(t) => PartsView::SingleText(t@),
            PartsPlan::Body(b) => PartsView::Body(b@),
        }
    }
}

/// An outgoing message: the mailbox text of each address header, the
/// subject and the body. The transport parses each mailbox text.
#[derive(Debug)]
pub struct MessagePlan {
    /// Sender mailbox
    pub from: String,
    /// Recipient mailboxes
    pub to: Vec<String>,
    /// Carbon-copy mailboxes
    pub cc: Vec<String>,
    /// Blind carbon-copy mailboxes
    pub bcc: Vec<String>,
    /// Reply-to mailbox
    pub reply_to: Option<String>,
    /// Subject line
    pub subject: String,
    /// Body
    pub parts: PartsPlan,
}

} // verus!
