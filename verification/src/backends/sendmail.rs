//! Sendmail backend: which sendmail command to run, and the plan of the
//! message that the application hands to it.
use vstd::prelude::*;
use crate::address::{Address, display_texts, emails, emails_of, opt_view, texts_of};
use crate::backends::plan::{MessagePlan, PartsPlan, PartsView};
use crate::error::MailError;
use crate::message::Message;
use crate::text::{copy_str, push_str, views};

verus! {

/// Sendmail mailer that uses the system's sendmail command.
#[derive(Debug)]
pub struct SendmailMailer {
    command: Option<String>,
}

/// The body a sendmail message gets: both parts as `multipart/alternative`,
/// else the one part declared with its type; `None` when there is neither.
pub open spec fn sendmail_parts(html: Option<Seq<char>>, text: Option<Seq<char>>) -> Option<PartsView> {
    match (html, text) {
        (Some(h), Some(t)) => Some(PartsView::Alternative { text: t, html: h }),
        (Some(h), None) => Some(PartsView::SingleHtml(h)),
        (None, Some(t)) => Some(PartsView::SingleText(t)),
        (None, None) => None,
    }
}

/// The sender mailbox: the display name (empty when unset) and the email in
/// angle brackets.
pub open spec fn sendmail_from(a: Address) -> Seq<char> {
    (match a.name {
        Some(n) => n@,
        None => Seq::empty(),
    }) + " <"@ + a.email@ + ">"@
}

/// Whether `p` is the sendmail plan of `m`: the sender as
/// [`sendmail_from`], recipients as `name <email>` or the bare email, copy,
/// blind-copy and reply-to addresses as bare emails, the subject, and the
/// body of [`sendmail_parts`].
pub open spec fn is_sendmail_plan(p: MessagePlan, m: Message) -> bool {
    &&& p.from@ == sendmail_from(m.from)
    &&& views(p.to@) == texts_of(m.to@)
    &&& views(p.cc@) == emails_of(m.cc@)
    &&& views(p.bcc@) == emails_of(m.bcc@)
    &&& match m.reply_to {
        Some(r) => p.reply_to matches Some(t) && t@ == r.email@,
        None => p.reply_to is None,
    }
    &&& p.subject@ == m.subject@
    &&& sendmail_parts(opt_view(m.html), opt_view(m.text)) == Some(p.parts@)
}

impl SendmailMailer {
    /// Create a new sendmail mailer running the default command.
    pub fn new() -> (r: Result<Self, MailError>)
        ensures
            r matches Ok(m) && m.command_view() is None,
    {
        Ok(SendmailMailer { command: None })
    }

    /// Create a sendmail mailer running the command at `path`.
    pub fn with_path(path: &str) -> (r: Result<Self, MailError>)
        ensures
            r matches Ok(m) && m.command_view() == Some(path@),
    {
        Ok(SendmailMailer { command: Some(copy_str(path)) })
    }

    /// The command this mailer runs; `None` for the default.
    pub closed spec fn command_view(&self) -> Option<Seq<char>> {
        opt_view(self.command)
    }

    /// The command this mailer runs; `None` for the default.
    pub fn command(&self) -> (c: Option<&str>)
        ensures
            match c {
                Some(s) => self.command_view() == Some(s@),
                None => self.command_view() is None,
            },
    {
        match &self.command {
            Some(s) => Some(s.as_str()),
            None => None,
        }
    }

    /// The message handed to sendmail for `message`. A message with neither
    /// an HTML nor a text body is refused.
    pub fn message_plan(message: &Message) -> (r: Result<MessagePlan, MailError>)
        ensures
            sendmail_parts(opt_view(message.html), opt_view(message.text)) is None <==> r is Err,
            match r {
                Ok(p) => is_sendmail_plan(p, *message),
                Err(MailError::InvalidMessage(m)) => m@ == "Message must have either HTML or text body"@,
                Err(_) => false,
            },
    {
        let parts = match (&message.html, &message.text) {
            (Some(html), Some(text)) => PartsPlan::Alternative {
                text: copy_str(text.as_str()),
                html: copy_str(html.as_str()),
            },
            (Some(html), None) => PartsPlan::SingleHtml(copy_str(html.as_str())),
            (None, Some(text)) => PartsPlan::SingleText(copy_str(text.as_str())),
            (None, None) => {
                return Err(
                    MailError::InvalidMessage(copy_str("Message must have either HTML or text body")),
                );
            },
        };
        let mut from = match &message.from.name {
            Some(n) => copy_str(n.as_str()),
            None => String::new(),
        };
        push_str(&mut from, " <");
        push_str(&mut from, message.from.email.as_str());
        push_str(&mut from, ">");
        let reply_to = match &message.reply_to {
            Some(r) => Some(copy_str(r.email.as_str())),
            None => None,
        };
        Ok(
            MessagePlan {
                from,
                to: display_texts(&message.to),
                cc: emails(&message.cc),
                bcc: emails(&message.bcc),
                reply_to,
                subject: copy_str(message.subject.as_str()),
                parts,
            },
        )
    }
}

impl Default for SendmailMailer {
    fn default() -> (m: Self)
        ensures
            m.command_view() is None,
    {
        SendmailMailer { command: None }
    }
}

} // verus!
