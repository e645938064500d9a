//! Reusable email types, and the message a mailable is sent as.
use vstd::prelude::*;
use crate::address::same_address;
use crate::builder::MessageBuilder;
use crate::error::MailError;
use crate::mail::{Mail, MailBody, html_part, mail_problem, text_part};
use crate::mail_builder::MailBuilder;
use crate::message::Message;
use crate::address::{copy_addresses, opt_view, same_addresses};

verus! {

/// Types that can be sent as email: each says how to build its mail.
pub trait Mailable {
    /// Build the mail: returns a configured builder; its `build` gives the
    /// mail.
    fn build(&self) -> MailBuilder;

    /// Queue name for this mailable (for queue routing); none by default.
    fn queue_name(&self) -> (q: Option<&str>)
        default_ensures
            q is None,
    {
        None
    }
}

/// The first reason the message form of a mail cannot be sent, if any. The
/// mail always has a body, so only the sender, the recipients and the subject
/// can be missing.
pub open spec fn message_form_problem(m: Mail) -> Option<Seq<char>> {
    if m.from.email@.len() == 0 {
        Some("From address is required"@)
    } else if m.to@.len() == 0 {
        Some("At least one To address is required"@)
    } else if m.subject@.len() == 0 {
        Some("Subject is required"@)
    } else {
        None
    }
}

/// The message a mail is sent as by a mailable: sender, recipients, subject
/// and body parts; copies, blind copies, reply-to and attachments are not
/// carried over, and the message gets an id of its own.
pub fn message_of(mail: &Mail) -> (r: Result<Message, MailError>)
    ensures
        message_form_problem(*mail) is None <==> r is Ok,
        match r {
            Ok(m) => {
                &&& same_address(m.from, mail.from)
                &&& same_addresses(m.to@, mail.to@)
                &&& m.cc@.len() == 0
                &&& m.bcc@.len() == 0
                &&& m.reply_to is None
                &&& m.subject@ == mail.subject@
                &&& opt_view(m.html) == html_part(mail.body@)
                &&& opt_view(m.text) == text_part(mail.body@)
                &&& m.attachments@.len() == 0
                &&& m.headers@.len() == 0
                &&& m.id@.len() == 36
            },
            Err(e) => e matches MailError::InvalidMessage(msg) && message_form_problem(*mail) == Some(
                msg@,
            ),
        },
{
    let b = MessageBuilder::new().from(mail.from.duplicate()).to_many(copy_addresses(&mail.to)).subject(
        mail.subject.as_str(),
    );
    let b = match &mail.body {
        MailBody::Html(html) => b.html(html.as_str()),
        MailBody::Text(text) => b.text(text.as_str()),
        MailBody::Both { html, text } => b.html(html.as_str()).text(text.as_str()),
    };
    b.build()
}

/// The mail a message is delivered as: the same id, addresses, subject and
/// attachments, and a body of both parts, or of the one part it has; `None`
/// for a message with no body.
pub fn mail_of_message(message: Message) -> (r: Option<Mail>)
    ensures
        (message.html is None && message.text is None) <==> r is None,
        match r {
            Some(m) => {
                &&& m.id == message.id
                &&& m.from == message.from
                &&& m.to == message.to
                &&& m.cc == message.cc
                &&& m.bcc == message.bcc
                &&& m.reply_to == message.reply_to
                &&& m.subject == message.subject
                &&& m.attachments == message.attachments
                &&& html_part(m.body@) == opt_view(message.html)
                &&& text_part(m.body@) == opt_view(message.text)
            },
            None => true,
        },
{
    let body = match (message.html, message.text) {
        (Some(html), Some(text)) => MailBody::Both { html, text },
        (Some(html), None) => MailBody::Html(html),
        (None, Some(text)) => MailBody::Text(text),
        (None, None) => {
            return None;
        },
    };
    Some(
        Mail {
            id: message.id,
            to: message.to,
            cc: message.cc,
            bcc: message.bcc,
            from: message.from,
            reply_to: message.reply_to,
            subject: message.subject,
            body,
            attachments: message.attachments,
        },
    )
}

/// A mail that passes validation can always be sent as a message: its
/// message form has a sender, recipients, a subject and a body.
pub proof fn lemma_valid_mail_converts(mail: Mail)
    requires
        mail_problem(mail) is None,
    ensures
        message_form_problem(mail) is None,
        html_part(mail.body@) is Some || text_part(mail.body@) is Some,
{
}

} // verus!
