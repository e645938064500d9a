//! SMTP backend: the transport configuration, and the plan of the message
//! that the application's SMTP transport builds and sends.
use vstd::prelude::*;
use crate::address::{address_text, display_texts, texts_of};
use crate::backends::plan::{MessagePlan, PartsPlan, PartsView};
use crate::error::MailError;
use crate::mail::{Mail, html_part, text_part};
use crate::text::{copy_str, views};

verus! {

/// Backend-level SMTP transport configuration, passed to the SMTP mailer and
/// the facade's SMTP transport. All credential fields are required here,
/// because the transport needs them before its first connection attempt.
/// Not to be confused with `SmtpEnvConfig`, the application-level,
/// environment-friendly configuration whose auth fields are optional.
#[derive(Debug)]
pub struct SmtpConfig {
    /// SMTP server host
    pub host: String,
    /// SMTP server port
    pub port: u16,
    /// Username for authentication
    pub username: String,
    /// Password for authentication
    pub password: String,
    /// Default from address
    pub from_address: String,
    /// Default from name
    pub from_name: Option<String>,
}

/// The body an SMTP message gets: both parts as `multipart/alternative`,
/// else the one part as a bare body; `None` when the mail has neither.
pub open spec fn smtp_parts(html: Option<Seq<char>>, text: Option<Seq<char>>) -> Option<PartsView> {
    match (html, text) {
        (Some(h), Some(t)) => Some(PartsView::Alternative { text: t, html: h }),
        (Some(h), None) => Some(PartsView::Body(h)),
        (None, Some(t)) => Some(PartsView::Body(t)),
        (None, None) => None,
    }
}

/// Whether `p` is the SMTP plan of `m`: every address as `name <email>` or
/// the bare email, the subject, and the body of [`smtp_parts`].
pub open spec fn is_smtp_plan(p: MessagePlan, m: Mail) -> bool {
    &&& p.from@ == address_text(m.from)
    &&& views(p.to@) == texts_of(m.to@)
    &&& views(p.cc@) == texts_of(m.cc@)
    &&& views(p.bcc@) == texts_of(m.bcc@)
    &&& match m.reply_to {
        Some(r) => p.reply_to matches Some(t) && t@ == address_text(r),
        None => p.reply_to is None,
    }
    &&& p.subject@ == m.subject@
    &&& smtp_parts(html_part(m.body@), text_part(m.body@)) == Some(p.parts@)
}

/// The message the SMTP transport sends for `mail`. A mail with neither an
/// HTML nor a text body is refused.
pub fn smtp_plan(mail: &Mail) -> (r: Result<MessagePlan, MailError>)
    ensures
        smtp_parts(html_part(mail.body@), text_part(mail.body@)) is None <==> r is Err,
        match r {
            Ok(p) => is_smtp_plan(p, *mail),
            Err(MailError::InvalidMessage(m)) => m@ == "No body content"@,
            Err(_) => false,
        },
{
    let parts = match (mail.html(), mail.text()) {
        (Some(html), Some(text)) => PartsPlan::Alternative { text: copy_str(text), html: copy_str(html) },
        (Some(html), None) => PartsPlan::Body(copy_str(html)),
        (None, Some(text)) => PartsPlan::Body(copy_str(text)),
        (None, None) => {
            return Err(MailError::InvalidMessage(copy_str("No body content")));
        },
    };
    let reply_to = match &mail.reply_to {
        Some(r) => Some(r.format()),
        None => None,
    };
    Ok(
        MessagePlan {
            from: mail.from.format(),
            to: display_texts(&mail.to),
            cc: display_texts(&mail.cc),
            bcc: display_texts(&mail.bcc),
            reply_to,
            subject: copy_str(mail.subject.as_str()),
            parts,
        },
    )
}

} // verus!
