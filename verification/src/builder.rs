//! Fluent builder for [`Message`] values.
use vstd::prelude::*;
use crate::address::Address;
use crate::attachment::Attachment;
use crate::error::MailError;
use crate::message::{Message, blank_message, message_problem, store};
use crate::text::copy_str;

verus! {

/// Fluent builder for email messages.
pub struct MessageBuilder {
    message: Message,
}

impl MessageBuilder {
    /// The message under construction.
    pub closed spec fn draft(&self) -> Message {
        self.message
    }

    /// Create new message builder around a blank message with a fresh id.
    pub fn new() -> (b: Self)
        ensures
            blank_message(b.draft()),
            b.draft().id@.len() == 36,
    {
        MessageBuilder { message: Message::new() }
    }

    /// Set from address.
    pub fn from(self, address: Address) -> (b: Self)
        ensures
            b.draft() == (Message { from: address, ..self.draft() }),
    {
        let mut s = self;
        s.message.from = address;
        s
    }

    /// Add to address.
    pub fn to(self, address: Address) -> (b: Self)
        ensures
            b.draft().to@ == self.draft().to@.push(address),
            b.draft() == (Message { to: b.draft().to, ..self.draft() }),
    {
        let mut s = self;
        s.message.to.push(address);
        s
    }

    /// Add multiple to addresses.
    pub fn to_many(self, addresses: Vec<Address>) -> (b: Self)
        ensures
            b.draft().to@ == self.draft().to@ + addresses@,
            b.draft() == (Message { to: b.draft().to, ..self.draft() }),
    {
        let mut s = self;
        let mut addresses = addresses;
        s.message.to.append(&mut addresses);
        s
    }

    /// Add cc address.
    pub fn cc(self, address: Address) -> (b: Self)
        ensures
            b.draft().cc@ == self.draft().cc@.push(address),
            b.draft() == (Message { cc: b.draft().cc, ..self.draft() }),
    {
        let mut s = self;
        s.message.cc.push(address);
        s
    }

    /// Add bcc address.
    pub fn bcc(self, address: Address) -> (b: Self)
        ensures
            b.draft().bcc@ == self.draft().bcc@.push(address),
            b.draft() == (Message { bcc: b.draft().bcc, ..self.draft() }),
    {
        let mut s = self;
        s.message.bcc.push(address);
        s
    }

    /// Set reply-to address.
    pub fn reply_to(self, address: Address) -> (b: Self)
        ensures
            b.draft() == (Message { reply_to: Some(address), ..self.draft() }),
    {
        let mut s = self;
        s.message.reply_to = Some(address);
        s
    }

    /// Set subject.
    pub fn subject(self, subject: &str) -> (b: Self)
        ensures
            b.draft().subject@ == subject@,
            b.draft() == (Message { subject: b.draft().subject, ..self.draft() }),
    {
        let mut s = self;
        s.message.subject = copy_str(subject);
        s
    }

    /// Set HTML body.
    pub fn html(self, html: &str) -> (b: Self)
        ensures
            b.draft().html matches Some(h) && h@ == html@,
            b.draft() == (Message { html: b.draft().html, ..self.draft() }),
    {
        let mut s = self;
        s.message.html = Some(copy_str(html));
        s
    }

    /// Set plain text body.
    pub fn text(self, text: &str) -> (b: Self)
        ensures
            b.draft().text matches Some(t) && t@ == text@,
            b.draft() == (Message { text: b.draft().text, ..self.draft() }),
    {
        let mut s = self;
        s.message.text = Some(copy_str(text));
        s
    }

    /// Add attachment.
    pub fn attach(self, attachment: Attachment) -> (b: Self)
        ensures
            b.draft().attachments@ == self.draft().attachments@.push(attachment),
            b.draft() == (Message { attachments: b.draft().attachments, ..self.draft() }),
    {
        let mut s = self;
        s.message.attachments.push(attachment);
        s
    }

    /// Add custom header, overwriting an earlier header of the same name.
    pub fn header(self, key: &str, value: &str) -> (b: Self)
        ensures
            b.draft().headers@ == store(self.draft().headers@, key@, value@),
            b.draft() == (Message { headers: b.draft().headers, ..self.draft() }),
    {
        let mut s = self;
        s.message.headers.insert(copy_str(key), copy_str(value));
        s
    }

    /// Build the message, validating it first.
    pub fn build(self) -> (r: Result<Message, MailError>)
        ensures
            match r {
                Ok(m) => m == self.draft() && message_problem(m) is None,
                Err(e) => e matches MailError::InvalidMessage(msg) && message_problem(self.draft())
                    == Some(msg@),
            },
    {
        match self.message.validate() {
            Ok(()) => Ok(self.message),
            Err(e) => Err(MailError::InvalidMessage(e)),
        }
    }
}

impl Default for MessageBuilder {
    fn default() -> (b: Self)
        ensures
            blank_message(b.draft()),
            b.draft().id@.len() == 36,
    {
        Self::new()
    }
}

} // verus!
