//! Postmark backend: its configuration and the JSON body of a send request.
//! The application performs the HTTP request.
use vstd::prelude::*;
use crate::address::{Address, address_text, display_texts, texts_of};
use crate::attachment::Attachment;
use crate::backends::json::{array, json_array, json_object, json_quoted, object, put_quoted, put_raw};
use crate::mail::{BodyView, Mail, MailBody};
use crate::message::{Headers, store};
use crate::outside::{base64_encode, base64_standard};
use crate::address::opt_view;
use crate::text::{copy_str, join, join_strings, views};

verus! {

/// The endpoint a send request is posted to.
pub const POSTMARK_ENDPOINT: &'static str = "https://api.postmarkapp.com/email";

/// Postmark mailer configuration.
#[derive(Debug)]
pub struct PostmarkConfig {
    /// Postmark server API token
    pub server_token: String,
    /// Message stream (outbound, broadcast, transactional)
    pub message_stream: Option<String>,
}

impl Default for PostmarkConfig {
    fn default() -> (c: Self)
        ensures
            c.server_token@.len() == 0,
            opt_view(c.message_stream) == Some("outbound"@),
    {
        PostmarkConfig { server_token: String::new(), message_stream: Some(copy_str("outbound")) }
    }
}

/// The display texts of `addrs` joined by commas, as a JSON string.
pub open spec fn postmark_list(addrs: Seq<Address>) -> Seq<char> {
    json_quoted(join(texts_of(addrs), ","@))
}

/// The JSON object describing one attachment.
pub open spec fn postmark_attachment(a: Attachment) -> Seq<char> {
    let f = store(Seq::empty(), "Name"@, json_quoted(a.filename@));
    let f = store(f, "Content"@, json_quoted(base64_standard(a.data@)));
    json_object(store(f, "ContentType"@, json_quoted(a.content_type@)))
}

/// The members of the request body, in the order they are added.
pub open spec fn postmark_fields(stream: Option<Seq<char>>, m: Mail) -> Seq<(Seq<char>, Seq<char>)> {
    let f = store(Seq::empty(), "From"@, json_quoted(address_text(m.from)));
    let f = store(f, "To"@, postmark_list(m.to@));
    let f = store(f, "Subject"@, json_quoted(m.subject@));
    let f = if m.cc@.len() > 0 {
        store(f, "Cc"@, postmark_list(m.cc@))
    } else {
        f
    };
    let f = if m.bcc@.len() > 0 {
        store(f, "Bcc"@, postmark_list(m.bcc@))
    } else {
        f
    };
    let f = match m.reply_to {
        Some(r) => store(f, "ReplyTo"@, json_quoted(address_text(r))),
        None => f,
    };
    let f = match stream {
        Some(s) => store(f, "MessageStream"@, json_quoted(s)),
        None => f,
    };
    let f = match m.body@ {
        BodyView::Text(t) => store(f, "TextBody"@, json_quoted(t)),
        BodyView::Html(h) => store(f, "HtmlBody"@, json_quoted(h)),
        BodyView::Both { html, text } => store(
            store(f, "TextBody"@, json_quoted(text)),
            "HtmlBody"@,
            json_quoted(html),
        ),
    };
    if m.attachments@.len() > 0 {
        store(
            f,
            "Attachments"@,
            json_array(m.attachments@.map_values(|a: Attachment| postmark_attachment(a))),
        )
    } else {
        f
    }
}

/// Postmark email backend.
#[derive(Debug)]
pub struct PostmarkMailer {
    config: PostmarkConfig,
}

fn put_list(fields: &mut Headers, key: &str, addrs: &Vec<Address>)
    ensures
        final(fields)@ == store(old(fields)@, key@, postmark_list(addrs@)),
{
    let parts = display_texts(addrs);
    let joined = join_strings(&parts, ",");
    put_quoted(fields, key, joined.as_str());
}

fn attachment_object(a: &Attachment) -> (s: String)
    ensures
        s@ == postmark_attachment(*a),
{
    let mut o = Headers::new();
    put_quoted(&mut o, "Name", a.filename.as_str());
    let content = base64_encode(a.data.as_slice());
    put_quoted(&mut o, "Content", content.as_str());
    put_quoted(&mut o, "ContentType", a.content_type.as_str());
    object(&o)
}

fn attachments_array(atts: &Vec<Attachment>) -> (s: String)
    ensures
        s@ == json_array(atts@.map_values(|a: Attachment| postmark_attachment(a))),
{
    let mut items: Vec<String> = Vec::new();
    let mut i: usize = 0;
    while i < atts.len()
        invariant
            i <= atts.len(),
            views(items@) == atts@.take(i as int).map_values(|a: Attachment| postmark_attachment(a)),
        decreases atts.len() - i,
    {
        let o = attachment_object(&atts[i]);
        let ghost before = items@;
        let ghost ov = o@;
        items.push(o);
        proof {
            assert(views(items@) =~= views(before).push(ov));
            assert(views(items@) =~= atts@.take(i + 1).map_values(
                |a: Attachment| postmark_attachment(a),
            ));
        }
        i = i + 1;
    }
    proof {
        assert(atts@.take(i as int) =~= atts@);
    }
    array(&items)
}

impl PostmarkMailer {
    /// Create a new Postmark mailer.
    pub fn new(config: PostmarkConfig) -> (m: Self)
        ensures
            m.config_view() == config,
    {
        PostmarkMailer { config }
    }

    /// The configuration this mailer was made with.
    pub closed spec fn config_view(&self) -> PostmarkConfig {
        self.config
    }

    /// The configuration this mailer was made with.
    pub fn config(&self) -> (c: &PostmarkConfig)
        ensures
            *c == self.config_view(),
    {
        &self.config
    }

    /// The members of the request body that sends `mail`.
    pub fn fields(&self, mail: &Mail) -> (f: Headers)
        ensures
            f@ == postmark_fields(opt_view(self.config_view().message_stream), *mail),
    {
        let mut f = Headers::new();
        let from = mail.from.format();
        put_quoted(&mut f, "From", from.as_str());
        put_list(&mut f, "To", &mail.to);
        put_quoted(&mut f, "Subject", mail.subject.as_str());
        if mail.cc.len() > 0 {
            put_list(&mut f, "Cc", &mail.cc);
        }
        if mail.bcc.len() > 0 {
            put_list(&mut f, "Bcc", &mail.bcc);
        }
        match &mail.reply_to {
            Some(r) => {
                let t = r.format();
                put_quoted(&mut f, "ReplyTo", t.as_str());
            },
            None => {},
        }
        match &self.config.message_stream {
            Some(s) => put_quoted(&mut f, "MessageStream", s.as_str()),
            None => {},
        }
        match &mail.body {
            MailBody::Text(text) => put_quoted(&mut f, "TextBody", text.as_str()),
            MailBody::Html(html) => put_quoted(&mut f, "HtmlBody", html.as_str()),
            MailBody::Both { html, text } => {
                put_quoted(&mut f, "TextBody", text.as_str());
                put_quoted(&mut f, "HtmlBody", html.as_str());
            },
        }
        if mail.attachments.len() > 0 {
            let a = attachments_array(&mail.attachments);
            put_raw(&mut f, "Attachments", a.as_str());
        }
        f
    }

    /// The JSON body of the request that sends `mail`.
    pub fn payload(&self, mail: &Mail) -> (s: String)
        ensures
            s@ == json_object(postmark_fields(opt_view(self.config_view().message_stream), *mail)),
    {
        let f = self.fields(mail);
        object(&f)
    }
}

/// Postmark API response.
#[derive(Debug)]
pub struct PostmarkResponse {
    /// Postmark message ID
    pub message_id: String,
    /// Submission timestamp
    pub submitted_at: String,
    /// Recipient email
    pub to: String,
    /// Error code (0 = success)
    pub error_code: i32,
    /// Error message
    pub message: String,
}

} // verus!
