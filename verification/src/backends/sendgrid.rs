//! SendGrid backend (API v3): its configuration and the JSON body of a send
//! request. The application performs the HTTP request.
use vstd::prelude::*;
use crate::address::{Address, opt_view};
use crate::attachment::Attachment;
use crate::backends::json::{
    array, bool_text, json_array, json_bool, json_object, json_quoted, object, put_quoted, put_raw,
    string_array,
};
use crate::mail::{BodyView, Mail, MailBody};
use crate::message::{Headers, lemma_tracks_empty, lemma_tracks_store, store, tracks};
use crate::outside::{base64_encode, base64_standard};
use crate::text::{copy_str, push_str, views};

verus! {

/// The endpoint a send request is posted to.
pub const SENDGRID_ENDPOINT: &'static str = "https://api.sendgrid.com/v3/mail/send";

/// SendGrid mailer configuration.
#[derive(Debug)]
pub struct SendGridConfig {
    /// SendGrid API key
    pub api_key: String,
    /// Sandbox mode (mail won't actually be sent)
    pub sandbox_mode: bool,
    /// IP pool name (optional)
    pub ip_pool_name: Option<String>,
    /// Custom args (metadata), each name once
    pub custom_args: Headers,
    /// Categories/tags
    pub categories: Vec<String>,
    /// Click tracking enabled
    pub click_tracking: bool,
    /// Open tracking enabled
    pub open_tracking: bool,
}

impl Default for SendGridConfig {
    fn default() -> (c: Self)
        ensures
            c.api_key@.len() == 0,
            !c.sandbox_mode,
            c.ip_pool_name is None,
            c.custom_args@.len() == 0,
            c.categories@.len() == 0,
            c.click_tracking,
            c.open_tracking,
    {
        SendGridConfig {
            api_key: String::new(),
            sandbox_mode: false,
            ip_pool_name: None,
            custom_args: Headers::new(),
            categories: Vec::new(),
            click_tracking: true,
            open_tracking: true,
        }
    }
}

/// `{"email": .., "name": ..}` for an address; the name only when set.
pub open spec fn sendgrid_address(a: Address) -> Seq<char> {
    let f = store(Seq::empty(), "email"@, json_quoted(a.email@));
    json_object(
        match a.name {
            Some(n) => store(f, "name"@, json_quoted(n@)),
            None => f,
        },
    )
}

/// The JSON array of the address objects of `addrs`.
pub open spec fn sendgrid_addresses(addrs: Seq<Address>) -> Seq<char> {
    json_array(addrs.map_values(|a: Address| sendgrid_address(a)))
}

/// The custom arguments as a JSON object of strings.
pub open spec fn custom_args_object(args: Seq<(Seq<char>, Seq<char>)>) -> Seq<char> {
    json_object(args.map_values(|kv: (Seq<char>, Seq<char>)| (kv.0, json_quoted(kv.1))))
}

/// The one personalization of a request: recipients and custom arguments.
pub open spec fn sendgrid_personalization(m: Mail, args: Seq<(Seq<char>, Seq<char>)>) -> Seq<char> {
    json_object(personalization_members(m, args))
}

proof fn lemma_personalization_keys()
    ensures
        "to"@ != "cc"@,
        "to"@ != "bcc"@,
        "cc"@ != "bcc"@,
        "to"@ != "custom_args"@,
        "cc"@ != "custom_args"@,
        "bcc"@ != "custom_args"@,
{
    reveal_strlit("to");
    reveal_strlit("cc");
    reveal_strlit("bcc");
    reveal_strlit("custom_args");
    assert("to"@[0] != "cc"@[0]);
    assert("to"@.len() == 2 && "cc"@.len() == 2 && "bcc"@.len() == 3 && "custom_args"@.len() == 11);
}

proof fn lemma_personalization_member(m: Mail, args: Seq<(Seq<char>, Seq<char>)>, k: Seq<char>, present: bool, v: Seq<char>)
    requires
        k == "to"@ ==> present && v == sendgrid_addresses(m.to@),
        k == "cc"@ ==> present == (m.cc@.len() > 0) && v == sendgrid_addresses(m.cc@),
        k == "bcc"@ ==> present == (m.bcc@.len() > 0) && v == sendgrid_addresses(m.bcc@),
        k == "custom_args"@ ==> present == (args.len() > 0) && v == custom_args_object(args),
        k == "to"@ || k == "cc"@ || k == "bcc"@ || k == "custom_args"@,
    ensures
        tracks(personalization_members(m, args), k, present, v),
{
    lemma_personalization_keys();
    let p0 = store(Seq::empty(), "to"@, sendgrid_addresses(m.to@));
    lemma_tracks_empty(k, v);
    let q0 = k == "to"@;
    lemma_tracks_store(Seq::empty(), "to"@, sendgrid_addresses(m.to@), k, q0, v);
    let p1 = if m.cc@.len() > 0 {
        store(p0, "cc"@, sendgrid_addresses(m.cc@))
    } else {
        p0
    };
    let q1 = q0 || (k == "cc"@ && present);
    if m.cc@.len() > 0 {
        lemma_tracks_store(p0, "cc"@, sendgrid_addresses(m.cc@), k, q1, v);
    }
    let p2 = if m.bcc@.len() > 0 {
        store(p1, "bcc"@, sendgrid_addresses(m.bcc@))
    } else {
        p1
    };
    let q2 = q1 || (k == "bcc"@ && present);
    if m.bcc@.len() > 0 {
        lemma_tracks_store(p1, "bcc"@, sendgrid_addresses(m.bcc@), k, q2, v);
    }
    assert(tracks(p2, k, q2, v));
    if args.len() > 0 {
        lemma_tracks_store(p2, "custom_args"@, custom_args_object(args), k, present, v);
    }
}

/// The members of a SendGrid personalization, before they are written
/// out in name order.
pub open spec fn personalization_members(m: Mail, args: Seq<(Seq<char>, Seq<char>)>) -> Seq<(Seq<char>, Seq<char>)> {
    let p = store(Seq::empty(), "to"@, sendgrid_addresses(m.to@));
    let p = if m.cc@.len() > 0 {
        store(p, "cc"@, sendgrid_addresses(m.cc@))
    } else {
        p
    };
    let p = if m.bcc@.len() > 0 {
        store(p, "bcc"@, sendgrid_addresses(m.bcc@))
    } else {
        p
    };
    if args.len() > 0 {
        store(p, "custom_args"@, custom_args_object(args))
    } else {
        p
    }
}

/// A SendGrid personalization is a JSON object whose `to` member lists the
/// primary recipients, whose `cc` member is there exactly when the mail has
/// copy recipients and lists them, whose `bcc` member is there exactly when
/// it has blind copies and lists them, and whose `custom_args` member is
/// there exactly when custom arguments are set.
pub proof fn lemma_sendgrid_personalization_members(m: Mail, args: Seq<(Seq<char>, Seq<char>)>)
    ensures
        exists|f: Seq<(Seq<char>, Seq<char>)>|
            {
                &&& sendgrid_personalization(m, args) == json_object(f)
                &&& tracks(f, "to"@, true, sendgrid_addresses(m.to@))
                &&& tracks(f, "cc"@, m.cc@.len() > 0, sendgrid_addresses(m.cc@))
                &&& tracks(f, "bcc"@, m.bcc@.len() > 0, sendgrid_addresses(m.bcc@))
                &&& tracks(f, "custom_args"@, args.len() > 0, custom_args_object(args))
            },
{
    let f = personalization_members(m, args);
    lemma_personalization_keys();
    lemma_personalization_member(m, args, "to"@, true, sendgrid_addresses(m.to@));
    lemma_personalization_member(m, args, "cc"@, m.cc@.len() > 0, sendgrid_addresses(m.cc@));
    lemma_personalization_member(m, args, "bcc"@, m.bcc@.len() > 0, sendgrid_addresses(m.bcc@));
    lemma_personalization_member(m, args, "custom_args"@, args.len() > 0, custom_args_object(args));
    assert(sendgrid_personalization(m, args) == json_object(f));
}

/// One content entry: `{"type": .., "value": ..}`.
pub open spec fn content_entry(kind: Seq<char>, value: Seq<char>) -> Seq<char> {
    json_object(store(store(Seq::empty(), "type"@, json_quoted(kind)), "value"@, json_quoted(value)))
}

/// The content entries of a body: plain text first, then HTML.
pub open spec fn sendgrid_content(b: BodyView) -> Seq<char> {
    json_array(
        match b {
            BodyView::Text(t) => seq![content_entry("text/plain"@, t)],
            BodyView::Html(h) => seq![content_entry("text/html"@, h)],
            BodyView::Both { html, text } => seq![
                content_entry("text/plain"@, text),
                content_entry("text/html"@, html),
            ],
        },
    )
}

/// One attachment: `{"content": base64, "type": .., "filename": ..}`.
pub open spec fn sendgrid_attachment(a: Attachment) -> Seq<char> {
    let f = store(Seq::empty(), "content"@, json_quoted(base64_standard(a.data@)));
    let f = store(f, "type"@, json_quoted(a.content_type@));
    json_object(store(f, "filename"@, json_quoted(a.filename@)))
}

/// `{"enable": b}`.
pub open spec fn enable_object(b: bool) -> Seq<char> {
    json_object(store(Seq::empty(), "enable"@, json_bool(b)))
}

/// The tracking settings: click and open tracking switches.
pub open spec fn tracking_settings(click: bool, open: bool) -> Seq<char> {
    json_object(
        store(store(Seq::empty(), "click_tracking"@, enable_object(click)), "open_tracking"@, enable_object(open)),
    )
}

/// The plain values of a SendGrid configuration that the request reads.
pub struct SendGridSettings {
    pub sandbox_mode: bool,
    pub ip_pool_name: Option<Seq<char>>,
    pub custom_args: Seq<(Seq<char>, Seq<char>)>,
    pub categories: Seq<Seq<char>>,
    pub click_tracking: bool,
    pub open_tracking: bool,
}

/// The settings view of a configuration.
pub open spec fn settings_of(c: SendGridConfig) -> SendGridSettings {
    SendGridSettings {
        sandbox_mode: c.sandbox_mode,
        ip_pool_name: opt_view(c.ip_pool_name),
        custom_args: c.custom_args@,
        categories: views(c.categories@),
        click_tracking: c.click_tracking,
        open_tracking: c.open_tracking,
    }
}

/// The members of the request body, in the order they are added.
pub open spec fn sendgrid_fields(s: SendGridSettings, m: Mail) -> Seq<(Seq<char>, Seq<char>)> {
    let f = store(
        Seq::empty(),
        "personalizations"@,
        json_array(seq![sendgrid_personalization(m, s.custom_args)]),
    );
    let f = store(f, "from"@, sendgrid_address(m.from));
    let f = store(f, "subject"@, json_quoted(m.subject@));
    let f = match m.reply_to {
        Some(r) => store(f, "reply_to"@, sendgrid_address(r)),
        None => f,
    };
    let f = store(f, "content"@, sendgrid_content(m.body@));
    let f = if m.attachments@.len() > 0 {
        store(
            f,
            "attachments"@,
            json_array(m.attachments@.map_values(|a: Attachment| sendgrid_attachment(a))),
        )
    } else {
        f
    };
    let f = if s.categories.len() > 0 {
        store(f, "categories"@, json_array(s.categories.map_values(|t: Seq<char>| json_quoted(t))))
    } else {
        f
    };
    let f = store(f, "tracking_settings"@, tracking_settings(s.click_tracking, s.open_tracking));
    let f = if s.sandbox_mode {
        store(
            f,
            "mail_settings"@,
            json_object(store(Seq::empty(), "sandbox_mode"@, enable_object(true))),
        )
    } else {
        f
    };
    match s.ip_pool_name {
        Some(p) => store(f, "ip_pool_name"@, json_quoted(p)),
        None => f,
    }
}

/// SendGrid email backend.
#[derive(Debug)]
pub struct SendGridMailer {
    config: SendGridConfig,
}

fn address_object(a: &Address) -> (s: String)
    ensures
        s@ == sendgrid_address(*a),
{
    let mut o = Headers::new();
    put_quoted(&mut o, "email", a.email.as_str());
    match &a.name {
        Some(n) => put_quoted(&mut o, "name", n.as_str()),
        None => {},
    }
    object(&o)
}

fn address_array(addrs: &Vec<Address>) -> (s: String)
    ensures
        s@ == sendgrid_addresses(addrs@),
{
    let mut items: Vec<String> = Vec::new();
    let mut i: usize = 0;
    while i < addrs.len()
        invariant
            i <= addrs.len(),
            views(items@) == addrs@.take(i as int).map_values(|a: Address| sendgrid_address(a)),
        decreases addrs.len() - i,
    {
        let o = address_object(&addrs[i]);
        let ghost before = items@;
        let ghost ov = o@;
        items.push(o);
        proof {
            assert(views(items@) =~= views(before).push(ov));
            assert(views(items@) =~= addrs@.take(i + 1).map_values(|a: Address| sendgrid_address(a)));
        }
        i = i + 1;
    }
    proof {
        assert(addrs@.take(i as int) =~= addrs@);
    }
    array(&items)
}

fn custom_args_text(args: &Headers) -> (s: String)
    ensures
        s@ == custom_args_object(args@),
{
    let pairs = args.pairs();
    let ghost av = args@;
    let mut o = Headers::new();
    let mut i: usize = 0;
    while i < pairs.len()
        invariant
            i <= pairs.len(),
            pairs@.map_values(|e: (String, String)| (e.0@, e.1@)) == av,
            crate::message::keys_distinct(av),
            o@ == av.take(i as int).map_values(
                |kv: (Seq<char>, Seq<char>)| (kv.0, json_quoted(kv.1)),
            ),
        decreases pairs.len() - i,
    {
        let ghost before = o@;
        proof {
            assert(av[i as int] == (pairs@[i as int].0@, pairs@[i as int].1@));
            crate::message::lemma_key_index(before, av[i as int].0);
            if crate::message::key_index(before, av[i as int].0) is Some {
                let j = crate::message::key_index(before, av[i as int].0)->0;
                assert(before[j].0 == av[j].0);
            }
        }
        put_quoted(&mut o, pairs[i].0.as_str(), pairs[i].1.as_str());
        proof {
            assert(o@ =~= av.take(i + 1).map_values(
                |kv: (Seq<char>, Seq<char>)| (kv.0, json_quoted(kv.1)),
            ));
        }
        i = i + 1;
    }
    proof {
        assert(av.take(i as int) =~= av);
    }
    object(&o)
}

fn personalization(mail: &Mail, args: &Headers) -> (s: String)
    ensures
        s@ == sendgrid_personalization(*mail, args@),
{
    let mut p = Headers::new();
    let to = address_array(&mail.to);
    put_raw(&mut p, "to", to.as_str());
    if mail.cc.len() > 0 {
        let cc = address_array(&mail.cc);
        put_raw(&mut p, "cc", cc.as_str());
    }
    if mail.bcc.len() > 0 {
        let bcc = address_array(&mail.bcc);
        put_raw(&mut p, "bcc", bcc.as_str());
    }
    if args.len() > 0 {
        let a = custom_args_text(args);
        put_raw(&mut p, "custom_args", a.as_str());
    }
    object(&p)
}

fn content_object(kind: &str, value: &str) -> (s: String)
    ensures
        s@ == content_entry(kind@, value@),
{
    let mut o = Headers::new();
    put_quoted(&mut o, "type", kind);
    put_quoted(&mut o, "value", value);
    object(&o)
}

fn content_array(body: &MailBody) -> (s: String)
    ensures
        s@ == sendgrid_content(body@),
{
    let mut items: Vec<String> = Vec::new();
    match body {
        MailBody::Text(t) => {
            items.push(content_object("text/plain", t.as_str()));
        },
        MailBody::Html(h) => {
            items.push(content_object("text/html", h.as_str()));
        },
        MailBody::Both { html, text } => {
            items.push(content_object("text/plain", text.as_str()));
            items.push(content_object("text/html", html.as_str()));
        },
    }
    proof {
        match body@ {
            BodyView::Text(t) => assert(views(items@) =~= seq![content_entry("text/plain"@, t)]),
            BodyView::Html(h) => assert(views(items@) =~= seq![content_entry("text/html"@, h)]),
            BodyView::Both { html, text } => assert(views(items@) =~= seq![
                content_entry("text/plain"@, text),
                content_entry("text/html"@, html),
            ]),
        }
    }
    array(&items)
}

fn attachment_object(a: &Attachment) -> (s: String)
    ensures
        s@ == sendgrid_attachment(*a),
{
    let mut o = Headers::new();
    let content = base64_encode(a.data.as_slice());
    put_quoted(&mut o, "content", content.as_str());
    put_quoted(&mut o, "type", a.content_type.as_str());
    put_quoted(&mut o, "filename", a.filename.as_str());
    object(&o)
}

fn attachments_array(atts: &Vec<Attachment>) -> (s: String)
    ensures
        s@ == json_array(atts@.map_values(|a: Attachment| sendgrid_attachment(a))),
{
    let mut items: Vec<String> = Vec::new();
    let mut i: usize = 0;
    while i < atts.len()
        invariant
            i <= atts.len(),
            views(items@) == atts@.take(i as int).map_values(|a: Attachment| sendgrid_attachment(a)),
        decreases atts.len() - i,
    {
        let o = attachment_object(&atts[i]);
        let ghost before = items@;
        let ghost ov = o@;
        items.push(o);
        proof {
            assert(views(items@) =~= views(before).push(ov));
            assert(views(items@) =~= atts@.take(i + 1).map_values(
                |a: Attachment| sendgrid_attachment(a),
            ));
        }
        i = i + 1;
    }
    proof {
        assert(atts@.take(i as int) =~= atts@);
    }
    array(&items)
}

fn enable_text(b: bool) -> (s: String)
    ensures
        s@ == enable_object(b),
{
    let mut o = Headers::new();
    put_raw(&mut o, "enable", bool_text(b));
    object(&o)
}

fn tracking_text(click: bool, open: bool) -> (s: String)
    ensures
        s@ == tracking_settings(click, open),
{
    let mut o = Headers::new();
    let c = enable_text(click);
    put_raw(&mut o, "click_tracking", c.as_str());
    let p = enable_text(open);
    put_raw(&mut o, "open_tracking", p.as_str());
    object(&o)
}

impl SendGridMailer {
    /// Create a new SendGrid mailer.
    pub fn new(config: SendGridConfig) -> (m: Self)
        ensures
            m.config_view() == config,
    {
        SendGridMailer { config }
    }

    /// The configuration this mailer was made with.
    pub closed spec fn config_view(&self) -> SendGridConfig {
        self.config
    }

    /// The configuration this mailer was made with.
    pub fn config(&self) -> (c: &SendGridConfig)
        ensures
            *c == self.config_view(),
    {
        &self.config
    }

    /// The `Authorization` header value: `Bearer` and the API key.
    pub fn authorization(&self) -> (s: String)
        ensures
            s@ == "Bearer "@ + self.config_view().api_key@,
    {
        let mut s = copy_str("Bearer ");
        push_str(&mut s, self.config.api_key.as_str());
        s
    }

    /// The members of the request body that sends `mail`.
    pub fn fields(&self, mail: &Mail) -> (f: Headers)
        ensures
            f@ == sendgrid_fields(settings_of(self.config_view()), *mail),
    {
        let c = &self.config;
        let mut f = Headers::new();
        let p = personalization(mail, &c.custom_args);
        let mut one: Vec<String> = Vec::new();
        one.push(p);
        proof {
            assert(views(one@) =~= seq![sendgrid_personalization(*mail, c.custom_args@)]);
        }
        let ps = array(&one);
        put_raw(&mut f, "personalizations", ps.as_str());
        let from = address_object(&mail.from);
        put_raw(&mut f, "from", from.as_str());
        put_quoted(&mut f, "subject", mail.subject.as_str());
        match &mail.reply_to {
            Some(r) => {
                let o = address_object(r);
                put_raw(&mut f, "reply_to", o.as_str());
            },
            None => {},
        }
        let content = content_array(&mail.body);
        put_raw(&mut f, "content", content.as_str());
        if mail.attachments.len() > 0 {
            let a = attachments_array(&mail.attachments);
            put_raw(&mut f, "attachments", a.as_str());
        }
        if c.categories.len() > 0 {
            let cats = string_array(&c.categories);
            put_raw(&mut f, "categories", cats.as_str());
        }
        let t = tracking_text(c.click_tracking, c.open_tracking);
        put_raw(&mut f, "tracking_settings", t.as_str());
        if c.sandbox_mode {
            let mut ms = Headers::new();
            let e = enable_text(true);
            put_raw(&mut ms, "sandbox_mode", e.as_str());
            let mso = object(&ms);
            put_raw(&mut f, "mail_settings", mso.as_str());
        }
        match &c.ip_pool_name {
            Some(pool) => put_quoted(&mut f, "ip_pool_name", pool.as_str()),
            None => {},
        }
        f
    }

    /// The JSON body of the request that sends `mail`.
    pub fn payload(&self, mail: &Mail) -> (s: String)
        ensures
            s@ == json_object(sendgrid_fields(settings_of(self.config_view()), *mail)),
    {
        let f = self.fields(mail);
        object(&f)
    }
}

} // verus!
