//! Mailgun backend: its configuration, the form fields of a send request and
//! the endpoint it is posted to. The application performs the HTTP request.
use vstd::prelude::*;
use crate::address::{address_text, display_texts, texts_of};
use crate::mail::{BodyView, Mail, MailBody};
use crate::message::{Headers, lemma_append_other, lemma_tracks_empty, lemma_tracks_store, store, tracks};
use crate::text::{copy_str, join, join_strings, push_str, views};

verus! {

/// Mailgun API region.
#[derive(Debug, Clone, Copy, PartialEq, Eq, Structural)]
pub enum MailgunRegion {
    /// US region (api.mailgun.net)
    US,
    /// EU region (api.eu.mailgun.net)
    EU,
}

/// The API base URL of a region.
pub open spec fn region_base(r: MailgunRegion) -> Seq<char> {
    match r {
        MailgunRegion::US => "https://api.mailgun.net/v3"@,
        MailgunRegion::EU => "https://api.eu.mailgun.net/v3"@,
    }
}

impl MailgunRegion {
    /// Get the API base URL for the region.
    pub fn api_base(&self) -> (s: &'static str)
        ensures
            s@ == region_base(*self),
    {
        match self {
            MailgunRegion::US => "https://api.mailgun.net/v3",
            MailgunRegion::EU => "https://api.eu.mailgun.net/v3",
        }
    }
}

/// Mailgun mailer configuration.
#[derive(Debug)]
pub struct MailgunConfig {
    /// Mailgun API key
    pub api_key: String,
    /// Sending domain
    pub domain: String,
    /// API region
    pub region: MailgunRegion,
    /// Tags for categorizing emails
    pub tags: Vec<String>,
    /// Enable click tracking
    pub track_clicks: bool,
    /// Enable open tracking
    pub track_opens: bool,
    /// Test mode (doesn't actually send)
    pub test_mode: bool,
}

impl Default for MailgunConfig {
    fn default() -> (c: Self)
        ensures
            c.api_key@.len() == 0,
            c.domain@.len() == 0,
            c.region == MailgunRegion::US,
            c.tags@.len() == 0,
            c.track_clicks,
            c.track_opens,
            !c.test_mode,
    {
        MailgunConfig {
            api_key: String::new(),
            domain: String::new(),
            region: MailgunRegion::US,
            tags: Vec::new(),
            track_clicks: true,
            track_opens: true,
            test_mode: false,
        }
    }
}

/// `"yes"` or `"no"`.
pub open spec fn yes_no(b: bool) -> Seq<char> {
    if b {
        "yes"@
    } else {
        "no"@
    }
}

/// The display texts of a non-empty address list, comma separated, stored
/// under `k`; nothing for an empty list.
pub open spec fn store_list(
    kvs: Seq<(Seq<char>, Seq<char>)>,
    k: Seq<char>,
    addrs: Seq<crate::address::Address>,
) -> Seq<(Seq<char>, Seq<char>)> {
    if addrs.len() == 0 {
        kvs
    } else {
        store(kvs, k, join(texts_of(addrs), ", "@))
    }
}

/// The fields naming the sender, the recipients, the subject and the
/// reply-to address.
pub open spec fn mailgun_envelope(m: Mail) -> Seq<(Seq<char>, Seq<char>)> {
    let f = store(Seq::empty(), "from"@, address_text(m.from));
    let f = store_list(f, "to"@, m.to@);
    let f = store_list(f, "cc"@, m.cc@);
    let f = store_list(f, "bcc"@, m.bcc@);
    let f = store(f, "subject"@, m.subject@);
    match m.reply_to {
        Some(r) => store(f, "h:Reply-To"@, address_text(r)),
        None => f,
    }
}

/// `kvs` with the body part(s) stored under `text` and `html`.
pub open spec fn store_body(kvs: Seq<(Seq<char>, Seq<char>)>, b: BodyView) -> Seq<(Seq<char>, Seq<char>)> {
    match b {
        BodyView::Text(t) => store(kvs, "text"@, t),
        BodyView::Html(h) => store(kvs, "html"@, h),
        BodyView::Both { html, text } => store(store(kvs, "text"@, text), "html"@, html),
    }
}

/// The single-valued fields of a send request: envelope, body, tracking
/// options and test mode, each under its own name.
pub open spec fn mailgun_fields(m: Mail, track_clicks: bool, track_opens: bool, test_mode: bool) -> Seq<
    (Seq<char>, Seq<char>),
> {
    let f = store_body(mailgun_envelope(m), m.body@);
    let f = store(f, "o:tracking-clicks"@, yes_no(track_clicks));
    let f = store(f, "o:tracking-opens"@, yes_no(track_opens));
    if test_mode {
        store(f, "o:testmode"@, "yes"@)
    } else {
        f
    }
}

/// The whole form of a send request, part by part: the single-valued fields,
/// then one `o:tag` part per configured tag, in order.
pub open spec fn mailgun_form(
    m: Mail,
    track_clicks: bool,
    track_opens: bool,
    test_mode: bool,
    tags: Seq<Seq<char>>,
) -> Seq<(Seq<char>, Seq<char>)> {
    mailgun_fields(m, track_clicks, track_opens, test_mode) + tags.map_values(|t: Seq<char>| ("o:tag"@, t))
}

/// The messages endpoint of a domain in a region.
pub open spec fn mailgun_url(region: MailgunRegion, domain: Seq<char>) -> Seq<char> {
    region_base(region) + "/"@ + domain + "/messages"@
}

proof fn lemma_tracks_list(
    kvs: Seq<(Seq<char>, Seq<char>)>,
    k: Seq<char>,
    addrs: Seq<crate::address::Address>,
    k2: Seq<char>,
    present: bool,
    v2: Seq<char>,
)
    requires
        k != k2 ==> tracks(kvs, k2, present, v2),
        k == k2 ==> tracks(kvs, k2, false, v2) && present == (addrs.len() > 0) && v2 == join(
            texts_of(addrs),
            ", "@,
        ),
    ensures
        tracks(store_list(kvs, k, addrs), k2, present, v2),
{
    if addrs.len() > 0 {
        lemma_tracks_store(kvs, k, join(texts_of(addrs), ", "@), k2, present, v2);
    }
}

/// The recipients a form field names: `to`, `cc` or `bcc`.
spec fn recipients_named(m: Mail, k: Seq<char>) -> Seq<crate::address::Address> {
    if k == "to"@ {
        m.to@
    } else if k == "cc"@ {
        m.cc@
    } else {
        m.bcc@
    }
}

proof fn lemma_recipient_keys(k: Seq<char>)
    requires
        k == "to"@ || k == "cc"@ || k == "bcc"@,
    ensures
        k != "from"@,
        k != "subject"@,
        k != "h:Reply-To"@,
        k != "text"@,
        k != "html"@,
        k != "o:tracking-clicks"@,
        k != "o:tracking-opens"@,
        k != "o:testmode"@,
        k != "o:tag"@,
        "to"@ != "cc"@,
        "to"@ != "bcc"@,
        "cc"@ != "bcc"@,
{
    reveal_strlit("to");
    reveal_strlit("cc");
    reveal_strlit("bcc");
    reveal_strlit("from");
    reveal_strlit("subject");
    reveal_strlit("h:Reply-To");
    reveal_strlit("text");
    reveal_strlit("html");
    reveal_strlit("o:tracking-clicks");
    reveal_strlit("o:tracking-opens");
    reveal_strlit("o:testmode");
    reveal_strlit("o:tag");
    assert("to"@[0] != "cc"@[0]);
    assert(k.len() <= 3);
    assert("from"@.len() == 4 && "text"@.len() == 4 && "html"@.len() == 4);
}

proof fn lemma_form_recipient_field(
    m: Mail,
    track_clicks: bool,
    track_opens: bool,
    test_mode: bool,
    tags: Seq<Seq<char>>,
    k: Seq<char>,
)
    requires
        k == "to"@ || k == "cc"@ || k == "bcc"@,
    ensures
        tracks(
            mailgun_form(m, track_clicks, track_opens, test_mode, tags),
            k,
            recipients_named(m, k).len() > 0,
            join(texts_of(recipients_named(m, k)), ", "@),
        ),
{
    lemma_recipient_keys(k);
    let present = recipients_named(m, k).len() > 0;
    let v = join(texts_of(recipients_named(m, k)), ", "@);
    let f0 = store(Seq::empty(), "from"@, address_text(m.from));
    lemma_tracks_empty(k, v);
    lemma_tracks_store(Seq::empty(), "from"@, address_text(m.from), k, false, v);
    let p1 = k == "to"@ && present;
    lemma_tracks_list(f0, "to"@, m.to@, k, p1, v);
    let f1 = store_list(f0, "to"@, m.to@);
    let p2 = p1 || (k == "cc"@ && present);
    lemma_tracks_list(f1, "cc"@, m.cc@, k, p2, v);
    let f2 = store_list(f1, "cc"@, m.cc@);
    lemma_tracks_list(f2, "bcc"@, m.bcc@, k, present, v);
    let f3 = store_list(f2, "bcc"@, m.bcc@);
    lemma_tracks_store(f3, "subject"@, m.subject@, k, present, v);
    let f4 = store(f3, "subject"@, m.subject@);
    let env = mailgun_envelope(m);
    match m.reply_to {
        Some(r) => lemma_tracks_store(f4, "h:Reply-To"@, address_text(r), k, present, v),
        None => {},
    }
    assert(tracks(env, k, present, v));
    let b = store_body(env, m.body@);
    match m.body@ {
        BodyView::Text(t) => lemma_tracks_store(env, "text"@, t, k, present, v),
        BodyView::Html(h) => lemma_tracks_store(env, "html"@, h, k, present, v),
        BodyView::Both { html, text } => {
            lemma_tracks_store(env, "text"@, text, k, present, v);
            lemma_tracks_store(store(env, "text"@, text), "html"@, html, k, present, v);
        },
    }
    assert(tracks(b, k, present, v));
    lemma_tracks_store(b, "o:tracking-clicks"@, yes_no(track_clicks), k, present, v);
    let c = store(b, "o:tracking-clicks"@, yes_no(track_clicks));
    lemma_tracks_store(c, "o:tracking-opens"@, yes_no(track_opens), k, present, v);
    let o = store(c, "o:tracking-opens"@, yes_no(track_opens));
    if test_mode {
        lemma_tracks_store(o, "o:testmode"@, "yes"@, k, present, v);
    }
    let fields = mailgun_fields(m, track_clicks, track_opens, test_mode);
    assert(tracks(fields, k, present, v));
    let tag_parts = tags.map_values(|t: Seq<char>| ("o:tag"@, t));
    assert forall|j: int| 0 <= j < tag_parts.len() implies (#[trigger] tag_parts[j]).0 != k by {
        assert(tag_parts[j].0 == "o:tag"@);
    }
    lemma_append_other(fields, tag_parts, k, v);
}

/// Each recipient field of a Mailgun form is there exactly when the mail
/// has recipients of that kind, and holds them all, comma separated: `to`
/// the primary recipients, `cc` the copy recipients and `bcc` the blind
/// copies, whatever the tags and options.
pub proof fn lemma_mailgun_form_recipients(
    m: Mail,
    track_clicks: bool,
    track_opens: bool,
    test_mode: bool,
    tags: Seq<Seq<char>>,
)
    ensures
        tracks(
            mailgun_form(m, track_clicks, track_opens, test_mode, tags),
            "to"@,
            m.to@.len() > 0,
            join(texts_of(m.to@), ", "@),
        ),
        tracks(
            mailgun_form(m, track_clicks, track_opens, test_mode, tags),
            "cc"@,
            m.cc@.len() > 0,
            join(texts_of(m.cc@), ", "@),
        ),
        tracks(
            mailgun_form(m, track_clicks, track_opens, test_mode, tags),
            "bcc"@,
            m.bcc@.len() > 0,
            join(texts_of(m.bcc@), ", "@),
        ),
{
    lemma_recipient_keys("to"@);
    lemma_form_recipient_field(m, track_clicks, track_opens, test_mode, tags, "to"@);
    lemma_form_recipient_field(m, track_clicks, track_opens, test_mode, tags, "cc"@);
    lemma_form_recipient_field(m, track_clicks, track_opens, test_mode, tags, "bcc"@);
}

/// Mailgun email backend.
#[derive(Debug)]
pub struct MailgunMailer {
    config: MailgunConfig,
}

fn put(form: &mut Headers, key: &str, value: &str)
    ensures
        final(form)@ == store(old(form)@, key@, value@),
{
    form.insert(copy_str(key), copy_str(value));
}

fn put_list(form: &mut Headers, key: &str, addrs: &Vec<crate::address::Address>)
    ensures
        final(form)@ == store_list(old(form)@, key@, addrs@),
{
    if addrs.len() > 0 {
        let parts = display_texts(addrs);
        let joined = join_strings(&parts, ", ");
        put(form, key, joined.as_str());
    }
}

fn envelope(mail: &Mail) -> (form: Headers)
    ensures
        form@ == mailgun_envelope(*mail),
{
    let mut form = Headers::new();
    let from = mail.from.format();
    put(&mut form, "from", from.as_str());
    put_list(&mut form, "to", &mail.to);
    put_list(&mut form, "cc", &mail.cc);
    put_list(&mut form, "bcc", &mail.bcc);
    put(&mut form, "subject", mail.subject.as_str());
    match &mail.reply_to {
        Some(r) => {
            let t = r.format();
            put(&mut form, "h:Reply-To", t.as_str());
        },
        None => {},
    }
    form
}

impl MailgunMailer {
    /// Create a new Mailgun mailer.
    pub fn new(config: MailgunConfig) -> (m: Self)
        ensures
            m.config_view() == config,
    {
        MailgunMailer { config }
    }

    /// The configuration this mailer was made with.
    pub closed spec fn config_view(&self) -> MailgunConfig {
        self.config
    }

    /// The configuration this mailer was made with.
    pub fn config(&self) -> (c: &MailgunConfig)
        ensures
            *c == self.config_view(),
    {
        &self.config
    }

    /// The form parts of the request that sends `mail`, in the order they
    /// are posted: the fields, then one `o:tag` part per configured tag.
    pub fn form(&self, mail: &Mail) -> (form: Vec<(String, String)>)
        ensures
            form@.map_values(|e: (String, String)| (e.0@, e.1@)) == mailgun_form(
                *mail,
                self.config_view().track_clicks,
                self.config_view().track_opens,
                self.config_view().test_mode,
                views(self.config_view().tags@),
            ),
    {
        let mut fields = envelope(mail);
        match &mail.body {
            MailBody::Text(text) => put(&mut fields, "text", text.as_str()),
            MailBody::Html(html) => put(&mut fields, "html", html.as_str()),
            MailBody::Both { html, text } => {
                put(&mut fields, "text", text.as_str());
                put(&mut fields, "html", html.as_str());
            },
        }
        put(&mut fields, "o:tracking-clicks", if self.config.track_clicks { "yes" } else { "no" });
        put(&mut fields, "o:tracking-opens", if self.config.track_opens { "yes" } else { "no" });
        if self.config.test_mode {
            put(&mut fields, "o:testmode", "yes");
        }
        let mut form = fields.pairs();
        let ghost base = form@.map_values(|e: (String, String)| (e.0@, e.1@));
        let tags = &self.config.tags;
        let mut i: usize = 0;
        proof {
            assert(base + views(tags@).take(0).map_values(|t: Seq<char>| ("o:tag"@, t)) =~= base);
        }
        while i < tags.len()
            invariant
                i <= tags.len(),
                tags@ == self.config.tags@,
                form@.map_values(|e: (String, String)| (e.0@, e.1@)) == base + views(tags@).take(
                    i as int,
                ).map_values(|t: Seq<char>| ("o:tag"@, t)),
            decreases tags.len() - i,
        {
            let ghost before = form@;
            form.push((copy_str("o:tag"), copy_str(tags[i].as_str())));
            proof {
                assert(form@.map_values(|e: (String, String)| (e.0@, e.1@)) =~= before.map_values(
                    |e: (String, String)| (e.0@, e.1@),
                ).push(("o:tag"@, tags@[i as int]@)));
                assert(views(tags@).take(i + 1).map_values(|t: Seq<char>| ("o:tag"@, t)) =~= views(
                    tags@,
                ).take(i as int).map_values(|t: Seq<char>| ("o:tag"@, t)).push(("o:tag"@, tags@[i as int]@)));
            }
            i = i + 1;
        }
        proof {
            assert(views(tags@).take(i as int) =~= views(tags@));
        }
        form
    }

    /// The endpoint the request is posted to:
    /// `{region base}/{domain}/messages`.
    pub fn url(&self) -> (s: String)
        ensures
            s@ == mailgun_url(self.config_view().region, self.config_view().domain@),
    {
        let mut s = copy_str(self.config.region.api_base());
        push_str(&mut s, "/");
        push_str(&mut s, self.config.domain.as_str());
        push_str(&mut s, "/messages");
        s
    }
}

/// Mailgun API response.
#[derive(Debug)]
pub struct MailgunResponse {
    /// Mailgun message ID
    pub id: String,
    /// Response message
    pub message: String,
}

} // verus!
