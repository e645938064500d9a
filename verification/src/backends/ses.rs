//! AWS SES backend (SendEmail action): its configuration, the form-encoded
//! request body, the Signature Version 4 `Authorization` header and the
//! reading of the answer. The application performs the HTTP request.
use vstd::prelude::*;
use vstd::utf8::encode_utf8;
use crate::address::{Address, address_text, emails_of, opt_view};
use crate::error::MailError;
use crate::mail::{BodyView, Mail, MailBody};
use crate::message::{Headers, store};
use crate::outside::{
    hex_encode, hex_lower, hmac_sha256, hmac_sha256_of, percent_encode, sha256_digest, sha256_of,
    url_encode, utc_now_format_pair,
};
use crate::text::{
    chars_of, copy_str, decimal, find, find_exec, lemma_find_from, matches_at, join, join_strings, push_decimal, push_str,
    string_of, views,
};

verus! {

/// AWS SES mailer configuration.
#[derive(Debug)]
pub struct SesConfig {
    /// AWS region (e.g., "us-east-1", "eu-west-1")
    pub region: String,
    /// AWS access key ID
    pub access_key_id: String,
    /// AWS secret access key
    pub secret_access_key: String,
    /// Optional session token (for temporary credentials)
    pub session_token: Option<String>,
    /// Configuration set name
    pub configuration_set: Option<String>,
    /// Tags for categorizing emails, each name once
    pub tags: Headers,
    /// Use raw email format (allows more control)
    pub use_raw: bool,
}

impl Default for SesConfig {
    fn default() -> (c: Self)
        ensures
            c.region@ == "us-east-1"@,
            c.access_key_id@.len() == 0,
            c.secret_access_key@.len() == 0,
            c.session_token is None,
            c.configuration_set is None,
            c.tags@.len() == 0,
            !c.use_raw,
    {
        SesConfig {
            region: copy_str("us-east-1"),
            access_key_id: String::new(),
            secret_access_key: String::new(),
            session_token: None,
            configuration_set: None,
            tags: Headers::new(),
            use_raw: false,
        }
    }
}

/// AWS SES API response.
#[derive(Debug)]
pub struct SesResponse {
    /// SES message ID
    pub message_id: String,
}

/// The regional endpoint: `https://email.{region}.amazonaws.com`.
pub open spec fn ses_endpoint(region: Seq<char>) -> Seq<char> {
    "https://email."@ + region + ".amazonaws.com"@
}

/// Stores `prefix` + `1..=n` with the `n` values, in order.
pub open spec fn store_members(
    kvs: Seq<(Seq<char>, Seq<char>)>,
    prefix: Seq<char>,
    values: Seq<Seq<char>>,
) -> Seq<(Seq<char>, Seq<char>)>
    decreases values.len(),
{
    if values.len() == 0 {
        kvs
    } else {
        store(store_members(kvs, prefix, values.drop_last()), prefix + decimal(values.len()), values.last())
    }
}

/// Stores `Tags.member.{i}.Name` and `.Value` for each tag, numbered from 1.
pub open spec fn store_tags(
    kvs: Seq<(Seq<char>, Seq<char>)>,
    tags: Seq<(Seq<char>, Seq<char>)>,
) -> Seq<(Seq<char>, Seq<char>)>
    decreases tags.len(),
{
    if tags.len() == 0 {
        kvs
    } else {
        let prefix = "Tags.member."@ + decimal(tags.len());
        store(
            store(store_tags(kvs, tags.drop_last()), prefix + ".Name"@, tags.last().0),
            prefix + ".Value"@,
            tags.last().1,
        )
    }
}

/// `kvs` with the body part(s) and their character sets stored.
pub open spec fn store_ses_body(kvs: Seq<(Seq<char>, Seq<char>)>, b: BodyView) -> Seq<(Seq<char>, Seq<char>)> {
    match b {
        BodyView::Text(t) => store(
            store(kvs, "Message.Body.Text.Data"@, t),
            "Message.Body.Text.Charset"@,
            "UTF-8"@,
        ),
        BodyView::Html(h) => store(
            store(kvs, "Message.Body.Html.Data"@, h),
            "Message.Body.Html.Charset"@,
            "UTF-8"@,
        ),
        BodyView::Both { html, text } => store(
            store(
                store(
                    store(kvs, "Message.Body.Text.Data"@, text),
                    "Message.Body.Text.Charset"@,
                    "UTF-8"@,
                ),
                "Message.Body.Html.Data"@,
                html,
            ),
            "Message.Body.Html.Charset"@,
            "UTF-8"@,
        ),
    }
}

/// The parameters of the SendEmail request for `m`.
pub open spec fn ses_params(
    configuration_set: Option<Seq<char>>,
    tags: Seq<(Seq<char>, Seq<char>)>,
    m: Mail,
) -> Seq<(Seq<char>, Seq<char>)> {
    let f = store(Seq::empty(), "Action"@, "SendEmail"@);
    let f = store(f, "Source"@, address_text(m.from));
    let f = store_members(f, "Destination.ToAddresses.member."@, emails_of(m.to@));
    let f = store_members(f, "Destination.CcAddresses.member."@, emails_of(m.cc@));
    let f = store_members(f, "Destination.BccAddresses.member."@, emails_of(m.bcc@));
    let f = match m.reply_to {
        Some(r) => store(f, "ReplyToAddresses.member.1"@, r.email@),
        None => f,
    };
    let f = store(f, "Message.Subject.Data"@, m.subject@);
    let f = store(f, "Message.Subject.Charset"@, "UTF-8"@);
    let f = store_ses_body(f, m.body@);
    let f = match configuration_set {
        Some(s) => store(f, "ConfigurationSetName"@, s),
        None => f,
    };
    store_tags(f, tags)
}

/// One `name=value` pair of a form body, both percent-encoded.
pub open spec fn form_pair(kv: (Seq<char>, Seq<char>)) -> Seq<char> {
    percent_encode(encode_utf8(kv.0)) + "="@ + percent_encode(encode_utf8(kv.1))
}

/// A form-encoded body: the pairs joined by `&`.
pub open spec fn form_body(params: Seq<(Seq<char>, Seq<char>)>) -> Seq<char> {
    join(params.map_values(|kv: (Seq<char>, Seq<char>)| form_pair(kv)), "&"@)
}

/// The message for a mail with attachments when raw mode is off.
pub open spec fn no_attachments_text() -> Seq<char> {
    "SES SendEmail does not support attachments. Use use_raw=true for attachments"@
}

/// The credential scope of a signature.
pub open spec fn credential_scope(date_stamp: Seq<char>, region: Seq<char>) -> Seq<char> {
    date_stamp + "/"@ + region + "/ses/aws4_request"@
}

/// The canonical request that is signed: a `POST` of `/` with the digest of
/// an empty payload.
pub open spec fn canonical_request() -> Seq<char> {
    "POST\n/\n\n\n\n"@ + hex_lower(sha256_of(Seq::empty()))
}

/// The string to sign.
pub open spec fn string_to_sign(amz_date: Seq<char>, scope: Seq<char>) -> Seq<char> {
    "AWS4-HMAC-SHA256\n"@ + amz_date + "\n"@ + scope + "\n"@ + hex_lower(
        sha256_of(encode_utf8(canonical_request())),
    )
}

/// The derived signing key: HMAC chained over the date, the region, the
/// service and the terminator, keyed first by `AWS4` and the secret.
pub open spec fn signing_key(secret: Seq<char>, date_stamp: Seq<char>, region: Seq<char>) -> Seq<u8> {
    let k_date = hmac_sha256_of(encode_utf8("AWS4"@ + secret), encode_utf8(date_stamp));
    let k_region = hmac_sha256_of(k_date, encode_utf8(region));
    let k_service = hmac_sha256_of(k_region, encode_utf8("ses"@));
    hmac_sha256_of(k_service, encode_utf8("aws4_request"@))
}

/// The `Authorization` header for a request signed at the given date stamp
/// (`%Y%m%d`) and time (`%Y%m%dT%H%M%SZ`).
pub open spec fn ses_authorization(
    access_key_id: Seq<char>,
    secret: Seq<char>,
    region: Seq<char>,
    date_stamp: Seq<char>,
    amz_date: Seq<char>,
) -> Seq<char> {
    let scope = credential_scope(date_stamp, region);
    let signature = hex_lower(
        hmac_sha256_of(
            signing_key(secret, date_stamp, region),
            encode_utf8(string_to_sign(amz_date, scope)),
        ),
    );
    "AWS4-HMAC-SHA256 Credential="@ + access_key_id + "/"@ + scope
        + ", SignedHeaders=host;x-amz-date, Signature="@ + signature
}

/// The SES `Authorization` header is AWS Signature Version 4 for a `POST`
/// of `/` with an empty payload: the credential scope is
/// `date/region/ses/aws4_request`, and the signature is the lower-case hex
/// HMAC-SHA256 of the string to sign under the key
/// `HMAC(HMAC(HMAC(HMAC("AWS4" + secret, date), region), "ses"), "aws4_request")`.
pub proof fn lemma_ses_authorization_is_sigv4(
    access_key_id: Seq<char>,
    secret: Seq<char>,
    region: Seq<char>,
    date_stamp: Seq<char>,
    amz_date: Seq<char>,
)
    ensures
        ({
            let scope = date_stamp + "/"@ + region + "/ses/aws4_request"@;
            let payload_hash = hex_lower(sha256_of(Seq::<u8>::empty()));
            let request_hash = hex_lower(sha256_of(encode_utf8("POST\n/\n\n\n\n"@ + payload_hash)));
            let to_sign = "AWS4-HMAC-SHA256\n"@ + amz_date + "\n"@ + scope + "\n"@ + request_hash;
            let k_date = hmac_sha256_of(encode_utf8("AWS4"@ + secret), encode_utf8(date_stamp));
            let k_region = hmac_sha256_of(k_date, encode_utf8(region));
            let k_service = hmac_sha256_of(k_region, encode_utf8("ses"@));
            let k_signing = hmac_sha256_of(k_service, encode_utf8("aws4_request"@));
            ses_authorization(access_key_id, secret, region, date_stamp, amz_date)
                == "AWS4-HMAC-SHA256 Credential="@ + access_key_id + "/"@ + scope
                + ", SignedHeaders=host;x-amz-date, Signature="@ + hex_lower(
                hmac_sha256_of(k_signing, encode_utf8(to_sign)),
            )
        }),
{
}

/// The message id in an SES answer: the text after the first `<MessageId>`,
/// up to the next `</MessageId>` (or the next `<MessageId>`, or the end);
/// `None` when the answer has no `<MessageId>`.
pub open spec fn ses_message_id(xml: Seq<char>) -> Option<Seq<char>> {
    match find(xml, "<MessageId>"@) {
        None => None,
        Some(i) => {
            let rest = xml.skip(i + 11);
            let piece = match find(rest, "<MessageId>"@) {
                Some(j) => rest.take(j),
                None => rest,
            };
            Some(
                match find(piece, "</MessageId>"@) {
                    Some(k) => piece.take(k),
                    None => piece,
                },
            )
        },
    }
}

/// AWS SES email backend.
#[derive(Debug)]
pub struct SesMailer {
    config: SesConfig,
}

fn put(params: &mut Headers, key: &str, value: &str)
    ensures
        final(params)@ == store(old(params)@, key@, value@),
{
    params.insert(copy_str(key), copy_str(value));
}

fn numbered(prefix: &str, n: usize) -> (s: String)
    ensures
        s@ == prefix@ + decimal(n as nat),
{
    let mut s = copy_str(prefix);
    push_decimal(&mut s, n as u64);
    s
}

fn put_members(params: &mut Headers, prefix: &str, addrs: &Vec<Address>)
    ensures
        final(params)@ == store_members(old(params)@, prefix@, emails_of(addrs@)),
{
    let ghost start = params@;
    let mut i: usize = 0;
    while i < addrs.len()
        invariant
            i <= addrs.len(),
            params@ == store_members(start, prefix@, emails_of(addrs@).take(i as int)),
        decreases addrs.len() - i,
    {
        proof {
            assert(emails_of(addrs@).take(i + 1).drop_last() =~= emails_of(addrs@).take(i as int));
        }
        let key = numbered(prefix, i + 1);
        put(params, key.as_str(), addrs[i].email.as_str());
        i = i + 1;
    }
    proof {
        assert(emails_of(addrs@).take(i as int) =~= emails_of(addrs@));
    }
}

fn put_tags(params: &mut Headers, tags: &Headers)
    ensures
        final(params)@ == store_tags(old(params)@, tags@),
{
    let pairs = tags.pairs();
    let ghost tv = tags@;
    let ghost start = params@;
    let mut i: usize = 0;
    while i < pairs.len()
        invariant
            i <= pairs.len(),
            pairs@.map_values(|e: (String, String)| (e.0@, e.1@)) == tv,
            params@ == store_tags(start, tv.take(i as int)),
        decreases pairs.len() - i,
    {
        proof {
            assert(tv.take(i + 1).drop_last() =~= tv.take(i as int));
            assert(tv[i as int] == (pairs@[i as int].0@, pairs@[i as int].1@));
        }
        let mut name_key = numbered("Tags.member.", i + 1);
        let mut value_key = copy_str(name_key.as_str());
        push_str(&mut name_key, ".Name");
        push_str(&mut value_key, ".Value");
        put(params, name_key.as_str(), pairs[i].0.as_str());
        put(params, value_key.as_str(), pairs[i].1.as_str());
        i = i + 1;
    }
    proof {
        assert(tv.take(i as int) =~= tv);
    }
}

fn put_body(params: &mut Headers, body: &MailBody)
    ensures
        final(params)@ == store_ses_body(old(params)@, body@),
{
    match body {
        MailBody::Text(text) => {
            put(params, "Message.Body.Text.Data", text.as_str());
            put(params, "Message.Body.Text.Charset", "UTF-8");
        },
        MailBody::Html(html) => {
            put(params, "Message.Body.Html.Data", html.as_str());
            put(params, "Message.Body.Html.Charset", "UTF-8");
        },
        MailBody::Both { html, text } => {
            put(params, "Message.Body.Text.Data", text.as_str());
            put(params, "Message.Body.Text.Charset", "UTF-8");
            put(params, "Message.Body.Html.Data", html.as_str());
            put(params, "Message.Body.Html.Charset", "UTF-8");
        },
    }
}

/// The form-encoded body of `params`: each name and value percent-encoded,
/// `name=value` pairs joined by `&`.
pub fn encode_form(params: &Headers) -> (s: String)
    ensures
        s@ == form_body(params@),
{
    let pairs = params.pairs();
    let ghost pv = params@;
    let mut parts: Vec<String> = Vec::new();
    let mut i: usize = 0;
    while i < pairs.len()
        invariant
            i <= pairs.len(),
            pairs@.map_values(|e: (String, String)| (e.0@, e.1@)) == pv,
            views(parts@) == pv.take(i as int).map_values(|kv: (Seq<char>, Seq<char>)| form_pair(kv)),
        decreases pairs.len() - i,
    {
        let mut p = url_encode(pairs[i].0.as_str());
        push_str(&mut p, "=");
        let v = url_encode(pairs[i].1.as_str());
        push_str(&mut p, v.as_str());
        let ghost before = parts@;
        let ghost ppv = p@;
        parts.push(p);
        proof {
            assert(pv[i as int] == (pairs@[i as int].0@, pairs@[i as int].1@));
            assert(views(parts@) =~= views(before).push(ppv));
            assert(views(parts@) =~= pv.take(i + 1).map_values(
                |kv: (Seq<char>, Seq<char>)| form_pair(kv),
            ));
        }
        i = i + 1;
    }
    proof {
        assert(pv.take(i as int) =~= pv);
    }
    join_strings(&parts, "&")
}

/// Reads the message id out of an SES answer; an answer without a
/// `<MessageId>` element is a failed send.
pub fn parse_response(xml: &str) -> (r: Result<SesResponse, MailError>)
    ensures
        match ses_message_id(xml@) {
            Some(id) => r is Ok && r->Ok_0.message_id@ == id,
            None => r matches Err(MailError::SendFailed(m)) && m@ == "Failed to parse SES response"@,
        },
{
    let v = chars_of(xml);
    let open = chars_of("<MessageId>");
    let close = chars_of("</MessageId>");
    proof {
        reveal_strlit("<MessageId>");
        reveal_strlit("</MessageId>");
        lemma_find_from(v@, open@, 0);
    }
    match find_exec(&v, &open, 0) {
        None => Err(MailError::SendFailed(copy_str("Failed to parse SES response"))),
        Some(i) => {
            proof {
                assert(open@ == "<MessageId>"@);
                assert(open@.len() == 11);
                assert(matches_at(v@, open@, i as int));
                assert(i + 11 <= v.len());
            }
            let start = i + 11;
            let rest = string_of(&v, start, v.len());
            let rv = chars_of(rest.as_str());
            proof {
                lemma_find_from(rv@, open@, 0);
            }
            let piece_end = match find_exec(&rv, &open, 0) {
                Some(j) => j,
                None => rv.len(),
            };
            proof {
                assert(rv@ =~= xml@.skip(i + 11));
            }
            let piece = string_of(&rv, 0, piece_end);
            let pv = chars_of(piece.as_str());
            proof {
                lemma_find_from(pv@, close@, 0);
            }
            let id_end = match find_exec(&pv, &close, 0) {
                Some(k) => k,
                None => pv.len(),
            };
            proof {
                assert(rv@.subrange(0, piece_end as int) =~= match find(rv@, "<MessageId>"@) {
                    Some(j) => rv@.take(j),
                    None => rv@,
                });
            }
            let id = string_of(&pv, 0, id_end);
            proof {
                assert(pv@.subrange(0, id_end as int) =~= match find(pv@, "</MessageId>"@) {
                    Some(k) => pv@.take(k),
                    None => pv@,
                });
            }
            Ok(SesResponse { message_id: id })
        },
    }
}

impl SesMailer {
    /// Create a new SES mailer.
    pub fn new(config: SesConfig) -> (m: Self)
        ensures
            m.config_view() == config,
    {
        SesMailer { config }
    }

    /// The configuration this mailer was made with.
    pub closed spec fn config_view(&self) -> SesConfig {
        self.config
    }

    /// The configuration this mailer was made with.
    pub fn config(&self) -> (c: &SesConfig)
        ensures
            *c == self.config_view(),
    {
        &self.config
    }

    /// The SES endpoint URL of the configured region.
    pub fn endpoint_url(&self) -> (s: String)
        ensures
            s@ == ses_endpoint(self.config_view().region@),
    {
        let mut s = copy_str("https://email.");
        push_str(&mut s, self.config.region.as_str());
        push_str(&mut s, ".amazonaws.com");
        s
    }

    /// The parameters of the SendEmail request for `mail`; a mail without a
    /// sender email is refused.
    pub fn params(&self, mail: &Mail) -> (r: Result<Headers, MailError>)
        ensures
            mail.from.email@.len() == 0 <==> r is Err,
            match r {
                Ok(p) => p@ == ses_params(
                    opt_view(self.config_view().configuration_set),
                    self.config_view().tags@,
                    *mail,
                ),
                Err(MailError::InvalidMessage(m)) => m@ == "Missing 'from' address"@,
                Err(_) => false,
            },
    {
        if mail.from.email.as_str().is_empty() {
            return Err(MailError::InvalidMessage(copy_str("Missing 'from' address")));
        }
        let mut p = Headers::new();
        put(&mut p, "Action", "SendEmail");
        let source = mail.from.format();
        put(&mut p, "Source", source.as_str());
        put_members(&mut p, "Destination.ToAddresses.member.", &mail.to);
        put_members(&mut p, "Destination.CcAddresses.member.", &mail.cc);
        put_members(&mut p, "Destination.BccAddresses.member.", &mail.bcc);
        match &mail.reply_to {
            Some(r) => put(&mut p, "ReplyToAddresses.member.1", r.email.as_str()),
            None => {},
        }
        put(&mut p, "Message.Subject.Data", mail.subject.as_str());
        put(&mut p, "Message.Subject.Charset", "UTF-8");
        put_body(&mut p, &mail.body);
        match &self.config.configuration_set {
            Some(s) => put(&mut p, "ConfigurationSetName", s.as_str()),
            None => {},
        }
        put_tags(&mut p, &self.config.tags);
        Ok(p)
    }

    /// The form-encoded body of the request that sends `mail`. SendEmail
    /// carries no attachments, so a mail with attachments is refused unless
    /// raw mode is on; then a mail without a sender email is refused.
    pub fn request_body(&self, mail: &Mail) -> (r: Result<String, MailError>)
        ensures
            (mail.attachments@.len() > 0 && !self.config_view().use_raw)
                ==> (r matches Err(MailError::SendFailed(m)) && m@ == no_attachments_text()),
            !(mail.attachments@.len() > 0 && !self.config_view().use_raw) ==> {
                &&& (mail.from.email@.len() == 0 <==> r is Err)
                &&& match r {
                    Ok(b) => b@ == form_body(
                        ses_params(
                            opt_view(self.config_view().configuration_set),
                            self.config_view().tags@,
                            *mail,
                        ),
                    ),
                    Err(MailError::InvalidMessage(m)) => m@ == "Missing 'from' address"@,
                    Err(_) => false,
                }
            },
    {
        if mail.attachments.len() > 0 && !self.config.use_raw {
            return Err(
                MailError::SendFailed(
                    copy_str(
                        "SES SendEmail does not support attachments. Use use_raw=true for attachments",
                    ),
                ),
            );
        }
        match self.params(mail) {
            Ok(p) => Ok(encode_form(&p)),
            Err(e) => Err(e),
        }
    }

    /// The Signature Version 4 `Authorization` header for a request signed
    /// at the given date stamp and time.
    pub fn authorization_at(&self, date_stamp: &str, amz_date: &str) -> (s: String)
        ensures
            s@ == ses_authorization(
                self.config_view().access_key_id@,
                self.config_view().secret_access_key@,
                self.config_view().region@,
                date_stamp@,
                amz_date@,
            ),
    {
        let c = &self.config;
        let mut scope = copy_str(date_stamp);
        push_str(&mut scope, "/");
        push_str(&mut scope, c.region.as_str());
        push_str(&mut scope, "/ses/aws4_request");
        let empty: Vec<u8> = Vec::new();
        let empty_digest = sha256_digest(empty.as_slice());
        let mut canonical = copy_str("POST\n/\n\n\n\n");
        let hashed_empty = hex_encode(empty_digest.as_slice());
        push_str(&mut canonical, hashed_empty.as_str());
        let canonical_digest = sha256_digest(canonical.as_str().as_bytes());
        let mut to_sign = copy_str("AWS4-HMAC-SHA256\n");
        push_str(&mut to_sign, amz_date);
        push_str(&mut to_sign, "\n");
        push_str(&mut to_sign, scope.as_str());
        push_str(&mut to_sign, "\n");
        let hashed_canonical = hex_encode(canonical_digest.as_slice());
        push_str(&mut to_sign, hashed_canonical.as_str());
        let mut base = copy_str("AWS4");
        push_str(&mut base, c.secret_access_key.as_str());
        let k_date = hmac_sha256(base.as_str().as_bytes(), date_stamp.as_bytes());
        let k_region = hmac_sha256(k_date.as_slice(), c.region.as_str().as_bytes());
        let k_service = hmac_sha256(k_region.as_slice(), "ses".as_bytes());
        let k_signing = hmac_sha256(k_service.as_slice(), "aws4_request".as_bytes());
        let sig_bytes = hmac_sha256(k_signing.as_slice(), to_sign.as_str().as_bytes());
        let signature = hex_encode(sig_bytes.as_slice());
        let mut auth = copy_str("AWS4-HMAC-SHA256 Credential=");
        push_str(&mut auth, c.access_key_id.as_str());
        push_str(&mut auth, "/");
        push_str(&mut auth, scope.as_str());
        push_str(&mut auth, ", SignedHeaders=host;x-amz-date, Signature=");
        push_str(&mut auth, signature.as_str());
        proof {
            assert(empty@ =~= Seq::<u8>::empty());
        }
        auth
    }

    /// The `Authorization` header for a request signed now (UTC): the
    /// credential-scope date is the date the request time begins with.
    pub fn sign_request(&self) -> (s: String)
        ensures
            exists|date_stamp: Seq<char>, amz_date: Seq<char>|
                date_stamp.is_prefix_of(amz_date) && s@ == ses_authorization(
                    self.config_view().access_key_id@,
                    self.config_view().secret_access_key@,
                    self.config_view().region@,
                    date_stamp,
                    amz_date,
                ),
    {
        proof {
            reveal_strlit("%Y%m%d");
            reveal_strlit("%Y%m%dT%H%M%SZ");
        }
        let (date_stamp, amz_date) = utc_now_format_pair("%Y%m%d", "%Y%m%dT%H%M%SZ");
        self.authorization_at(date_stamp.as_str(), amz_date.as_str())
    }
}

} // verus!
