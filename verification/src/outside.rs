//! Calls into outside crates and into the parts of std that vstd leaves
//! unspecified. Each item states what the called code does, as far as its
//! documentation and source show; where that takes pages, the result carries a
//! name of its own that the rest of the library speaks of.
use vstd::prelude::*;
use vstd::utf8::encode_utf8;
use crate::text::views;

verus! {

// ---------------------------------------------------------------------------
// uuid
// ---------------------------------------------------------------------------

/// A fresh random identifier: `uuid::Uuid::new_v4().to_string()`. The value is
/// random; what holds of every outcome is that the hyphenated form is
/// `Hyphenated::LENGTH` (36) characters long.
#[verifier::external_body]
pub(crate) fn new_uuid_string() -> (s: String)
    ensures
        s@.len() == 36,
{
    uuid::Uuid::new_v4().to_string()
}

// ---------------------------------------------------------------------------
// chrono
// ---------------------------------------------------------------------------

/// The strftime patterns this library renders timestamps with.
pub open spec fn known_time_format(fmt: Seq<char>) -> bool {
    ||| fmt == "%Y%m%d"@
    ||| fmt == "%Y%m%dT%H%M%SZ"@
    ||| fmt == "%Y%m%dT%H%M%S%3f"@
}

/// `chrono::Utc::now().format(fmt).to_string()`. Rendering panics on an
/// invalid pattern, so only the library's fixed, valid patterns are admitted.
/// The text depends on the clock, so nothing is stated of it.
#[verifier::external_body]
pub(crate) fn utc_now_format(fmt: &str) -> (s: String)
    requires
        known_time_format(fmt@),
{
    chrono::Utc::now().format(fmt).to_string()
}

/// One reading of `chrono::Utc::now()` rendered with two patterns, so that
/// both texts describe the same instant. The texts depend on the clock; what
/// is stated is what holds at every instant: the date `%Y%m%d` of that
/// reading begins its timestamp `%Y%m%dT%H%M%SZ`, since chrono renders the
/// same leading specifiers of one instant to the same text.
#[verifier::external_body]
pub(crate) fn utc_now_format_pair(first: &str, second: &str) -> (s: (String, String))
    requires
        known_time_format(first@),
        known_time_format(second@),
    ensures
        first@ == "%Y%m%d"@ && second@ == "%Y%m%dT%H%M%SZ"@ ==> s.0@.is_prefix_of(s.1@),
{
    let now = chrono::Utc::now();
    (now.format(first).to_string(), now.format(second).to_string())
}

/// `chrono::Utc::now().to_rfc2822()`; nothing is stated of the text.
#[verifier::external_body]
pub(crate) fn utc_now_rfc2822() -> (s: String) {
    chrono::Utc::now().to_rfc2822()
}

/// `chrono::Utc::now().to_rfc3339()`; nothing is stated of the text.
#[verifier::external_body]
pub(crate) fn utc_now_rfc3339() -> (s: String) {
    chrono::Utc::now().to_rfc3339()
}

// ---------------------------------------------------------------------------
// regex
// ---------------------------------------------------------------------------

/// Whether `regex::Regex::new` accepts `pattern`.
pub uninterp spec fn regex_is_valid(pattern: Seq<char>) -> bool;

/// The pieces of `text` between the matches of `pattern`
/// (`regex::Regex::split`).
pub uninterp spec fn regex_split_of(pattern: Seq<char>, text: Seq<char>) -> Seq<Seq<char>>;

/// For each successive non-overlapping match of `pattern` in `text`
/// (`regex::Regex::captures_iter`, the matches `replace_all` replaces), the text of each capture group in order,
/// group 0 being the whole match and a non-participating group being `None`.
pub uninterp spec fn regex_captures_of(pattern: Seq<char>, text: Seq<char>) -> Seq<Seq<Option<Seq<char>>>>;

/// The character views of the groups of one match.
pub open spec fn group_views(caps: Seq<Option<String>>) -> Seq<Option<Seq<char>>> {
    caps.map_values(|g: Option<String>| match g {
        Some(t) => Some(t@),
        None => None,
    })
}

// ---------------------------------------------------------------------------
// pulldown-cmark
// ---------------------------------------------------------------------------

/// The HTML that pulldown-cmark renders for `markdown` with tables,
/// strikethrough and task lists enabled.
pub uninterp spec fn commonmark_html(markdown: Seq<char>) -> Seq<char>;

/// `pulldown_cmark::html::push_html` over `Parser::new_ext(markdown, options)`
/// with `ENABLE_TABLES | ENABLE_STRIKETHROUGH | ENABLE_TASKLISTS`, into a fresh
/// string.
#[verifier::external_body]
pub(crate) fn render_commonmark(markdown: &str) -> (html: String)
    ensures
        html@ == commonmark_html(markdown@),
{
    let mut options = pulldown_cmark::Options::empty();
    options.insert(pulldown_cmark::Options::ENABLE_TABLES);
    options.insert(pulldown_cmark::Options::ENABLE_STRIKETHROUGH);
    options.insert(pulldown_cmark::Options::ENABLE_TASKLISTS);
    let parser = pulldown_cmark::Parser::new_ext(markdown, options);
    let mut out = String::new();
    pulldown_cmark::html::push_html(&mut out, parser);
    out
}

// ---------------------------------------------------------------------------
// base64, hex, sha2, hmac, urlencoding
// ---------------------------------------------------------------------------

/// The character of the standard base64 alphabet for `v < 64`:
/// `A`-`Z`, `a`-`z`, `0`-`9`, `+`, `/`.
pub open spec fn base64_char(v: int) -> char {
    if v < 26 {
        (65 + v) as char
    } else if v < 52 {
        (71 + v) as char
    } else if v < 62 {
        (v - 4) as char
    } else if v == 62 {
        '+'
    } else {
        '/'
    }
}

/// Standard (RFC 4648, padded) base64 of `data`: each group of three bytes
/// becomes four characters of six bits each; a final group of two bytes
/// gives three characters and `=`, one byte two characters and `==`.
pub open spec fn base64_standard(data: Seq<u8>) -> Seq<char>
    decreases data.len(),
{
    if data.len() == 0 {
        Seq::empty()
    } else if data.len() == 1 {
        seq![base64_char((data[0] as int) / 4), base64_char(((data[0] as int) % 4) * 16), '=', '=']
    } else if data.len() == 2 {
        seq![
            base64_char((data[0] as int) / 4),
            base64_char(((data[0] as int) % 4) * 16 + (data[1] as int) / 16),
            base64_char(((data[1] as int) % 16) * 4),
            '=',
        ]
    } else {
        seq![
            base64_char((data[0] as int) / 4),
            base64_char(((data[0] as int) % 4) * 16 + (data[1] as int) / 16),
            base64_char(((data[1] as int) % 16) * 4 + (data[2] as int) / 64),
            base64_char((data[2] as int) % 64),
        ] + base64_standard(data.skip(3))
    }
}

/// `base64::engine::general_purpose::STANDARD.encode(data)`.
#[verifier::external_body]
pub(crate) fn base64_encode(data: &[u8]) -> (s: String)
    ensures
        s@ == base64_standard(data@),
{
    base64::Engine::encode(&base64::engine::general_purpose::STANDARD, data)
}

/// The lowercase hexadecimal digit for `d < 16`.
pub open spec fn hex_digit_lower(d: u8) -> char {
    if d < 10 {
        (48 + d) as char
    } else {
        (87 + d) as char
    }
}

/// Two lowercase hexadecimal digits per byte, high nibble first.
pub open spec fn hex_lower(data: Seq<u8>) -> Seq<char>
    decreases data.len(),
{
    if data.len() == 0 {
        Seq::empty()
    } else {
        hex_lower(data.drop_last()) + seq![
            hex_digit_lower(data.last() / 16),
            hex_digit_lower(data.last() % 16),
        ]
    }
}

/// `hex::encode(data)`: each byte as two lowercase hexadecimal digits.
#[verifier::external_body]
pub(crate) fn hex_encode(data: &[u8]) -> (s: String)
    ensures
        s@ == hex_lower(data@),
{
    hex::encode(data)
}

/// The SHA-256 digest of `data`.
pub uninterp spec fn sha256_of(data: Seq<u8>) -> Seq<u8>;

/// `sha2::Sha256::digest(data)`, as a vector of its 32 bytes.
#[verifier::external_body]
pub(crate) fn sha256_digest(data: &[u8]) -> (d: Vec<u8>)
    ensures
        d@ == sha256_of(data@),
        d@.len() == 32,
{
    <sha2::Sha256 as sha2::Digest>::digest(data).to_vec()
}

/// HMAC-SHA-256 of `msg` under `key`.
pub uninterp spec fn hmac_sha256_of(key: Seq<u8>, msg: Seq<u8>) -> Seq<u8>;

/// `hmac::Hmac<sha2::Sha256>::new_from_slice(key)`, updated with `msg` and
/// finalized. HMAC accepts keys of any length (its `new_from_slice` always
/// returns `Ok`), so the call cannot fail.
#[verifier::external_body]
pub(crate) fn hmac_sha256(key: &[u8], msg: &[u8]) -> (d: Vec<u8>)
    ensures
        d@ == hmac_sha256_of(key@, msg@),
        d@.len() == 32,
{
    let mut mac = <hmac::Hmac<sha2::Sha256> as hmac::Mac>::new_from_slice(key).expect(
        "HMAC accepts any key length",
    );
    hmac::Mac::update(&mut mac, msg);
    hmac::Mac::finalize(mac).into_bytes().to_vec()
}

/// Whether a byte is left as is by URL encoding: ASCII alphanumerics and
/// `-`, `_`, `.`, `~`.
pub open spec fn url_unreserved(b: u8) -> bool {
    ||| 48 <= b <= 57
    ||| 65 <= b <= 90
    ||| 97 <= b <= 122
    ||| b == 45
    ||| b == 46
    ||| b == 95
    ||| b == 126
}

/// The uppercase hexadecimal digit for `d < 16`.
pub open spec fn hex_digit_upper(d: u8) -> char {
    if d < 10 {
        (48 + d) as char
    } else {
        (55 + d) as char
    }
}

/// Percent-encoding of a byte string: unreserved bytes kept, every other
/// byte written `%HH` with uppercase hexadecimal digits.
pub open spec fn percent_encode(data: Seq<u8>) -> Seq<char>
    decreases data.len(),
{
    if data.len() == 0 {
        Seq::empty()
    } else {
        let b = data.last();
        percent_encode(data.drop_last()) + if url_unreserved(b) {
            seq![b as char]
        } else {
            seq!['%', hex_digit_upper(b / 16), hex_digit_upper(b % 16)]
        }
    }
}

/// `urlencoding::encode(s)`: the percent-encoding of the UTF-8 bytes of `s`.
#[verifier::external_body]
pub(crate) fn url_encode(s: &str) -> (r: String)
    ensures
        r@ == percent_encode(encode_utf8(s@)),
{
    urlencoding::encode(s).into_owned()
}

// ---------------------------------------------------------------------------
// Unicode case (std)
// ---------------------------------------------------------------------------

/// Unicode `Uppercase` property of a character (`char::is_uppercase`).
pub uninterp spec fn is_upper(c: char) -> bool;

/// `c.is_uppercase()`.
#[verifier::external_body]
pub(crate) fn char_is_uppercase(c: char) -> (r: bool)
    ensures
        r == is_upper(c),
{
    c.is_uppercase()
}

/// Unicode numeric property of a character (`char::is_numeric`: general
/// categories `Nd`, `Nl` and `No`).
pub uninterp spec fn is_numeric_char(c: char) -> bool;

/// `c.is_numeric()`.
#[verifier::external_body]
pub(crate) fn char_is_numeric(c: char) -> (r: bool)
    ensures
        r == is_numeric_char(c),
{
    c.is_numeric()
}

/// The full Unicode lowercase mapping of a character (`char::to_lowercase`).
pub uninterp spec fn char_lower(c: char) -> Seq<char>;

/// `c.to_lowercase()`, collected into a string.
#[verifier::external_body]
pub(crate) fn char_to_lowercase(c: char) -> (r: String)
    ensures
        r@ == char_lower(c),
{
    c.to_lowercase().collect()
}

/// The full Unicode uppercase mapping of a character (`char::to_uppercase`).
pub uninterp spec fn char_upper(c: char) -> Seq<char>;

/// `c.to_uppercase()`, collected into a string.
#[verifier::external_body]
pub(crate) fn char_to_uppercase(c: char) -> (r: String)
    ensures
        r@ == char_upper(c),
{
    c.to_uppercase().collect()
}

/// The Unicode lowercase form of a string (`str::to_lowercase`).
pub uninterp spec fn str_lower(s: Seq<char>) -> Seq<char>;

/// `s.to_lowercase()`.
#[verifier::external_body]
pub(crate) fn str_to_lowercase(s: &str) -> (r: String)
    ensures
        r@ == str_lower(s@),
{
    s.to_lowercase()
}

} // verus!
