//! Email attachments.
use vstd::prelude::*;
use crate::outside::{str_lower, str_to_lowercase};
use crate::text::{copy_str, split_char, split_on_char, str_eq, lemma_split_char_nonempty};

verus! {

/// Email attachment.
#[derive(Debug)]
pub struct Attachment {
    /// Filename
    pub filename: String,
    /// Content type (MIME type)
    pub content_type: String,
    /// Attachment data
    pub data: Vec<u8>,
}

/// Whether two attachments hold the same name, type and bytes.
pub open spec fn same_attachment(a: Attachment, b: Attachment) -> bool {
    a.filename@ == b.filename@ && a.content_type@ == b.content_type@ && a.data@ == b.data@
}

/// Whether two attachment lists agree element by element.
pub open spec fn same_attachments(a: Seq<Attachment>, b: Seq<Attachment>) -> bool {
    a.len() == b.len() && forall|i: int|
        0 <= i < a.len() ==> same_attachment(#[trigger] a[i], b[i])
}

/// Total number of bytes in a list of attachments.
pub open spec fn total_size(atts: Seq<Attachment>) -> nat
    decreases atts.len(),
{
    if atts.len() == 0 {
        0
    } else {
        total_size(atts.drop_last()) + atts.last().data@.len()
    }
}

/// Copies a byte vector.
pub fn copy_bytes(v: &Vec<u8>) -> (r: Vec<u8>)
    ensures
        r@ == v@,
{
    let mut r: Vec<u8> = Vec::new();
    let mut i: usize = 0;
    while i < v.len()
        invariant
            i <= v.len(),
            r@ == v@.take(i as int),
        decreases v.len() - i,
    {
        r.push(v[i]);
        proof {
            assert(v@.take(i + 1) =~= v@.take(i as int).push(v@[i as int]));
        }
        i = i + 1;
    }
    proof {
        assert(v@.take(i as int) =~= v@);
    }
    r
}

impl Attachment {
    /// Create new attachment.
    pub fn new(filename: &str, content_type: &str, data: Vec<u8>) -> (a: Self)
        ensures
            a.filename@ == filename@,
            a.content_type@ == content_type@,
            a.data@ == data@,
    {
        Attachment { filename: copy_str(filename), content_type: copy_str(content_type), data }
    }

    /// Create attachment from data.
    pub fn from_data(data: Vec<u8>, filename: String, content_type: String) -> (a: Self)
        ensures
            a.filename@ == filename@,
            a.content_type@ == content_type@,
            a.data@ == data@,
    {
        Attachment { filename, content_type, data }
    }

    /// Size in bytes.
    pub fn size(&self) -> (n: usize)
        ensures
            n == self.data@.len(),
    {
        self.data.len()
    }

    /// A copy of this attachment.
    pub fn duplicate(&self) -> (a: Self)
        ensures
            same_attachment(a, *self),
    {
        Attachment {
            filename: copy_str(self.filename.as_str()),
            content_type: copy_str(self.content_type.as_str()),
            data: copy_bytes(&self.data),
        }
    }
}

impl Clone for Attachment {
    fn clone(&self) -> (a: Self)
        ensures
            same_attachment(a, *self),
    {
        self.duplicate()
    }
}

/// Copies an attachment list.
pub fn copy_attachments(v: &Vec<Attachment>) -> (r: Vec<Attachment>)
    ensures
        same_attachments(r@, v@),
{
    let mut r: Vec<Attachment> = Vec::new();
    let mut i: usize = 0;
    while i < v.len()
        invariant
            i <= v.len(),
            r@.len() == i,
            forall|j: int| 0 <= j < i ==> same_attachment(#[trigger] r@[j], v@[j]),
        decreases v.len() - i,
    {
        r.push(v[i].duplicate());
        i = i + 1;
    }
    r
}

/// The MIME type for a lowercase file extension; unknown extensions are
/// `application/octet-stream`.
pub open spec fn content_type_for(ext: Seq<char>) -> Seq<char> {
    if ext == "pdf"@ {
        "application/pdf"@
    } else if ext == "txt"@ {
        "text/plain"@
    } else if ext == "html"@ {
        "text/html"@
    } else if ext == "css"@ {
        "text/css"@
    } else if ext == "js"@ {
        "application/javascript"@
    } else if ext == "json"@ {
        "application/json"@
    } else if ext == "xml"@ {
        "application/xml"@
    } else if ext == "zip"@ {
        "application/zip"@
    } else if ext == "jpg"@ || ext == "jpeg"@ {
        "image/jpeg"@
    } else if ext == "png"@ {
        "image/png"@
    } else if ext == "gif"@ {
        "image/gif"@
    } else if ext == "svg"@ {
        "image/svg+xml"@
    } else if ext == "csv"@ {
        "text/csv"@
    } else if ext == "doc"@ {
        "application/msword"@
    } else if ext == "docx"@ {
        "application/vnd.openxmlformats-officedocument.wordprocessingml.document"@
    } else if ext == "xls"@ {
        "application/vnd.ms-excel"@
    } else if ext == "xlsx"@ {
        "application/vnd.openxmlformats-officedocument.spreadsheetml.sheet"@
    } else {
        "application/octet-stream"@
    }
}

/// The MIME type for an already lowercased file extension.
pub fn content_type_for_extension(ext: &str) -> (t: String)
    ensures
        t@ == content_type_for(ext@),
{
    if str_eq(ext, "pdf") {
        copy_str("application/pdf")
    } else if str_eq(ext, "txt") {
        copy_str("text/plain")
    } else if str_eq(ext, "html") {
        copy_str("text/html")
    } else if str_eq(ext, "css") {
        copy_str("text/css")
    } else if str_eq(ext, "js") {
        copy_str("application/javascript")
    } else if str_eq(ext, "json") {
        copy_str("application/json")
    } else if str_eq(ext, "xml") {
        copy_str("application/xml")
    } else if str_eq(ext, "zip") {
        copy_str("application/zip")
    } else if str_eq(ext, "jpg") || str_eq(ext, "jpeg") {
        copy_str("image/jpeg")
    } else if str_eq(ext, "png") {
        copy_str("image/png")
    } else if str_eq(ext, "gif") {
        copy_str("image/gif")
    } else if str_eq(ext, "svg") {
        copy_str("image/svg+xml")
    } else if str_eq(ext, "csv") {
        copy_str("text/csv")
    } else if str_eq(ext, "doc") {
        copy_str("application/msword")
    } else if str_eq(ext, "docx") {
        copy_str("application/vnd.openxmlformats-officedocument.wordprocessingml.document")
    } else if str_eq(ext, "xls") {
        copy_str("application/vnd.ms-excel")
    } else if str_eq(ext, "xlsx") {
        copy_str("application/vnd.openxmlformats-officedocument.spreadsheetml.sheet")
    } else {
        copy_str("application/octet-stream")
    }
}

/// The text after the last `.` of a filename (the whole name when it has no
/// `.`).
pub open spec fn extension_of(filename: Seq<char>) -> Seq<char> {
    split_char(filename, '.').last()
}

/// Guess the MIME type of a file from its name: the text after the last `.`,
/// lowercased, looked up in the table of known extensions.
pub fn guess_content_type(filename: &str) -> (t: String)
    ensures
        t@ == content_type_for(str_lower(extension_of(filename@))),
{
    let parts = split_on_char(filename, '.');
    proof {
        lemma_split_char_nonempty(filename@, '.');
    }
    let last = &parts[parts.len() - 1];
    let lower = str_to_lowercase(last.as_str());
    content_type_for_extension(lower.as_str())
}

} // verus!
