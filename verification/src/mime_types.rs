//! Content types: the fixed table from file extensions, and types given
//! explicitly as text.

use crate::text::str_eq;
use vstd::prelude::*;

verus! {

/// A content type, held as the text that goes into a `Content-Type` header.
#[derive(Debug, Clone)]
pub struct Mime {
    pub text: String,
}

impl View for Mime {
    type V = Seq<char>;

    open spec fn view(&self) -> Seq<char> {
        self.text@
    }
}

impl PartialEq for Mime {
    fn eq(&self, other: &Self) -> (same: bool) {
        self.text == other.text
    }
}

impl Eq for Mime {

}

impl vstd::std_specs::cmp::PartialEqSpecImpl for Mime {
    open spec fn obeys_eq_spec() -> bool {
        true
    }

    open spec fn eq_spec(&self, other: &Self) -> bool {
        self.text@ == other.text@
    }
}

/// The text that the `mime` crate keeps of the MIME value written as `text`,
/// or `None` where `text` is no MIME value.
pub uninterp spec fn mime_parse(text: Seq<char>) -> Option<Seq<char>>;

/// `<mime::Mime as FromStr>::from_str`, with the parsed value copied out as the
/// text it holds (`AsRef<str>`) and the error turned into `None`. Trusted: the
/// outcome depends on the text alone.
#[verifier::external_body]
fn parse_text(text: &str) -> (parsed: Option<String>)
    ensures
        match parsed {
            Some(t) => mime_parse(text@) == Some(t@),
            None => mime_parse(text@) is None,
        },
{
    match text.parse::<mime::Mime>() {
        Ok(m) => Some(m.as_ref().to_string()),
        Err(_) => None,
    }
}

/// The content type that the fixed table gives to the file extension `ext`.
/// Extensions are matched as they are written: only lower case is known.
pub open spec fn spec_mime_for_extension(ext: Seq<char>) -> Option<Seq<char>> {
    if ext == "txt"@ {
        Some("text/plain"@)
    } else if ext == "html"@ {
        Some("text/html"@)
    } else if ext == "css"@ {
        Some("text/css"@)
    } else if ext == "js"@ {
        Some("text/javascript"@)
    } else if ext == "png"@ {
        Some("image/png"@)
    } else if ext == "jpg"@ || ext == "jpeg"@ {
        Some("image/jpeg"@)
    } else if ext == "jxl"@ {
        Some("image/jxl"@)
    } else if ext == "svg"@ {
        Some("image/svg"@)
    } else if ext == "mp4"@ || ext == "m4v"@ {
        Some("video/mp4"@)
    } else if ext == "mkv"@ {
        Some("video/x-matroska"@)
    } else if ext == "pdf"@ {
        Some("application/pdf"@)
    } else if ext == "wasm"@ {
        Some("application/wasm"@)
    } else {
        None
    }
}

/// The view of an optional content type.
pub open spec fn mime_view(mime: Option<Mime>) -> Option<Seq<char>> {
    match mime {
        Some(m) => Some(m@),
        None => None,
    }
}

impl Mime {
    /// The content type with the text `text`.
    pub fn new(text: &str) -> (mime: Mime)
        ensures
            mime@ == text@,
    {
        Mime { text: text.to_owned() }
    }

    /// The text of the content type.
    pub fn as_str(&self) -> (text: &str)
        ensures
            text@ == self@,
    {
        self.text.as_str()
    }

    /// A copy of the content type.
    pub fn duplicate(&self) -> (copy: Mime)
        ensures
            copy@ == self@,
    {
        Mime { text: self.text.clone() }
    }

    /// The content type written as `text`, or `None` where `text` is no MIME
    /// value.
    pub fn parse(text: &str) -> (mime: Option<Mime>)
        ensures
            mime_view(mime) == mime_parse(text@),
    {
        match parse_text(text) {
            Some(t) => Some(Mime { text: t }),
            None => None,
        }
    }

    /// `text/html`.
    pub fn text_html() -> (mime: Mime)
        ensures
            mime@ == "text/html"@,
    {
        Mime::new("text/html")
    }

    /// `text/plain; charset=utf-8`.
    pub fn text_plain_utf_8() -> (mime: Mime)
        ensures
            mime@ == "text/plain; charset=utf-8"@,
    {
        Mime::new("text/plain; charset=utf-8")
    }
}

/// The content type of a file with the extension `ext`, from the fixed table.
pub fn mime_for_extension(ext: &str) -> (mime: Option<Mime>)
    ensures
        mime_view(mime) == spec_mime_for_extension(ext@),
{
    if str_eq(ext, "txt") {
        Some(Mime::new("text/plain"))
    } else if str_eq(ext, "html") {
        Some(Mime::new("text/html"))
    } else if str_eq(ext, "css") {
        Some(Mime::new("text/css"))
    } else if str_eq(ext, "js") {
        Some(Mime::new("text/javascript"))
    } else if str_eq(ext, "png") {
        Some(Mime::new("image/png"))
    } else if str_eq(ext, "jpg") || str_eq(ext, "jpeg") {
        Some(Mime::new("image/jpeg"))
    } else if str_eq(ext, "jxl") {
        Some(Mime::new("image/jxl"))
    } else if str_eq(ext, "svg") {
        Some(Mime::new("image/svg"))
    } else if str_eq(ext, "mp4") || str_eq(ext, "m4v") {
        Some(Mime::new("video/mp4"))
    } else if str_eq(ext, "mkv") {
        Some(Mime::new("video/x-matroska"))
    } else if str_eq(ext, "pdf") {
        Some(Mime::new("application/pdf"))
    } else if str_eq(ext, "wasm") {
        Some(Mime::new("application/wasm"))
    } else {
        None
    }
}

} // verus!
