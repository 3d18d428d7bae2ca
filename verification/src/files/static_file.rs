//! A file built into the binary.
use http::HeaderValue;
use vstd::prelude::*;

verus! {

#[verifier::external_type_specification]
#[verifier::external_body]
pub struct ExHeaderValue(http::HeaderValue);

/// Whether `text` may stand as a header value: every character is a tab,
/// or at least a space and not DEL (characters beyond ASCII are accepted).
pub open spec fn valid_header_text(text: Seq<char>) -> bool {
    forall|i: int| 0 <= i < text.len() ==> (#[trigger] text[i] == '\t' || (' ' <= text[i] && text[i] != '\u{7f}'))
}

/// A header value, with the bytes it holds; only `header_value` makes one.
pub struct HeaderText {
    value: HeaderValue,
    bytes: Ghost<Seq<u8>>,
}

impl HeaderText {
    /// The header value.
    pub closed spec fn header(&self) -> HeaderValue {
        self.value
    }

    /// The bytes the header value holds.
    pub closed spec fn bytes(&self) -> Seq<u8> {
        self.bytes@
    }

    /// The header value.
    pub fn value(&self) -> (value: &HeaderValue)
        ensures
            *value == self.header(),
    {
        &self.value
    }

    /// The header value, taken out.
    pub fn into_value(self) -> (value: HeaderValue)
        ensures
            value == self.header(),
    {
        self.value
    }
}

/// `http::HeaderValue::from_str`: accepts `text` when each of its UTF-8 bytes
/// is a tab, or at least 32 and not 127; every byte of a character beyond
/// ASCII is at least 128, so this is `valid_header_text`. The value it gives
/// holds the UTF-8 bytes of `text` as they are.
#[verifier::external_body]
fn header_value(text: &str) -> (value: Option<HeaderText>)
    ensures
        value is Some == valid_header_text(text@),
        value matches Some(v) ==> v.bytes() == vstd::utf8::encode_utf8(text@),
{
    match HeaderValue::from_str(text) {
        Ok(value) => Some(HeaderText { value, bytes: Ghost(vstd::utf8::encode_utf8(text@)) }),
        Err(_) => None,
    }
}

/// A file built into the binary, served under `name` with its MIME type.
pub struct StaticFile {
    pub name: &'static str,
    pub mime: String,
    pub file_contents: &'static [u8],
}

impl StaticFile {
    /// The `Content-Type` header the file is served with: its MIME type,
    /// when that may stand as a header value; otherwise the header is left out.
    pub fn content_type(&self) -> (value: Option<HeaderText>)
        ensures
            value is Some == valid_header_text(self.mime@),
            value matches Some(v) ==> v.bytes() == vstd::utf8::encode_utf8(self.mime@),
    {
        header_value(self.mime.as_str())
    }

    /// The bytes the file is served with.
    pub fn body(&self) -> (body: &'static [u8])
        ensures
            body@ == self.file_contents@,
    {
        self.file_contents
    }
}

} // verus!
