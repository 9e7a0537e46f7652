//! Helpers of the generated REST client: form encoding of query values, deep-object query
//! parameters and the classification of response content types.
use vstd::prelude::*;

use crate::text::{contains_text, starts_with, text_contains, text_starts_with};

verus! {

/// A byte that the form-urlencoded serializer copies as it is:
/// `*`, `-`, `.`, `0`..=`9`, `A`..=`Z`, `_`, `a`..=`z`.
pub open spec fn form_byte_unchanged(b: u8) -> bool {
    b == 0x2a || b == 0x2d || b == 0x2e || (0x30 <= b && b <= 0x39) || (0x41 <= b && b <= 0x5a)
        || b == 0x5f || (0x61 <= b && b <= 0x7a)
}

/// The upper-case hexadecimal digit of a value below 16.
pub open spec fn hex_digit_upper(d: u8) -> char {
    if d < 10 {
        (0x30 + d) as char
    } else {
        (0x41 + d - 10) as char
    }
}

/// The form-urlencoded text of one byte: the byte itself, `+` for a space, or `%XX`.
pub open spec fn form_encode_byte(b: u8) -> Seq<char> {
    if form_byte_unchanged(b) {
        seq![b as char]
    } else if b == 0x20 {
        seq!['+']
    } else {
        seq!['%', hex_digit_upper(b / 16), hex_digit_upper(b % 16)]
    }
}

/// The `application/x-www-form-urlencoded` serialization of a byte sequence.
pub open spec fn form_urlencoded(bytes: Seq<u8>) -> Seq<char>
    decreases bytes.len(),
{
    if bytes.len() == 0 {
        Seq::empty()
    } else {
        form_encode_byte(bytes[0]) + form_urlencoded(bytes.drop_first())
    }
}

/// Calls `url::form_urlencoded::byte_serialize` and collects its pieces. The contract states
/// what that function's source does to each byte: bytes in `*-.0-9A-Z_a-z` are kept, a space
/// becomes `+`, and every other byte becomes `%` and two upper-case hexadecimal digits.
#[verifier::external_body]
fn form_byte_serialize(bytes: &[u8]) -> (r: String)
    ensures
        r@ == form_urlencoded(bytes@),
{
    url::form_urlencoded::byte_serialize(bytes).collect()
}

/// Form-urlencode a text: its UTF-8 bytes through the form-urlencoded byte serializer.
pub fn urlencode(s: &str) -> (r: String)
    ensures
        r@ == form_urlencoded(vstd::utf8::encode_utf8(s@)),
{
    form_byte_serialize(s.as_bytes())
}

/// A character that form-urlencoded text is made of: ASCII letters and digits, `*`, `-`,
/// `.`, `_`, `+` and `%`.
pub open spec fn is_form_char(c: char) -> bool {
    ('a' <= c && c <= 'z') || ('A' <= c && c <= 'Z') || ('0' <= c && c <= '9') || c == '*' || c
        == '-' || c == '.' || c == '_' || c == '+' || c == '%'
}

/// Form-urlencoded text holds only letters, digits, `*-._`, `+` and `%`: no space, `&`, `=`
/// or other character that would end or split a query value.
pub proof fn law_form_urlencoded_chars(bytes: Seq<u8>)
    ensures
        forall|i: int|
            0 <= i < form_urlencoded(bytes).len() ==> is_form_char(
                #[trigger] form_urlencoded(bytes)[i],
            ),
    decreases bytes.len(),
{
    if bytes.len() > 0 {
        law_form_urlencoded_chars(bytes.drop_first());
        let b = bytes[0];
        let head = form_encode_byte(b);
        assert forall|i: int| 0 <= i < head.len() implies is_form_char(#[trigger] head[i]) by {
            if form_byte_unchanged(b) {
                assert(head[i] == b as char);
                assert((b as char) as u32 == b as u32);
            } else if b != 0x20 {
                let hi = b / 16;
                let lo = b % 16;
                assert(hex_digit_upper(hi) as u32 == if hi < 10 { 0x30 + hi } else { 0x41 + hi - 10 });
                assert(hex_digit_upper(lo) as u32 == if lo < 10 { 0x30 + lo } else { 0x41 + lo - 10 });
            }
        }
        let rest = form_urlencoded(bytes.drop_first());
        assert forall|i: int| 0 <= i < form_urlencoded(bytes).len() implies is_form_char(
            #[trigger] form_urlencoded(bytes)[i],
        ) by {
            if i < head.len() {
                assert(form_urlencoded(bytes)[i] == head[i]);
            } else {
                assert(form_urlencoded(bytes)[i] == rest[i - head.len()]);
            }
        }
    }
}

/// A content type supported by the client.
#[derive(Debug, Clone, PartialEq, Eq)]
pub enum ContentType {
    Json,
    Text,
    Unsupported(String),
}

impl ContentType {
    /// Classify a content type: `application/...json...` is JSON, `text/plain...` is text,
    /// anything else is unsupported and kept as given.
    pub fn from(content_type: &str) -> (r: ContentType)
        ensures
            if starts_with(content_type@, "application"@) && contains_text(content_type@, "json"@) {
                r == ContentType::Json
            } else if starts_with(content_type@, "text/plain"@) {
                r == ContentType::Text
            } else {
                r matches ContentType::Unsupported(t) && t@ == content_type@
            },
    {
        if text_starts_with(content_type, "application") && text_contains(content_type, "json") {
            ContentType::Json
        } else if text_starts_with(content_type, "text/plain") {
            ContentType::Text
        } else {
            ContentType::Unsupported(content_type.to_owned())
        }
    }
}

} // verus!
