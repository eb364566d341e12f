//! Base64 data URIs for the images that the plugin hands to the host.
use base64::Engine as _;
use vstd::prelude::*;

use crate::text::push_str;

verus! {

/// The character of a six-bit value in the standard base64 alphabet:
/// `A`-`Z`, `a`-`z`, `0`-`9`, `+`, `/`.
pub open spec fn base64_digit(v: int) -> char {
    if v < 26 {
        (65 + v) as char
    } else if v < 52 {
        (97 + v - 26) as char
    } else if v < 62 {
        (48 + v - 52) as char
    } else if v == 62 {
        '+'
    } else {
        '/'
    }
}

/// The standard base64 text of `bytes` (RFC 4648, with padding): each group
/// of three bytes becomes four characters of six bits each, and a last group
/// of one or two bytes is filled with zero bits and padded with `=`.
pub open spec fn base64_standard(bytes: Seq<u8>) -> Seq<char>
    decreases bytes.len(),
{
    if bytes.len() == 0 {
        Seq::empty()
    } else {
        let b0 = bytes[0] as int;
        if bytes.len() == 1 {
            seq![base64_digit(b0 / 4), base64_digit((b0 % 4) * 16), '=', '=']
        } else {
            let b1 = bytes[1] as int;
            if bytes.len() == 2 {
                seq![
                    base64_digit(b0 / 4),
                    base64_digit((b0 % 4) * 16 + b1 / 16),
                    base64_digit((b1 % 16) * 4),
                    '=',
                ]
            } else {
                let b2 = bytes[2] as int;
                seq![
                    base64_digit(b0 / 4),
                    base64_digit((b0 % 4) * 16 + b1 / 16),
                    base64_digit((b1 % 16) * 4 + b2 / 64),
                    base64_digit(b2 % 64),
                ] + base64_standard(bytes.subrange(3, bytes.len() as int))
            }
        }
    }
}

/// Calls `base64::engine::general_purpose::STANDARD.encode`; the contract
/// claims that the result is the padded standard base64 text of the input.
#[verifier::external_body]
fn encode_base64(bytes: &[u8]) -> (s: String)
    ensures
        s@ == base64_standard(bytes@),
{
    base64::engine::general_purpose::STANDARD.encode(bytes)
}

/// The text of a data URI with the given MIME type and base64 payload.
pub open spec fn data_uri_spec(mime: Seq<char>, bytes: Seq<u8>) -> Seq<char> {
    "data:"@ + mime + ";base64,"@ + base64_standard(bytes)
}

/// `data:<mime>;base64,<payload>` for `bytes`.
pub fn data_uri(mime: &str, bytes: &[u8]) -> (s: String)
    ensures
        s@ == data_uri_spec(mime@, bytes@),
{
    let mut s = String::new();
    push_str(&mut s, "data:");
    push_str(&mut s, mime);
    push_str(&mut s, ";base64,");
    let payload = encode_base64(bytes);
    push_str(&mut s, payload.as_str());
    s
}

/// A PNG data URI for `bytes`.
pub fn png_data_uri(bytes: &[u8]) -> (s: String)
    ensures
        s@ == data_uri_spec("image/png"@, bytes@),
{
    data_uri("image/png", bytes)
}

/// The first bytes of a JPEG file.
pub open spec fn starts_jpeg(bytes: Seq<u8>) -> bool {
    bytes.len() >= 3 && bytes[0] == 0xFF && bytes[1] == 0xD8 && bytes[2] == 0xFF
}

/// The first bytes of a PNG file.
pub open spec fn starts_png(bytes: Seq<u8>) -> bool {
    bytes.len() >= 4 && bytes[0] == 0x89 && bytes[1] == 0x50 && bytes[2] == 0x4E && bytes[3]
        == 0x47
}

/// Whether `bytes` starts like a JPEG file.
pub fn is_jpeg(bytes: &[u8]) -> (r: bool)
    ensures
        r == starts_jpeg(bytes@),
{
    bytes.len() >= 3 && bytes[0] == 0xFF && bytes[1] == 0xD8 && bytes[2] == 0xFF
}

/// Whether `bytes` starts like a PNG file.
pub fn is_png(bytes: &[u8]) -> (r: bool)
    ensures
        r == starts_png(bytes@),
{
    bytes.len() >= 4 && bytes[0] == 0x89 && bytes[1] == 0x50 && bytes[2] == 0x4E && bytes[3]
        == 0x47
}

} // verus!
