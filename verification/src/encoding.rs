//! Chunks inside JSON: standard Base64 with padding.

use base64::Engine;
use vstd::prelude::*;

verus! {

/// The Base64 digit with the given value.
pub open spec fn base64_digit(v: int) -> char {
    if v < 26 {
        (0x41 + v) as char
    } else if v < 52 {
        (0x61 + v - 26) as char
    } else if v < 62 {
        (0x30 + v - 52) as char
    } else if v == 62 {
        '+'
    } else {
        '/'
    }
}

/// Three bytes from a position on as one number, with zeros after the end.
pub open spec fn three_bytes(bytes: Seq<u8>, at: int) -> int {
    let byte = |i: int|
        if i < bytes.len() {
            bytes[i] as int
        } else {
            0
        };
    byte(at) * 65536 + byte(at + 1) * 256 + byte(at + 2)
}

/// Bytes in Base64: four digits for every three bytes, from the highest bits
/// down, and `=` where the last group has no more bytes.
pub open spec fn base64_text(bytes: Seq<u8>) -> Seq<char> {
    Seq::new(
        4 * ((bytes.len() + 2) / 3),
        |k: int|
            {
                let at = 3 * (k / 4);
                let group = three_bytes(bytes, at);
                let place = k % 4;
                if at + place > bytes.len() {
                    '='
                } else if place == 0 {
                    base64_digit(group / 262144)
                } else if place == 1 {
                    base64_digit((group / 4096) % 64)
                } else if place == 2 {
                    base64_digit((group / 64) % 64)
                } else {
                    base64_digit(group % 64)
                }
            },
    )
}

/// What decoding a Base64 text gives, if it is one.
pub uninterp spec fn base64_bytes(text: Seq<char>) -> Option<Seq<u8>>;

/// `Engine::encode` of the engine `general_purpose::STANDARD`: the text of the
/// bytes in Base64, with padding.
#[verifier::external_body]
pub(crate) fn base64_encode(bytes: &[u8]) -> (text: String)
    ensures
        text@ == base64_text(bytes@),
{
    base64::engine::general_purpose::STANDARD.encode(bytes)
}

/// `Engine::decode` of the engine `general_purpose::STANDARD`. The bytes that a
/// text stands for, if any, are named `base64_bytes`; of a text that encoding
/// gives they are the bytes that were encoded.
#[verifier::external_body]
pub(crate) fn base64_decode(text: &str) -> (r: Option<Vec<u8>>)
    ensures
        match r {
            Some(bytes) => base64_bytes(text@) == Some(bytes@),
            None => base64_bytes(text@) is None,
        },
        forall|data: Seq<u8>|
            text@ == #[trigger] base64_text(data) ==> r is Some && r->0@ == data,
{
    base64::engine::general_purpose::STANDARD.decode(text).ok()
}

} // verus!
