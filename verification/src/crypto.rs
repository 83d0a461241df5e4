//! Hex, hashes, addresses and signatures.

use crate::text::{decimal, decimal_text, join_text, strip_0x, without_0x};
use vstd::prelude::*;
use vstd::slice::slice_to_vec;
use vstd::string::*;
use vstd::utf8::*;

verus! {

/// An account or contract address.
pub type Address = [u8; 20];

/// A key or digest.
pub type Key32 = [u8; 32];

// ---------------------------------------------------------------------------
// Hex
// ---------------------------------------------------------------------------

/// The value of a hex digit, in either case.
pub open spec fn hex_digit(b: u8) -> Option<u8> {
    if 0x30 <= b <= 0x39 {
        Some((b - 0x30) as u8)
    } else if 0x61 <= b <= 0x66 {
        Some((b - 0x61 + 10) as u8)
    } else if 0x41 <= b <= 0x46 {
        Some((b - 0x41 + 10) as u8)
    } else {
        None
    }
}

/// Whether every byte is a hex digit.
pub open spec fn hex_digits(digits: Seq<u8>) -> bool {
    forall|i: int| 0 <= i < digits.len() ==> hex_digit(#[trigger] digits[i]) is Some
}

/// Whether the digits write whole bytes in hex.
pub open spec fn is_hex(digits: Seq<u8>) -> bool {
    digits.len() % 2 == 0 && hex_digits(digits)
}

/// The bytes that hex digits write.
pub open spec fn hex_bytes(digits: Seq<u8>) -> Seq<u8> {
    Seq::new(
        digits.len() / 2,
        |i: int|
            (hex_digit(digits[2 * i])->0 * 16 + hex_digit(digits[2 * i + 1])->0) as u8,
    )
}

/// The lower-case hex digit with the given value.
pub open spec fn hex_char(v: int) -> char {
    if v < 10 {
        (0x30 + v) as char
    } else {
        (0x61 + v - 10) as char
    }
}

/// Bytes written in lower-case hex.
pub open spec fn hex_text(bytes: Seq<u8>) -> Seq<char> {
    Seq::new(
        2 * bytes.len(),
        |i: int|
            if i % 2 == 0 {
                hex_char(bytes[i / 2] as int / 16)
            } else {
                hex_char(bytes[i / 2] as int % 16)
            },
    )
}

/// How many hex digits stand before the first byte that is none.
pub open spec fn leading_digits(digits: Seq<u8>) -> nat
    decreases digits.len(),
{
    if digits.len() == 0 || hex_digit(digits[0]) is None {
        0
    } else {
        1 + leading_digits(digits.skip(1))
    }
}

/// Whether a byte is a letter or a figure of ASCII.
pub open spec fn is_alphanumeric(b: u8) -> bool {
    0x30 <= b <= 0x39 || 0x41 <= b <= 0x5a || 0x61 <= b <= 0x7a
}

/// Whether hex digits are wrong in a way whose wording is plain: their number is
/// odd, or the first byte that is no digit is a letter or a figure.
pub open spec fn plainly_wrong(digits: Seq<u8>) -> bool {
    let at = leading_digits(digits);
    digits.len() % 2 != 0 || (at < digits.len() && is_alphanumeric(digits[at as int]))
}

/// The wording where hex digits are plainly wrong.
pub open spec fn plain_hex_error(digits: Seq<u8>) -> Seq<char> {
    let at = leading_digits(digits);
    if digits.len() % 2 != 0 {
        "Odd number of digits"@
    } else {
        "Invalid character '"@ + seq![digits[at as int] as char] + "' at position "@ + decimal(at)
    }
}

/// How `hex::FromHexError` words what is wrong with the digits where it is not
/// plain how the byte at fault is written.
pub uninterp spec fn hex_fault(digits: Seq<u8>) -> Seq<char>;

/// What is wrong with hex digits, in words.
pub open spec fn hex_error(digits: Seq<u8>) -> Seq<char> {
    if plainly_wrong(digits) {
        plain_hex_error(digits)
    } else {
        hex_fault(digits)
    }
}

/// `hex::decode`: succeeds exactly on an even number of hex digits in either
/// case, and gives the bytes they write. Its error says that the number is odd,
/// or names the first byte that is no digit and where it stands. How it writes
/// such a byte is stated for letters and figures; for other bytes the text is
/// named `hex_fault`.
#[verifier::external_body]
pub(crate) fn hex_decode(s: &str) -> (r: Result<Vec<u8>, String>)
    ensures
        match r {
            Ok(bytes) => is_hex(encode_utf8(s@)) && bytes@ == hex_bytes(encode_utf8(s@)),
            Err(e) => !is_hex(encode_utf8(s@)) && e@ == if plainly_wrong(encode_utf8(s@)) {
                plain_hex_error(encode_utf8(s@))
            } else {
                hex_fault(encode_utf8(s@))
            },
        },
{
    match hex::decode(s) {
        Ok(bytes) => Ok(bytes),
        Err(e) => Err(e.to_string()),
    }
}

/// `hex::encode`: two lower-case digits for each byte, the high half first.
#[verifier::external_body]
pub(crate) fn hex_encode(bytes: &[u8]) -> (s: String)
    ensures
        s@ == hex_text(bytes@),
{
    hex::encode(bytes)
}

/// What is written in hex reads back as the same bytes.
pub proof fn law_hex_round_trip(bytes: Seq<u8>)
    ensures
        is_ascii_chars(hex_text(bytes)),
        is_hex(encode_utf8(hex_text(bytes))),
        hex_bytes(encode_utf8(hex_text(bytes))) == bytes,
{
    let text = hex_text(bytes);
    assert(is_ascii_chars(text));
    is_ascii_chars_encode_utf8(text);
    let digits = encode_utf8(text);
    assert forall|i: int| 0 <= i < digits.len() implies hex_digit(#[trigger] digits[i]) == Some(
        (if i % 2 == 0 {
            bytes[i / 2] / 16
        } else {
            bytes[i / 2] % 16
        }) as u8,
    ) by {
        assert(text[i] as u8 == digits[i]);
    }
    assert(hex_bytes(digits) =~= bytes) by {
        assert forall|i: int| 0 <= i < bytes.len() implies hex_bytes(digits)[i] == bytes[i] by {
            assert(hex_digit(digits[2 * i]) == Some((bytes[i] / 16) as u8));
            assert(hex_digit(digits[2 * i + 1]) == Some((bytes[i] % 16) as u8));
        }
    }
}

// ---------------------------------------------------------------------------
// Hash and address
// ---------------------------------------------------------------------------

/// The Keccak-256 digest of some bytes, as thirty-two bytes.
pub uninterp spec fn digest_of(data: Seq<u8>) -> Key32;

/// The Keccak-256 digest of some bytes.
pub open spec fn keccak(data: Seq<u8>) -> Seq<u8> {
    digest_of(data)@
}

/// `alloy::primitives::keccak256`: the Keccak-256 digest, named `digest_of`.
#[verifier::external_body]
pub(crate) fn keccak256(data: &[u8]) -> (digest: Key32)
    ensures
        digest == digest_of(data@),
{
    alloy::primitives::keccak256(data).0
}

/// The digits of an address text: what follows one optional `0x` or `0X`.
pub open spec fn address_digits(s: Seq<char>) -> Seq<u8> {
    let bytes = encode_utf8(s);
    if bytes.len() >= 2 && bytes[0] == 0x30 && (bytes[1] == 0x78 || bytes[1] == 0x58) {
        bytes.skip(2)
    } else {
        bytes
    }
}

/// Whether a text is an address: forty hex digits after one optional prefix.
pub open spec fn is_address(s: Seq<char>) -> bool {
    address_digits(s).len() == 40 && hex_digits(address_digits(s))
}

/// How alloy words what is wrong with an address text.
pub uninterp spec fn address_error(s: Seq<char>) -> Seq<char>;

/// `alloy::primitives::Address::from_str`: succeeds exactly on forty hex digits
/// after one optional `0x` or `0X`, and gives the twenty bytes they write. The
/// text of its error is named `address_error`.
#[verifier::external_body]
pub(crate) fn parse_address(s: &str) -> (r: Result<Address, String>)
    ensures
        match r {
            Ok(address) => is_address(s@) && address@ == hex_bytes(address_digits(s@)),
            Err(e) => !is_address(s@) && e@ == address_error(s@),
        },
{
    match s.parse::<alloy::primitives::Address>() {
        Ok(address) => Ok(address.into_array()),
        Err(e) => Err(e.to_string()),
    }
}

// ---------------------------------------------------------------------------
// Signature recovery
// ---------------------------------------------------------------------------

/// The parity that the last byte of a raw signature stands for, if any.
pub open spec fn parity_of(v: u8) -> Option<bool> {
    if v == 0 || v == 27 {
        Some(false)
    } else if v == 1 || v == 28 {
        Some(true)
    } else if v >= 35 {
        Some(v % 2 == 0)
    } else {
        None
    }
}

/// How alloy's `Debug` output words a signature whose last byte is no parity.
pub open spec fn parity_error(v: u8) -> Seq<char> {
    "InvalidParity("@ + decimal(v as nat) + ")"@
}

/// `alloy::signers::Signature::try_from` on sixty-five bytes: succeeds exactly
/// when the last byte is a known parity value, and gives that parity; the error
/// is given in its `Debug` form.
#[verifier::external_body]
pub(crate) fn signature_parity(raw: &[u8]) -> (r: Result<bool, String>)
    requires
        raw@.len() == 65,
    ensures
        match r {
            Ok(odd) => parity_of(raw@[64]) == Some(odd),
            Err(e) => parity_of(raw@[64]) is None && e@ == parity_error(raw@[64]),
        },
{
    match alloy::signers::Signature::try_from(raw) {
        Ok(signature) => Ok(signature.v()),
        Err(e) => Err(format!("{:?}", e)),
    }
}

/// What signature recovery gives: the signer's address, or why there is none.
pub uninterp spec fn recovered(raw: Seq<u8>, digest: Seq<u8>) -> Result<Seq<u8>, Seq<char>>;

/// `Signature::recover_address_from_prehash` of alloy, on the signature that
/// `Signature::try_from` reads from sixty-five bytes. The outcome, an address or
/// the text of the error, is named `recovered`.
#[verifier::external_body]
pub(crate) fn recover_signer(raw: &[u8], digest: &Key32) -> (r: Result<Address, String>)
    requires
        raw@.len() == 65,
        parity_of(raw@[64]) is Some,
    ensures
        match r {
            Ok(address) => recovered(raw@, digest@) == Ok::<Seq<u8>, Seq<char>>(address@),
            Err(e) => recovered(raw@, digest@) == Err::<Seq<u8>, Seq<char>>(e@),
        },
{
    let hash = alloy::primitives::B256::from(*digest);
    match alloy::signers::Signature::try_from(raw) {
        Ok(signature) => match signature.recover_address_from_prehash(&hash) {
            Ok(address) => Ok(address.into_array()),
            Err(e) => Err(e.to_string()),
        },
        Err(e) => Err(e.to_string()),
    }
}

/// The bytes that a signer hashes and signs for a key: `0x00`, then the key
/// without its own prefix.
pub open spec fn message_for(key: Seq<char>) -> Seq<u8> {
    encode_utf8("0x00"@ + without_0x(key))
}

/// The bytes that are hashed and signed for a key.
pub fn signed_message(key: &str) -> (message: Vec<u8>)
    ensures
        message@ == message_for(key@),
{
    let text = join_text("0x00", strip_0x(key).as_str());
    slice_to_vec(text.as_str().as_bytes())
}

/// The raw signature that a text writes in hex, or why it is none.
pub open spec fn raw_signature(signature: Seq<char>) -> Result<Seq<u8>, Seq<char>> {
    let digits = encode_utf8(without_0x(signature));
    if !is_hex(digits) {
        Err("Invalid signature: "@ + hex_error(digits))
    } else if digits.len() != 130 {
        Err("Invalid signature length: expected 65, got "@ + decimal(digits.len() / 2))
    } else if parity_of(hex_bytes(digits)[64]) is None {
        Err("Invalid signature format: "@ + parity_error(hex_bytes(digits)[64]))
    } else {
        Ok(hex_bytes(digits))
    }
}

/// Reads a signature from hex: sixty-five bytes that end in a known parity.
pub fn decode_signature(signature_str: &str) -> (r: Result<Vec<u8>, String>)
    ensures
        match r {
            Ok(raw) => raw_signature(signature_str@) == Ok::<Seq<u8>, Seq<char>>(raw@)
                && raw@.len() == 65 && parity_of(raw@[64]) is Some,
            Err(e) => raw_signature(signature_str@) == Err::<Seq<u8>, Seq<char>>(e@),
        },
{
    let digits = strip_0x(signature_str);
    match hex_decode(digits.as_str()) {
        Err(e) => Err(join_text("Invalid signature: ", e.as_str())),
        Ok(raw) => {
            if raw.len() != 65 {
                return Err(
                    join_text(
                        "Invalid signature length: expected 65, got ",
                        decimal_text(raw.len() as u64).as_str(),
                    ),
                );
            }
            match signature_parity(raw.as_slice()) {
                Err(e) => Err(join_text("Invalid signature format: ", e.as_str())),
                Ok(_) => Ok(raw),
            }
        },
    }
}

/// The outcome of recovery as it is reported.
pub open spec fn reported(outcome: Result<Seq<u8>, Seq<char>>) -> Result<Seq<u8>, Seq<char>> {
    match outcome {
        Ok(address) => Ok(address),
        Err(e) => Err("Recover address failed: "@ + e),
    }
}

/// Whether an executable outcome is the given one.
pub open spec fn address_result(r: Result<Address, String>) -> Result<Seq<u8>, Seq<char>> {
    match r {
        Ok(address) => Ok(address@),
        Err(e) => Err(e@),
    }
}

/// Words the outcome of a recovery.
pub fn report_recovery(outcome: Result<Address, String>) -> (r: Result<Address, String>)
    ensures
        address_result(r) == reported(address_result(outcome)),
{
    match outcome {
        Ok(address) => Ok(address),
        Err(e) => Err(join_text("Recover address failed: ", e.as_str())),
    }
}

/// Who signed a key: the address recovered from the signature and the digest of
/// the key's message, or why there is none.
pub open spec fn signer_of(key: Seq<char>, signature: Seq<char>) -> Result<Seq<u8>, Seq<char>> {
    match raw_signature(signature) {
        Err(e) => Err(e),
        Ok(raw) => reported(recovered(raw, keccak(message_for(key)))),
    }
}

/// Recovers the address that signed a key.
pub fn recover_address_from_signature(download_key: &str, signature_str: &str) -> (r: Result<
    Address,
    String,
>)
    ensures
        address_result(r) == signer_of(download_key@, signature_str@),
{
    match decode_signature(signature_str) {
        Err(e) => Err(e),
        Ok(raw) => {
            let message = signed_message(download_key);
            let digest = keccak256(message.as_slice());
            report_recovery(recover_signer(raw.as_slice(), &digest))
        },
    }
}

/// The signer of a key is the one whose signature is recovered over the digest of
/// `0x00` and the key without its prefixes. The signature is written in hex, with a
/// prefix or without; it is sixty-five bytes that end in zero, one, twenty-seven,
/// twenty-eight or a number from thirty-five on. Where nothing can be recovered,
/// that is said.
pub proof fn law_signer_is_recovered(key: Seq<char>, raw: Seq<u8>)
    requires
        raw.len() == 65,
        raw[64] == 0 || raw[64] == 1 || raw[64] == 27 || raw[64] == 28 || raw[64] >= 35,
    ensures
        ({
            let digest = keccak(encode_utf8("0x00"@ + without_0x(key)));
            let signer = match recovered(raw, digest) {
                Ok(address) => Ok(address),
                Err(e) => Err("Recover address failed: "@ + e),
            };
            &&& signer_of(key, hex_text(raw)) == signer
            &&& signer_of(key, "0x"@ + hex_text(raw)) == signer
        }),
{
    reveal_strlit("0x");
    law_hex_round_trip(raw);
    let text = hex_text(raw);
    assert(text[1] != 'x');
    assert(without_0x(text) == text);
    let prefixed = "0x"@ + text;
    assert(prefixed.skip(2) =~= text);
    assert(without_0x(prefixed) == text);
    is_ascii_chars_encode_utf8(text);
    assert(encode_utf8(text).len() == 130);
}

/// A text that does not write such a signature in hex has no signer, whatever the
/// key, and it is said what is wrong with it.
pub proof fn law_malformed_signature_has_no_signer(key: Seq<char>, signature: Seq<char>)
    ensures
        ({
            let digits = encode_utf8(without_0x(signature));
            &&& !is_hex(digits) ==> signer_of(key, signature) == Err::<Seq<u8>, Seq<char>>(
                "Invalid signature: "@ + hex_error(digits),
            )
            &&& is_hex(digits) && digits.len() != 130 ==> signer_of(key, signature) == Err::<
                Seq<u8>,
                Seq<char>,
            >("Invalid signature length: expected 65, got "@ + decimal(digits.len() / 2))
            &&& is_hex(digits) && digits.len() == 130 ==> ({
                let v = hex_bytes(digits)[64];
                (2 <= v < 27 || 28 < v < 35) ==> signer_of(key, signature) == Err::<
                    Seq<u8>,
                    Seq<char>,
                >("Invalid signature format: InvalidParity("@ + decimal(v as nat) + ")"@)
            })
        }),
{
    let digits = encode_utf8(without_0x(signature));
    if is_hex(digits) && digits.len() == 130 {
        let v = hex_bytes(digits)[64];
        reveal_strlit("Invalid signature format: ");
        reveal_strlit("InvalidParity(");
        reveal_strlit("Invalid signature format: InvalidParity(");
        assert("Invalid signature format: "@ + ("InvalidParity("@ + decimal(v as nat) + ")"@)
            =~= "Invalid signature format: InvalidParity("@ + decimal(v as nat) + ")"@);
    }
}

/// An outcome of recovery is seen as it is: the bytes of the address, or the text of
/// the error. Errors are reported as such, and addresses as they are.
pub proof fn law_recovery_is_seen_whole(r: Result<Address, String>)
    ensures
        r matches Ok(address) ==> address_result(r) == Ok::<Seq<u8>, Seq<char>>(address@)
            && reported(address_result(r)) == Ok::<Seq<u8>, Seq<char>>(address@),
        r matches Err(e) ==> address_result(r) == Err::<Seq<u8>, Seq<char>>(e@) && reported(
            address_result(r),
        ) == Err::<Seq<u8>, Seq<char>>("Recover address failed: "@ + e@),
{
}

} // verus!
