//! Hexadecimal text: the mathematical definition, the two calls into the
//! `hex` crate, and the facts that relate the one to the other.
use vstd::prelude::*;
use vstd::string::StringSliceAdditionalSpecFns;
use vstd::utf8::is_ascii_chars;

verus! {

/// The lower-case hexadecimal digit that stands for `n`, for `n < 16`.
pub open spec fn hex_digit(n: int) -> char
    recommends
        0 <= n < 16,
{
    if n < 10 {
        ((48 + n) as u8) as char
    } else {
        ((87 + n) as u8) as char
    }
}

/// The hexadecimal text of a byte sequence: two lower-case digits per byte,
/// the high half first.
pub open spec fn hex_text(bytes: Seq<u8>) -> Seq<char> {
    Seq::new(
        2 * bytes.len(),
        |i: int|
            if i % 2 == 0 {
                hex_digit(bytes[i / 2] as int / 16)
            } else {
                hex_digit(bytes[i / 2] as int % 16)
            },
    )
}

/// Whether a byte is an ASCII hexadecimal digit, in either case.
pub open spec fn is_hex_digit(b: u8) -> bool {
    ||| 48 <= b <= 57
    ||| 65 <= b <= 70
    ||| 97 <= b <= 102
}

/// The value of an ASCII hexadecimal digit.
pub open spec fn hex_value(b: u8) -> int
    recommends
        is_hex_digit(b),
{
    if 48 <= b <= 57 {
        b - 48
    } else if 65 <= b <= 70 {
        b - 55
    } else {
        b - 87
    }
}

/// Whether a byte sequence is hexadecimal text: an even number of digits.
pub open spec fn is_hex(text: Seq<u8>) -> bool {
    &&& text.len() % 2 == 0
    &&& forall|i: int| 0 <= i < text.len() ==> is_hex_digit(#[trigger] text[i])
}

/// The bytes that hexadecimal text stands for.
pub open spec fn hex_bytes(text: Seq<u8>) -> Seq<u8>
    recommends
        is_hex(text),
{
    Seq::new(
        text.len() / 2,
        |i: int| (hex_value(text[2 * i]) * 16 + hex_value(text[2 * i + 1])) as u8,
    )
}

/// `hex::FromHexError`: why `hex::decode` failed. Nothing is read from it.
#[verifier::external_type_specification]
#[verifier::external_body]
pub struct ExFromHexError(::hex::FromHexError);

/// `hex::encode` on a byte slice. Trusted: the result is the lower-case
/// hexadecimal text of the bytes, two digits for each byte in order.
#[verifier::external_body]
pub(crate) fn encode(data: &[u8]) -> (text: String)
    ensures
        text@ == hex_text(data@),
{
    ::hex::encode(data)
}

/// `hex::decode` on a byte slice. Trusted: it succeeds exactly on an even
/// number of ASCII hexadecimal digits of either case, and then returns the
/// byte that each pair of digits stands for.
#[verifier::external_body]
pub(crate) fn decode(text: &[u8]) -> (bytes: Result<Vec<u8>, ::hex::FromHexError>)
    ensures
        bytes is Ok <==> is_hex(text@),
        bytes matches Ok(b) ==> b@ == hex_bytes(text@),
{
    ::hex::decode(text)
}

/// The bytes of ASCII text, one for each character.
pub open spec fn ascii_bytes(text: Seq<char>) -> Seq<u8>
    recommends
        is_ascii_chars(text),
{
    Seq::new(text.len(), |i: int| text[i] as u8)
}

/// Whether text is hexadecimal: ASCII throughout, an even number of digits.
pub open spec fn is_hex_text(text: Seq<char>) -> bool {
    is_ascii_chars(text) && is_hex(ascii_bytes(text))
}

/// The bytes that hexadecimal text stands for.
pub open spec fn unhex(text: Seq<char>) -> Seq<u8>
    recommends
        is_hex_text(text),
{
    hex_bytes(ascii_bytes(text))
}

/// The bytes that `text` stands for, or `None` where `text` is not
/// hexadecimal.
pub fn from_hex(text: &str) -> (bytes: Option<Vec<u8>>)
    ensures
        bytes is Some <==> is_hex_text(text@),
        bytes matches Some(b) ==> b@ == unhex(text@),
{
    if !text.is_ascii() {
        return None;
    }
    proof {
        vstd::string::is_ascii_spec_bytes(text);
        assert(text.spec_bytes() =~= ascii_bytes(text@));
    }
    match decode(text.as_bytes()) {
        Ok(bytes) => Some(bytes),
        Err(_) => None,
    }
}

/// Every character of hexadecimal text that `hex_text` gives is one of the
/// sixteen lower-case digits.
pub proof fn lemma_hex_text_digits(bytes: Seq<u8>, i: int)
    requires
        0 <= i < 2 * bytes.len(),
    ensures
        hex_text(bytes).len() == 2 * bytes.len(),
        '0' <= hex_text(bytes)[i] <= '9' || 'a' <= hex_text(bytes)[i] <= 'f',
{
}

/// Decoding undoes encoding: the text of any bytes is hexadecimal, and
/// stands for those bytes.
pub proof fn lemma_unhex_hex_text(bytes: Seq<u8>)
    ensures
        is_hex_text(hex_text(bytes)),
        unhex(hex_text(bytes)) == bytes,
{
    let text = hex_text(bytes);
    assert forall|i: int| 0 <= i < text.len() implies '\0' <= #[trigger] text[i] <= '\u{7f}' by {
        lemma_hex_text_digits(bytes, i);
    }
    let raw = ascii_bytes(text);
    assert forall|i: int| 0 <= i < raw.len() implies is_hex_digit(#[trigger] raw[i]) by {
        lemma_hex_text_digits(bytes, i);
    }
    assert forall|i: int| 0 <= i < bytes.len() implies #[trigger] hex_bytes(raw)[i] == bytes[i] by {
        lemma_hex_text_digits(bytes, 2 * i);
        lemma_hex_text_digits(bytes, 2 * i + 1);
        assert(raw[2 * i] == text[2 * i] as u8);
        assert(raw[2 * i + 1] == text[2 * i + 1] as u8);
    }
    assert(hex_bytes(raw) =~= bytes);
}

} // verus!
