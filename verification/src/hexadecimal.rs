//! Bytes written as hexadecimal digits, two to a byte.

use vstd::prelude::*;
use vstd::utf8::encode_utf8;

verus! {

/// Why a text is not the hexadecimal form of any bytes.
#[derive(Clone, Copy, Debug, PartialEq, Eq)]
pub enum HexError {
    /// The byte `c` at `index` is no hexadecimal digit.
    InvalidHexCharacter { c: char, index: usize },
    /// The digits do not pair up.
    OddLength,
    /// The digits are not as many as a container of fixed size takes.
    InvalidStringLength,
}

/// The value of the hexadecimal digit `c`, in either case; `None` for any other byte.
pub open spec fn digit_value(c: u8) -> Option<u8> {
    if 0x30 <= c <= 0x39 {
        Some((c - 0x30) as u8)
    } else if 0x41 <= c <= 0x46 {
        Some((c - 0x41 + 10) as u8)
    } else if 0x61 <= c <= 0x66 {
        Some((c - 0x61 + 10) as u8)
    } else {
        None
    }
}

/// The lower-case hexadecimal digit for `value`, which is below 16.
pub open spec fn digit_char(value: u8) -> char {
    if value < 10 {
        (0x30 + value) as u8 as char
    } else {
        (0x61 + value - 10) as u8 as char
    }
}

/// `text` is a hexadecimal form of `bytes`: two digits to each byte, the high half
/// first.
pub open spec fn is_hex_of(text: Seq<u8>, bytes: Seq<u8>) -> bool {
    &&& text.len() == 2 * bytes.len()
    &&& forall|i: int|
        0 <= i < bytes.len() ==> digit_value(text[2 * i]) == Some((#[trigger] bytes[i] / 16) as u8)
            && digit_value(text[2 * i + 1]) == Some((bytes[i] % 16) as u8)
}

/// `text` is a hexadecimal form of some bytes: its digits pair up, and every byte of
/// it is a digit.
pub open spec fn is_hex(text: Seq<u8>) -> bool {
    &&& text.len() % 2 == 0
    &&& forall|i: int| 0 <= i < text.len() ==> digit_value(#[trigger] text[i]) is Some
}

/// `text` has no hexadecimal reading, and `error` says why: the digits do not pair
/// up, or else the first byte that is no digit stands at the index named.
pub open spec fn not_hex(text: Seq<u8>, error: HexError) -> bool {
    match error {
        HexError::OddLength => text.len() % 2 == 1,
        HexError::InvalidHexCharacter { c, index } => {
            &&& text.len() % 2 == 0
            &&& index < text.len()
            &&& digit_value(text[index as int]) is None
            &&& c == text[index as int] as char
            &&& forall|before: int| 0 <= before < index ==> digit_value(text[before]) is Some
        },
        HexError::InvalidStringLength => false,
    }
}

/// The lower-case hexadecimal form of `bytes`.
pub open spec fn hex_text(bytes: Seq<u8>) -> Seq<char> {
    Seq::new(
        2 * bytes.len(),
        |i: int|
            if i % 2 == 0 {
                digit_char((bytes[i / 2] / 16) as u8)
            } else {
                digit_char((bytes[i / 2] % 16) as u8)
            },
    )
}

/// `hex::decode` on bytes. It reads two hexadecimal digits, of either case, as one
/// byte, the high half first. It refuses a text of odd length as such, before it
/// looks at any byte; in a text of even length it refuses the first byte that is no
/// digit, with that byte and its index.
#[verifier::external_body]
pub(crate) fn hex_decode(text: &[u8]) -> (read: Result<Vec<u8>, HexError>)
    ensures
        match read {
            Ok(bytes) => is_hex_of(text@, bytes@),
            Err(error) => not_hex(text@, error),
        },
{
    match hex::decode(text) {
        Ok(bytes) => Ok(bytes),
        Err(hex::FromHexError::InvalidHexCharacter { c, index }) => Err(
            HexError::InvalidHexCharacter { c, index },
        ),
        Err(hex::FromHexError::OddLength) => Err(HexError::OddLength),
        Err(hex::FromHexError::InvalidStringLength) => Err(HexError::InvalidStringLength),
    }
}

/// `hex::encode` on bytes. It writes each byte as two lower-case hexadecimal digits,
/// the high half first.
#[verifier::external_body]
pub(crate) fn hex_encode(bytes: &[u8]) -> (text: String)
    ensures
        text@ == hex_text(bytes@),
{
    hex::encode(bytes)
}

/// `text` starts with the two bytes of `0x`.
pub open spec fn has_prefix(text: Seq<u8>) -> bool {
    text.len() >= 2 && text[0] == 0x30 && text[1] == 0x78
}

/// `text` without any `0x` in front of it, however often it is repeated there.
pub open spec fn stripped(text: Seq<u8>) -> Seq<u8>
    decreases text.len(),
{
    if has_prefix(text) {
        stripped(text.skip(2))
    } else {
        text
    }
}

/// `read` is what the bytes `text` read as: the bytes that they are a hexadecimal
/// form of, or why they are none.
pub open spec fn reads_as(text: Seq<u8>, read: Result<Vec<u8>, HexError>) -> bool {
    match read {
        Ok(bytes) => is_hex_of(text, bytes@),
        Err(error) => not_hex(text, error),
    }
}

/// A text is read as bytes exactly where it is a hexadecimal form, and then as the
/// bytes that it is the form of, which are half as many as its digits.
pub proof fn lemma_reading_decides(text: Seq<u8>, read: Result<Vec<u8>, HexError>)
    requires
        reads_as(text, read),
    ensures
        read is Ok <==> is_hex(text),
        read matches Ok(bytes) ==> 2 * bytes.len() == text.len(),
{
    match read {
        Ok(bytes) => {
            assert forall|i: int| 0 <= i < text.len() implies digit_value(#[trigger] text[i])
                is Some by {
                let byte = bytes@[i / 2];
                assert(i == 2 * (i / 2) || i == 2 * (i / 2) + 1);
            }
        },
        Err(HexError::InvalidHexCharacter { c, index }) => {
            assert(digit_value(text[index as int]) is None);
        },
        Err(_) => {},
    }
}

/// The bytes that `text` is a hexadecimal form of, once any `0x` in front of it is
/// taken off. The text is read exactly where what is left of it is a hexadecimal
/// form.
pub fn decode_prefixed(text: &str) -> (read: Result<Vec<u8>, HexError>)
    ensures
        reads_as(stripped(encode_utf8(text@)), read),
        read is Ok <==> is_hex(stripped(encode_utf8(text@))),
{
    let text = text.as_bytes();
    let mut from: usize = 0;
    assert(text@.skip(0) =~= text@);
    while text.len() - from >= 2 && text[from] == 0x30 && text[from + 1] == 0x78
        invariant
            from <= text.len(),
            stripped(text@) == stripped(text@.skip(from as int)),
        decreases text.len() - from,
    {
        proof {
            assert(has_prefix(text@.skip(from as int)));
            assert(text@.skip(from as int).skip(2) =~= text@.skip(from + 2));
        }
        from += 2;
    }
    let digits = &text[from..text.len()];
    proof {
        assert(!has_prefix(text@.skip(from as int)));
        assert(digits@ =~= text@.skip(from as int));
    }
    let read = hex_decode(digits);
    proof {
        lemma_reading_decides(digits@, read);
    }
    read
}

/// `bytes` as a hash, where they are 32.
pub fn to_hash(bytes: &Vec<u8>) -> (hash: Option<[u8; 32]>)
    ensures
        hash is Some <==> bytes.len() == 32,
        hash matches Some(h) ==> h@ == bytes@,
{
    if bytes.len() != 32 {
        return None;
    }
    let mut hash = [0u8; 32];
    let mut i: usize = 0;
    while i < 32
        invariant
            i <= 32,
            bytes.len() == 32,
            forall|j: int| 0 <= j < i ==> hash@[j] == bytes@[j],
        decreases 32 - i,
    {
        hash[i] = bytes[i];
        i += 1;
    }
    assert(hash@ =~= bytes@);
    Some(hash)
}

} // verus!
