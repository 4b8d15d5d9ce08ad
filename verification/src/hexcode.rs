//! Hexadecimal text: what it decodes to and how bytes are written in it.

use vstd::prelude::*;

verus! {

pub open spec fn is_hex_digit(c: char) -> bool {
    ('0' <= c <= '9') || ('a' <= c <= 'f') || ('A' <= c <= 'F')
}

/// The value of one hexadecimal digit, either case.
pub open spec fn hex_value(c: char) -> int {
    if '0' <= c <= '9' {
        c as u32 - '0' as u32
    } else if 'a' <= c <= 'f' {
        c as u32 - 'a' as u32 + 10
    } else {
        c as u32 - 'A' as u32 + 10
    }
}

/// Whether every character of `s` is a hexadecimal digit.
pub open spec fn all_hex(s: Seq<char>) -> bool {
    forall|i: int| 0 <= i < s.len() ==> is_hex_digit(#[trigger] s[i])
}

/// The bytes that the digit pairs of `s` write, high digit first.
pub open spec fn hex_decoded(s: Seq<char>) -> Seq<u8> {
    Seq::new(s.len() / 2, |i: int| (hex_value(s[2 * i]) * 16 + hex_value(s[2 * i + 1])) as u8)
}

/// The lower-case hexadecimal digit of a value below 16.
pub open spec fn hex_digit(n: int) -> char {
    if n < 10 {
        ('0' as u32 + n) as char
    } else {
        ('a' as u32 + n - 10) as char
    }
}

/// Two lower-case digits for each byte, high digit first.
pub open spec fn hex_encoded(b: Seq<u8>) -> Seq<char> {
    Seq::new(
        2 * b.len(),
        |i: int|
            if i % 2 == 0 {
                hex_digit(b[i / 2] as int / 16)
            } else {
                hex_digit(b[i / 2] as int % 16)
            },
    )
}

/// Why a text is not the hexadecimal form of a digest.
#[derive(Clone, Copy, Debug, PartialEq, Eq)]
pub enum HexError {
    InvalidHexCharacter { c: char, index: usize },
    OddLength,
    InvalidStringLength,
}

/// `hex::decode_to_slice` into an array of `N` bytes. It succeeds exactly on
/// `2 * N` hexadecimal digits, of either case, and then gives the bytes that
/// the digit pairs write.
#[verifier::external_body]
pub(crate) fn decode_hex<const N: usize>(text: &[char]) -> (r: Result<[u8; N], HexError>)
    ensures
        match r {
            Ok(bytes) => text@.len() == 2 * N && all_hex(text@) && bytes@ == hex_decoded(text@),
            Err(_) => !(text@.len() == 2 * N && all_hex(text@)),
        },
{
    let data: String = text.iter().collect();
    let mut out = [0u8; N];
    match hex::decode_to_slice(data, &mut out) {
        Ok(()) => Ok(out),
        Err(hex::FromHexError::InvalidHexCharacter { c, index }) => Err(
            HexError::InvalidHexCharacter { c, index },
        ),
        Err(hex::FromHexError::OddLength) => Err(HexError::OddLength),
        Err(hex::FromHexError::InvalidStringLength) => Err(HexError::InvalidStringLength),
    }
}

/// `hex::encode`: two lower-case digits for each byte, high digit first.
#[verifier::external_body]
pub(crate) fn encode_hex(bytes: &[u8]) -> (r: Vec<char>)
    ensures
        r@ == hex_encoded(bytes@),
{
    hex::encode(bytes).chars().collect()
}


/// A hexadecimal digit has the value that it was written for.
pub proof fn lemma_hex_digit_value(n: int)
    requires
        0 <= n < 16,
    ensures
        is_hex_digit(hex_digit(n)),
        hex_value(hex_digit(n)) == n,
{
    if n < 10 {
        assert(hex_digit(n) as u32 == '0' as u32 + n);
    } else {
        assert(hex_digit(n) as u32 == 'a' as u32 + n - 10);
    }
}

/// What is written in hexadecimal reads back as it was: the text form of
/// bytes is hexadecimal digits throughout, two for each byte, and decodes
/// to the bytes.
pub proof fn law_hex_round_trip(b: Seq<u8>)
    ensures
        all_hex(hex_encoded(b)),
        hex_encoded(b).len() == 2 * b.len(),
        hex_decoded(hex_encoded(b)) == b,
{
    let t = hex_encoded(b);
    assert forall|i: int| 0 <= i < t.len() implies is_hex_digit(#[trigger] t[i]) by {
        let x = b[i / 2] as int;
        if i % 2 == 0 {
            lemma_hex_digit_value(x / 16);
        } else {
            lemma_hex_digit_value(x % 16);
        }
    }
    assert forall|k: int| 0 <= k < b.len() implies #[trigger] hex_decoded(t)[k] == b[k] by {
        let x = b[k] as int;
        lemma_hex_digit_value(x / 16);
        lemma_hex_digit_value(x % 16);
        assert(t[2 * k] == hex_digit(x / 16));
        assert(t[2 * k + 1] == hex_digit(x % 16));
    }
    assert(hex_decoded(t) =~= b);
}

} // verus!
