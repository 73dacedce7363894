//! Hex rendering and parsing of byte strings, through the `hex` crate.

use vstd::prelude::*;

verus! {

/// An error when parsing a hex string.
#[derive(Debug, Clone, PartialEq, Eq, Structural)]
pub enum FromHexError {
    InvalidHexCharacter,
    OddLength,
    InvalidStringLength,
}

/// The lowercase hex digit for a nibble.
pub open spec fn hex_digit(n: u8) -> char {
    if n == 0 {
        '0'
    } else if n == 1 {
        '1'
    } else if n == 2 {
        '2'
    } else if n == 3 {
        '3'
    } else if n == 4 {
        '4'
    } else if n == 5 {
        '5'
    } else if n == 6 {
        '6'
    } else if n == 7 {
        '7'
    } else if n == 8 {
        '8'
    } else if n == 9 {
        '9'
    } else if n == 10 {
        'a'
    } else if n == 11 {
        'b'
    } else if n == 12 {
        'c'
    } else if n == 13 {
        'd'
    } else if n == 14 {
        'e'
    } else {
        'f'
    }
}

/// Whether a character is a hex digit, in either case.
pub open spec fn is_hex_digit(c: char) -> bool {
    ('0' <= c && c <= '9') || ('a' <= c && c <= 'f') || ('A' <= c && c <= 'F')
}

/// The nibble a hex digit stands for.
pub open spec fn hex_val(c: char) -> u8 {
    if '0' <= c && c <= '9' {
        ((c as u32) - ('0' as u32)) as u8
    } else if 'a' <= c && c <= 'f' {
        ((c as u32) - ('a' as u32) + 10) as u8
    } else {
        ((c as u32) - ('A' as u32) + 10) as u8
    }
}

/// The lowercase hex rendering of a byte string: two digits per byte, high
/// nibble first.
pub open spec fn hex_of(data: Seq<u8>) -> Seq<char> {
    Seq::new(
        data.len() * 2,
        |i: int|
            if i % 2 == 0 {
                hex_digit(data[i / 2] >> 4)
            } else {
                hex_digit(data[i / 2] & 0x0f)
            },
    )
}

/// The bytes a hex digit string stands for, two digits per byte.
pub open spec fn hex_bytes_of(s: Seq<char>) -> Seq<u8> {
    Seq::new(s.len() / 2, |i: int| (hex_val(s[2 * i]) << 4) | hex_val(s[2 * i + 1]))
}

/// Relies on hex::encode: the lowercase hex rendering of the bytes, two
/// digits per byte, high nibble first.
#[verifier::external_body]
pub fn hex_encode(data: &Vec<u8>) -> (r: String)
    ensures
        r@ == hex_of(data@),
{
    hex::encode(data.as_slice())
}

/// Relies on hex::decode: succeeds exactly on strings of hex digits of even
/// length, in either case, and reads two digits per byte, high nibble first.
#[verifier::external_body]
pub fn hex_decode(s: &str) -> (r: Result<Vec<u8>, FromHexError>)
    ensures
        (s@.len() % 2 == 0 && (forall|i: int| 0 <= i < s@.len() ==> is_hex_digit(s@[i])))
            <==> r is Ok,
        r matches Ok(b) ==> b@ == hex_bytes_of(s@),
{
    match hex::decode(s) {
        Ok(v) => Ok(v),
        Err(hex::FromHexError::InvalidHexCharacter { .. }) => Err(
            FromHexError::InvalidHexCharacter,
        ),
        Err(hex::FromHexError::OddLength) => Err(FromHexError::OddLength),
        Err(hex::FromHexError::InvalidStringLength) => Err(FromHexError::InvalidStringLength),
    }
}

/// Reading a hex rendering back gives the original bytes.
pub proof fn lemma_hex_round_trip(data: Seq<u8>)
    ensures
        hex_of(data).len() % 2 == 0,
        forall|i: int| 0 <= i < hex_of(data).len() ==> is_hex_digit(#[trigger] hex_of(data)[i]),
        hex_bytes_of(hex_of(data)) == data,
{
    assert forall|n: u8| n < 16 implies is_hex_digit(hex_digit(n)) && hex_val(hex_digit(n))
        == n by {
    }
    assert forall|i: int| 0 <= i < hex_of(data).len() implies is_hex_digit(
        #[trigger] hex_of(data)[i],
    ) by {
        let b = data[i / 2];
        assert(b >> 4 < 16 && b & 0x0f < 16) by (bit_vector);
    }
    assert forall|i: int| 0 <= i < data.len() implies hex_bytes_of(hex_of(data))[i]
        == data[i] by {
        let b = data[i];
        assert(b >> 4 < 16 && b & 0x0f < 16) by (bit_vector);
        assert(hex_of(data)[2 * i] == hex_digit(b >> 4));
        assert(hex_of(data)[2 * i + 1] == hex_digit(b & 0x0f));
        assert(((b >> 4) << 4) | (b & 0x0f) == b) by (bit_vector);
    }
    assert(hex_bytes_of(hex_of(data)) =~= data);
}

} // verus!
