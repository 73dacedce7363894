//! The canonical self-describing binary codec of the engine boundary.
//!
//! Every value is encoded as a type-id byte followed by its payload;
//! variable-length payloads carry a little-endian 32-bit length first.  The
//! engine framing prepends a little-endian 32-bit length of the whole
//! encoding.  Decoding is the exact inverse, and the round-trip laws at the
//! end of the module prove it.

use vstd::prelude::*;

use vstd::string::StringSliceAdditionalSpecFns;

use crate::bytes::{copy_range, push_bytes, u32_from_le, u32_le_bytes, u32_of_le, u32_to_le};

verus! {

/// The type id of a 32-bit unsigned integer.
pub const TYPE_U32: u8 = 9;

/// The type id of a string.
pub const TYPE_STRING: u8 = 12;

/// The type id of a structure.
pub const TYPE_STRUCT: u8 = 20;

/// The type id of a byte vector.
pub const TYPE_BYTES: u8 = 48;

/// An error when decoding.
#[derive(Debug, Clone, PartialEq, Eq, Structural)]
pub enum DecodeError {
    Underflow,
    InvalidTypeId,
    InvalidLength,
    TrailingBytes,
}

/// A type-id byte, a little-endian length, then the payload itself.
pub open spec fn enc_lp(tag: u8, payload: Seq<u8>) -> Seq<u8> {
    seq![tag] + u32_le_bytes(payload.len() as u32) + payload
}

/// A 32-bit integer: its type id, then four little-endian bytes.
pub open spec fn enc_u32(x: u32) -> Seq<u8> {
    seq![TYPE_U32] + u32_le_bytes(x)
}

/// What decoding a length-prefixed payload at a position yields: the
/// payload and the position after it, if the tag and the lengths fit.
pub open spec fn dec_lp(tag: u8, data: Seq<u8>, pos: int) -> Option<(Seq<u8>, int)> {
    if !(0 <= pos && pos + 5 <= data.len()) {
        None
    } else if data[pos] != tag {
        None
    } else {
        let n = u32_of_le(data[pos + 1], data[pos + 2], data[pos + 3], data[pos + 4]) as int;
        if pos + 5 + n <= data.len() {
            Some((data.subrange(pos + 5, pos + 5 + n), pos + 5 + n))
        } else {
            None
        }
    }
}

/// What decoding a 32-bit integer at a position yields.
pub open spec fn dec_u32(data: Seq<u8>, pos: int) -> Option<(u32, int)> {
    if !(0 <= pos && pos + 5 <= data.len()) {
        None
    } else if data[pos] != TYPE_U32 {
        None
    } else {
        Some((u32_of_le(data[pos + 1], data[pos + 2], data[pos + 3], data[pos + 4]), pos + 5))
    }
}

/// Appends a length-prefixed payload to a buffer.
pub fn encode_lp(buf: &mut Vec<u8>, tag: u8, payload: &Vec<u8>)
    requires
        payload@.len() <= u32::MAX,
    ensures
        final(buf)@ == old(buf)@ + enc_lp(tag, payload@),
{
    buf.push(tag);
    let mut len = u32_to_le(payload.len() as u32);
    buf.append(&mut len);
    push_bytes(buf, payload);
    proof {
        assert(final(buf)@ =~= old(buf)@ + enc_lp(tag, payload@));
    }
}

/// Appends an encoded 32-bit integer to a buffer.
pub fn encode_u32(buf: &mut Vec<u8>, x: u32)
    ensures
        final(buf)@ == old(buf)@ + enc_u32(x),
{
    buf.push(TYPE_U32);
    let mut le = u32_to_le(x);
    buf.append(&mut le);
    proof {
        assert(final(buf)@ =~= old(buf)@ + enc_u32(x));
    }
}

/// Reads a length-prefixed payload at a position.
pub fn decode_lp(tag: u8, data: &[u8], pos: usize) -> (r: Result<(Vec<u8>, usize), DecodeError>)
    requires
        data@.len() <= usize::MAX,
    ensures
        match r {
            Ok(p) => dec_lp(tag, data@, pos as int) == Some((p.0@, p.1 as int)) && p.1
                <= data@.len(),
            Err(_) => dec_lp(tag, data@, pos as int) is None,
        },
{
    if pos >= data.len() || data.len() - pos < 5 {
        return Err(DecodeError::Underflow);
    }
    if data[pos] != tag {
        return Err(DecodeError::InvalidTypeId);
    }
    let n = u32_from_le(data[pos + 1], data[pos + 2], data[pos + 3], data[pos + 4]);
    if n as usize > data.len() - (pos + 5) {
        return Err(DecodeError::InvalidLength);
    }
    let payload = copy_range(data, pos + 5, pos + 5 + (n as usize));
    Ok((payload, pos + 5 + (n as usize)))
}

/// Reads an encoded 32-bit integer at a position.
pub fn decode_u32(data: &[u8], pos: usize) -> (r: Result<(u32, usize), DecodeError>)
    ensures
        match r {
            Ok(p) => dec_u32(data@, pos as int) == Some((p.0, p.1 as int)) && p.1
                <= data@.len(),
            Err(_) => dec_u32(data@, pos as int) is None,
        },
{
    if pos >= data.len() || data.len() - pos < 5 {
        return Err(DecodeError::Underflow);
    }
    if data[pos] != TYPE_U32 {
        return Err(DecodeError::InvalidTypeId);
    }
    let x = u32_from_le(data[pos + 1], data[pos + 2], data[pos + 3], data[pos + 4]);
    Ok((x, pos + 5))
}

/// Encodes a string: its type id, length, and bytes.
pub fn scrypto_encode_str(v: &str) -> (r: Vec<u8>)
    requires
        v.spec_bytes().len() <= u32::MAX,
    ensures
        r@ == enc_lp(TYPE_STRING, v.spec_bytes()),
{
    let bytes = str_bytes(v);
    let mut buf: Vec<u8> = Vec::new();
    encode_lp(&mut buf, TYPE_STRING, &bytes);
    proof {
        assert(buf@ =~= enc_lp(TYPE_STRING, v.spec_bytes()));
    }
    buf
}

/// The bytes of a string.
fn str_bytes(v: &str) -> (r: Vec<u8>)
    ensures
        r@ == v.spec_bytes(),
{
    let s = v.as_bytes();
    let mut r: Vec<u8> = Vec::new();
    let mut i: usize = 0;
    while i < s.len()
        invariant
            i <= s@.len(),
            s@ == v.spec_bytes(),
            r@ == s@.subrange(0, i as int),
        decreases s@.len() - i,
    {
        r.push(s[i]);
        proof {
            assert(r@ =~= s@.subrange(0, i + 1 as int));
        }
        i = i + 1;
    }
    proof {
        assert(r@ =~= v.spec_bytes());
    }
    r
}

/// The framing for the engine boundary: a little-endian 32-bit length of
/// the encoding, then the encoding itself.
pub open spec fn framed(payload: Seq<u8>) -> Seq<u8> {
    u32_le_bytes(payload.len() as u32) + payload
}

/// Prepends the engine framing to an encoding.
pub fn encode_for_radix_engine(encoded: Vec<u8>) -> (r: Vec<u8>)
    requires
        encoded@.len() <= u32::MAX,
    ensures
        r@ == framed(encoded@),
{
    let mut buf = u32_to_le(encoded.len() as u32);
    push_bytes(&mut buf, &encoded);
    proof {
        assert(buf@ =~= framed(encoded@));
    }
    buf
}

/// Encodes a string with the engine framing, as the boundary sends it.
pub fn scrypto_encode_str_for_radix_engine(v: &str) -> (r: Vec<u8>)
    requires
        v.spec_bytes().len() + 5 <= u32::MAX,
    ensures
        r@ == framed(enc_lp(TYPE_STRING, v.spec_bytes())),
{
    encode_for_radix_engine(scrypto_encode_str(v))
}

/// A request at the engine boundary: replacing a component's state.
pub struct PutComponentStateInput {
    pub state: Vec<u8>,
}

/// The encoding of a component-state request: a structure of one byte
/// vector.
pub open spec fn enc_put_component_state(state: Seq<u8>) -> Seq<u8> {
    seq![TYPE_STRUCT] + enc_lp(TYPE_BYTES, state)
}

impl PutComponentStateInput {
    /// Encodes the request.
    pub fn scrypto_encode(&self) -> (r: Vec<u8>)
        requires
            self.state@.len() <= u32::MAX,
        ensures
            r@ == enc_put_component_state(self.state@),
    {
        let mut buf: Vec<u8> = Vec::new();
        buf.push(TYPE_STRUCT);
        encode_lp(&mut buf, TYPE_BYTES, &self.state);
        proof {
            assert(buf@ =~= enc_put_component_state(self.state@));
        }
        buf
    }

    /// Decodes a request, checking that nothing trails it.
    pub fn scrypto_decode(data: &[u8]) -> (r: Result<Self, DecodeError>)
        requires
            data@.len() <= usize::MAX,
        ensures
            match r {
                Ok(v) => data@.len() >= 1 && data@[0] == TYPE_STRUCT && dec_lp(
                    TYPE_BYTES,
                    data@,
                    1,
                ) == Some((v.state@, data@.len() as int)),
                Err(_) => !(data@.len() >= 1 && data@[0] == TYPE_STRUCT && (dec_lp(
                    TYPE_BYTES,
                    data@,
                    1,
                ) matches Some(p) && p.1 == data@.len())),
            },
    {
        if data.len() < 1 {
            return Err(DecodeError::Underflow);
        }
        if data[0] != TYPE_STRUCT {
            return Err(DecodeError::InvalidTypeId);
        }
        match decode_lp(TYPE_BYTES, data, 1) {
            Ok((state, end)) => {
                if end != data.len() {
                    Err(DecodeError::TrailingBytes)
                } else {
                    Ok(PutComponentStateInput { state })
                }
            },
            Err(e) => Err(e),
        }
    }
}

/// Law: a length-prefixed encoding decodes back to its payload, wherever it
/// stands in a longer buffer.
pub proof fn lemma_lp_round_trip(tag: u8, payload: Seq<u8>, prefix: Seq<u8>, suffix: Seq<u8>)
    requires
        payload.len() <= u32::MAX,
        prefix.len() + enc_lp(tag, payload).len() + suffix.len() <= usize::MAX,
    ensures
        dec_lp(tag, prefix + enc_lp(tag, payload) + suffix, prefix.len() as int) == Some(
            (payload, (prefix.len() + 5 + payload.len()) as int),
        ),
{
    let data = prefix + enc_lp(tag, payload) + suffix;
    let pos = prefix.len() as int;
    let n = payload.len() as u32;
    crate::bytes::lemma_u32_le_round_trip(n);
    assert(data[pos] == tag);
    assert(data[pos + 1] == u32_le_bytes(n)[0]);
    assert(data[pos + 2] == u32_le_bytes(n)[1]);
    assert(data[pos + 3] == u32_le_bytes(n)[2]);
    assert(data[pos + 4] == u32_le_bytes(n)[3]);
    assert(u32_of_le(data[pos + 1], data[pos + 2], data[pos + 3], data[pos + 4]) == n);
    assert(data.subrange(pos + 5, pos + 5 + n as int) =~= payload);
}

/// Law: an encoded 32-bit integer decodes back to itself.
pub proof fn lemma_u32_round_trip(x: u32, prefix: Seq<u8>, suffix: Seq<u8>)
    ensures
        dec_u32(prefix + enc_u32(x) + suffix, prefix.len() as int) == Some(
            (x, (prefix.len() + 5) as int),
        ),
{
    let data = prefix + enc_u32(x) + suffix;
    let pos = prefix.len() as int;
    crate::bytes::lemma_u32_le_round_trip(x);
    assert(data[pos] == TYPE_U32);
    assert(data[pos + 1] == u32_le_bytes(x)[0]);
    assert(data[pos + 2] == u32_le_bytes(x)[1]);
    assert(data[pos + 3] == u32_le_bytes(x)[2]);
    assert(data[pos + 4] == u32_le_bytes(x)[3]);
}

/// Law: an encoded component-state request decodes back to itself.
pub proof fn lemma_put_component_state_round_trip(state: Seq<u8>)
    requires
        state.len() + 6 <= u32::MAX,
    ensures
        ({
            let data = enc_put_component_state(state);
            &&& data.len() >= 1
            &&& data[0] == TYPE_STRUCT
            &&& dec_lp(TYPE_BYTES, data, 1) == Some((state, data.len() as int))
        }),
{
    let data = enc_put_component_state(state);
    assert(data =~= seq![TYPE_STRUCT] + enc_lp(TYPE_BYTES, state) + Seq::<u8>::empty());
    lemma_lp_round_trip(TYPE_BYTES, state, seq![TYPE_STRUCT], Seq::empty());
}

} // verus!
