//! Encoding of single values into the bytes of a package.
use vstd::prelude::*;
use vstd::utf8::encode_utf8;

use crate::data::bytes::{be_bytes, be_encode, lemma_pow256_values, twos};

use crate::data::ids::DataIDs;
use crate::data::parse::DataParseError;
use crate::helper::DataValue;

verus! {

broadcast use vstd::string::to_string_from_display_ensures_for_str;

/// The tag byte followed by the `n` big-endian bytes of `v`.
pub open spec fn tagged(t: DataIDs, v: nat, n: nat) -> Seq<u8> {
    seq![t.spec_byte()] + be_bytes(v, n)
}

/// The strings that can be encoded: the number of bytes of their UTF-8
/// encoding fits the 4-byte length field.
pub open spec fn string_encodable(s: Seq<char>) -> bool {
    encode_utf8(s).len() <= u32::MAX
}

/// The error of a string too long for its length field.
pub open spec fn msg_string_too_long() -> Seq<char> {
    "Your string is ridiculously long, or the size calculation is badly written. Equally likely."@
}

/// The values that have an encoding: all but `VECTOR` and `SIGNAL`, and strings that are not too long.
pub open spec fn encodable(v: DataValue) -> bool {
    match v {
        DataValue::VECTOR { .. } => false,
        DataValue::SIGNAL(_) => false,
        DataValue::STRING(s) => string_encodable(s),
        _ => true,
    }
}

/// The bytes that encode a value: its tag, then its payload. A string's
/// payload is its length in bytes as 4 big-endian bytes, then its UTF-8 bytes.
pub open spec fn encode_value(v: DataValue) -> Seq<u8> {
    match v {
        DataValue::U8(x) => tagged(DataIDs::U8, x as nat, 1),
        DataValue::U16(x) => tagged(DataIDs::U16, x as nat, 2),
        DataValue::U32(x) => tagged(DataIDs::U32, x as nat, 4),
        DataValue::U64(x) => tagged(DataIDs::U64, x as nat, 8),
        DataValue::I8(x) => tagged(DataIDs::I8, twos(x as int, 1), 1),
        DataValue::I16(x) => tagged(DataIDs::I16, twos(x as int, 2), 2),
        DataValue::I32(x) => tagged(DataIDs::I32, twos(x as int, 4), 4),
        DataValue::I64(x) => tagged(DataIDs::I64, twos(x as int, 8), 8),
        DataValue::CHAR(c) => tagged(DataIDs::CHAR, (c as u32) as nat, 4),
        DataValue::F32(bits) => tagged(DataIDs::F32, bits as nat, 4),
        DataValue::F64(bits) => tagged(DataIDs::F64, bits as nat, 8),
        DataValue::STRING(s) => seq![DataIDs::STRING.spec_byte()] + be_bytes(
            encode_utf8(s).len(),
            4,
        ) + encode_utf8(s),
        DataValue::VECTOR { .. } => Seq::empty(),
        DataValue::SIGNAL(_) => Seq::empty(),
    }
}

/// Encodes a `u8`: its tag, then the byte.
pub fn encode_u8(data: u8) -> (r: [u8; 2])
    ensures
        r@ == encode_value(DataValue::U8(data)),
{
    let b = be_encode(data as u64, 1);
    let r = [DataIDs::U8.byte(), b[0]];
    assert(r@ =~= encode_value(DataValue::U8(data)));
    r
}

/// Encodes a `u16`: its tag, then its two bytes, most significant first.
pub fn encode_u16(data: u16) -> (r: [u8; 3])
    ensures
        r@ == encode_value(DataValue::U16(data)),
{
    let b = be_encode(data as u64, 2);
    let r = [DataIDs::U16.byte(), b[0], b[1]];
    assert(r@ =~= encode_value(DataValue::U16(data)));
    r
}

/// Encodes a `u32`: its tag, then its four bytes, most significant first.
pub fn encode_u32(data: u32) -> (r: [u8; 5])
    ensures
        r@ == encode_value(DataValue::U32(data)),
{
    let b = be_encode(data as u64, 4);
    let r = [DataIDs::U32.byte(), b[0], b[1], b[2], b[3]];
    assert(r@ =~= encode_value(DataValue::U32(data)));
    r
}

/// Encodes a `u64`: its tag, then its eight bytes, most significant first.
pub fn encode_u64(data: u64) -> (r: [u8; 9])
    ensures
        r@ == encode_value(DataValue::U64(data)),
{
    let b = be_encode(data, 8);
    let r = [DataIDs::U64.byte(), b[0], b[1], b[2], b[3], b[4], b[5], b[6], b[7]];
    assert(r@ =~= encode_value(DataValue::U64(data)));
    r
}

/// Encodes an `i8`: its tag, then its two's complement byte.
pub fn encode_i8(data: i8) -> (r: [u8; 2])
    ensures
        r@ == encode_value(DataValue::I8(data)),
{
    proof {
        lemma_pow256_values();
    }
    let u: u64 = if data < 0 {
        (data as i64 + 0x100) as u64
    } else {
        data as u64
    };
    let b = be_encode(u, 1);
    let r = [DataIDs::I8.byte(), b[0]];
    assert(r@ =~= encode_value(DataValue::I8(data)));
    r
}

/// Encodes an `i16`: its tag, then its two's complement bytes, most significant first.
pub fn encode_i16(data: i16) -> (r: [u8; 3])
    ensures
        r@ == encode_value(DataValue::I16(data)),
{
    proof {
        lemma_pow256_values();
    }
    let u: u64 = if data < 0 {
        (data as i64 + 0x1_0000) as u64
    } else {
        data as u64
    };
    let b = be_encode(u, 2);
    let r = [DataIDs::I16.byte(), b[0], b[1]];
    assert(r@ =~= encode_value(DataValue::I16(data)));
    r
}

/// Encodes an `i32`: its tag, then its two's complement bytes, most significant first.
pub fn encode_i32(data: i32) -> (r: [u8; 5])
    ensures
        r@ == encode_value(DataValue::I32(data)),
{
    proof {
        lemma_pow256_values();
    }
    let u: u64 = if data < 0 {
        (data as i64 + 0x1_0000_0000) as u64
    } else {
        data as u64
    };
    let b = be_encode(u, 4);
    let r = [DataIDs::I32.byte(), b[0], b[1], b[2], b[3]];
    assert(r@ =~= encode_value(DataValue::I32(data)));
    r
}

/// Encodes an `i64`: its tag, then its two's complement bytes, most significant first.
pub fn encode_i64(data: i64) -> (r: [u8; 9])
    ensures
        r@ == encode_value(DataValue::I64(data)),
{
    proof {
        lemma_pow256_values();
    }
    let u: u64 = if data < 0 {
        (data as i128 + 0x1_0000_0000_0000_0000) as u64
    } else {
        data as u64
    };
    let b = be_encode(u, 8);
    let r = [DataIDs::I64.byte(), b[0], b[1], b[2], b[3], b[4], b[5], b[6], b[7]];
    assert(r@ =~= encode_value(DataValue::I64(data)));
    r
}

/// Encodes a `char`: its tag, then the four bytes of its scalar value, most significant first.
pub fn encode_char(data: char) -> (r: [u8; 5])
    ensures
        r@ == encode_value(DataValue::CHAR(data)),
{
    let b = be_encode(data as u32 as u64, 4);
    let r = [DataIDs::CHAR.byte(), b[0], b[1], b[2], b[3]];
    assert(r@ =~= encode_value(DataValue::CHAR(data)));
    r
}

/// Encodes an `f32` given by its bit pattern (`f32::to_bits`): its tag, then the
/// four bytes of the pattern, most significant first, as `f32::to_be_bytes` gives them.
pub fn encode_f32(bits: u32) -> (r: [u8; 5])
    ensures
        r@ == encode_value(DataValue::F32(bits)),
{
    let b = be_encode(bits as u64, 4);
    let r = [DataIDs::F32.byte(), b[0], b[1], b[2], b[3]];
    assert(r@ =~= encode_value(DataValue::F32(bits)));
    r
}

/// Encodes an `f64` given by its bit pattern (`f64::to_bits`): its tag, then the
/// eight bytes of the pattern, most significant first, as `f64::to_be_bytes` gives them.
pub fn encode_f64(bits: u64) -> (r: [u8; 9])
    ensures
        r@ == encode_value(DataValue::F64(bits)),
{
    let b = be_encode(bits, 8);
    let r = [DataIDs::F64.byte(), b[0], b[1], b[2], b[3], b[4], b[5], b[6], b[7]];
    assert(r@ =~= encode_value(DataValue::F64(bits)));
    r
}

/// Encodes a string: the `STRING` tag, the number of bytes of its UTF-8
/// encoding as 4 big-endian bytes, then those bytes. A string of more than
/// `u32::MAX` bytes has no encoding and is refused.
pub fn encode_string(data: String) -> (r: Result<Vec<u8>, DataParseError>)
    ensures
        string_encodable(data@) ==> (r matches Ok(bytes) && bytes@ == encode_value(
            DataValue::STRING(data@),
        )),
        !string_encodable(data@) ==> (r matches Err(e) && e.message@ == msg_string_too_long()),
        encode_utf8(data@).len() <= u32::MAX ==> (r matches Ok(bytes) && bytes@ == seq![4u8]
            + be_bytes(encode_utf8(data@).len(), 4) + encode_utf8(data@)),
        encode_utf8(data@).len() > u32::MAX ==> r is Err,
{
    let stringbytes = data.as_str().as_bytes();
    let length = stringbytes.len();
    assert(stringbytes@ == encode_utf8(data@));
    if length as u64 > 0xffff_ffff {
        return Err(
            DataParseError {
                message: "Your string is ridiculously long, or the size calculation is badly written. Equally likely.".to_string(),
            },
        );
    }
    let mut returndata: Vec<u8> = Vec::new();
    returndata.push(DataIDs::STRING.byte());
    let lengthbytes = be_encode(length as u64, 4);
    returndata.extend_from_slice(lengthbytes.as_slice());
    returndata.extend_from_slice(stringbytes);
    assert(returndata@ =~= encode_value(DataValue::STRING(data@)));
    Ok(returndata)
}


/// Closes a package: the encoded values, then the `ENDPKG` tag.
pub fn close_package(bytes: Vec<u8>) -> (r: Vec<u8>)
    ensures
        r@ == bytes@.push(DataIDs::ENDPKG.spec_byte()),
{
    let mut r = bytes;
    r.push(DataIDs::ENDPKG.byte());
    r
}

} // verus!
