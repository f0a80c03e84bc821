//! What the encoders and the parser promise together.
use vstd::prelude::*;
use vstd::utf8::{
    char_is_scalar, char_u32_cast, decode_utf8, decode_utf8_encode_utf8, encode_utf8,
    encode_utf8_decode_utf8, encode_utf8_valid_utf8, valid_utf8,
};

use crate::data::bytes::{
    be_bytes, lemma_be_bytes_len, lemma_be_roundtrip, lemma_pow256_values, lemma_twos_roundtrip,
    twos,
};
use crate::data::encode::{encodable, encode_value, string_encodable, tagged};
use crate::data::ids::DataIDs;
use crate::data::parse::{
    parse_from, prepend, spec_parse, spec_parse_basic, spec_read_item, spec_read_string,
    BasicRead, ItemRead, ParseOutcome,
};
use crate::helper::DataValue;

verus! {

/// The bytes of several values, encoded one after the other.
pub open spec fn encode_values(vals: Seq<DataValue>) -> Seq<u8>
    decreases vals.len(),
{
    if vals.len() == 0 {
        Seq::empty()
    } else {
        encode_value(vals[0]) + encode_values(vals.drop_first())
    }
}

/// A package holding `vals`: their encodings, then the `ENDPKG` tag.
pub open spec fn package(vals: Seq<DataValue>) -> Seq<u8> {
    encode_values(vals).push(DataIDs::ENDPKG.spec_byte())
}

/// The tag that an encodable value is written with.
pub open spec fn tag_of(v: DataValue) -> DataIDs {
    match v {
        DataValue::U8(_) => DataIDs::U8,
        DataValue::U16(_) => DataIDs::U16,
        DataValue::U32(_) => DataIDs::U32,
        DataValue::U64(_) => DataIDs::U64,
        DataValue::I8(_) => DataIDs::I8,
        DataValue::I16(_) => DataIDs::I16,
        DataValue::I32(_) => DataIDs::I32,
        DataValue::I64(_) => DataIDs::I64,
        DataValue::CHAR(_) => DataIDs::CHAR,
        DataValue::F32(_) => DataIDs::F32,
        DataValue::F64(_) => DataIDs::F64,
        _ => DataIDs::STRING,
    }
}

/// A fixed-width payload written as `tagged(t, u, n)` reads back as the number `u`.
proof fn lemma_read_tagged(s: Seq<u8>, idx: nat, t: DataIDs, u: nat, n: nat)
    requires
        t.is_basic(),
        n == crate::data::parse::basic_width(t),
        u < crate::data::bytes::pow256(n),
        idx + 1 + n <= s.len(),
        s.subrange(idx as int, (idx + 1 + n) as int) == tagged(t, u, n),
    ensures
        s[idx as int] == t.spec_byte(),
        crate::data::bytes::be_value(s.subrange((idx + 1) as int, (idx + 1 + n) as int)) == u,
        s.subrange(idx as int, s.len() as int).subrange(1, 1 + n as int) == s.subrange((idx + 1) as int, (idx + 1 + n) as int),
        s.subrange(idx as int, s.len() as int)[0] == t.spec_byte(),
        s.subrange(idx as int, s.len() as int).len() >= 1 + n,
{
    lemma_be_bytes_len(u, n);
    let enc = tagged(t, u, n);
    assert(s[idx as int] == s.subrange(idx as int, (idx + 1 + n) as int)[0]);
    assert(s.subrange((idx + 1) as int, (idx + 1 + n) as int) =~= enc.subrange(1, 1 + n as int));
    assert(enc.subrange(1, 1 + n as int) =~= be_bytes(u, n));
    lemma_be_roundtrip(u, n);
    assert(s.subrange(idx as int, s.len() as int).subrange(1, 1 + n as int) =~= s.subrange((idx + 1) as int, (idx + 1 + n) as int));
}

/// Reading an encoded value gives it back and moves past its encoding.
pub proof fn lemma_read_encoded(s: Seq<u8>, idx: nat, v: DataValue)
    requires
        encodable(v),
        idx + encode_value(v).len() <= s.len(),
        s.len() <= usize::MAX,
        s.subrange(idx as int, (idx + encode_value(v).len()) as int) == encode_value(v),
    ensures
        encode_value(v).len() > 0,
        DataIDs::spec_from_byte(s[idx as int]) == Some(tag_of(v)),
        spec_read_item(s, idx, tag_of(v)) == ItemRead::Read(v, idx + encode_value(v).len()),
{
    lemma_pow256_values();
    let enc = encode_value(v);
    let b = s.subrange(idx as int, s.len() as int);
    if v is STRING {
        lemma_read_encoded_string(s, idx, v->STRING_0);
    } else {
        let (t, u, n) = basic_parts(v);
        lemma_be_bytes_len(u, n);
        match v {
            DataValue::I8(x) => lemma_twos_roundtrip(x as int, 1),
            DataValue::I16(x) => lemma_twos_roundtrip(x as int, 2),
            DataValue::I32(x) => lemma_twos_roundtrip(x as int, 4),
            DataValue::I64(x) => lemma_twos_roundtrip(x as int, 8),
            DataValue::CHAR(c) => {
                char_is_scalar(c);
                char_u32_cast(c, c as u32);
            },
            _ => {},
        }
        lemma_read_tagged(s, idx, t, u, n);
    }
}

/// The tag, payload number and payload width of a fixed-width value.
spec fn basic_parts(v: DataValue) -> (DataIDs, nat, nat) {
    match v {
        DataValue::U8(x) => (DataIDs::U8, x as nat, 1),
        DataValue::U16(x) => (DataIDs::U16, x as nat, 2),
        DataValue::U32(x) => (DataIDs::U32, x as nat, 4),
        DataValue::U64(x) => (DataIDs::U64, x as nat, 8),
        DataValue::I8(x) => (DataIDs::I8, twos(x as int, 1), 1),
        DataValue::I16(x) => (DataIDs::I16, twos(x as int, 2), 2),
        DataValue::I32(x) => (DataIDs::I32, twos(x as int, 4), 4),
        DataValue::I64(x) => (DataIDs::I64, twos(x as int, 8), 8),
        DataValue::CHAR(c) => (DataIDs::CHAR, (c as u32) as nat, 4),
        DataValue::F32(x) => (DataIDs::F32, x as nat, 4),
        _ => (DataIDs::F64, v->F64_0 as nat, 8),
    }
}

proof fn lemma_read_encoded_string(s: Seq<u8>, idx: nat, cs: Seq<char>)
    requires
        encodable(DataValue::STRING(cs)),
        idx + encode_value(DataValue::STRING(cs)).len() <= s.len(),
        s.len() <= usize::MAX,
        s.subrange(idx as int, (idx + encode_value(DataValue::STRING(cs)).len()) as int) == encode_value(
            DataValue::STRING(cs),
        ),
    ensures
        encode_value(DataValue::STRING(cs)).len() > 0,
        DataIDs::spec_from_byte(s[idx as int]) == Some(DataIDs::STRING),
        spec_read_item(s, idx, DataIDs::STRING) == ItemRead::Read(
            DataValue::STRING(cs),
            idx + encode_value(DataValue::STRING(cs)).len(),
        ),
{
    lemma_pow256_values();
    let v = DataValue::STRING(cs);
    let enc = encode_value(v);
    let text = encode_utf8(cs);
    let len = text.len();
    lemma_be_bytes_len(len, 4);
    let whole = s.subrange(idx as int, (idx + enc.len()) as int);
    assert(s[idx as int] == whole[0]);
    let p = idx + 1;
    assert(s.subrange(p as int, p + 4 as int) =~= whole.subrange(1, 5));
    assert(enc.subrange(1, 5) =~= be_bytes(len, 4));
    lemma_be_roundtrip(len, 4);
    let start = p + 4;
    assert(s.subrange(start as int, (start + len) as int) =~= whole.subrange(
        5,
        enc.len() as int,
    ));
    assert(enc.subrange(5, enc.len() as int) =~= text);
    encode_utf8_valid_utf8(cs);
    encode_utf8_decode_utf8(cs);
    assert(spec_read_string(s, idx) == ItemRead::Read(v, start + len));
}

/// A package of encodable values, followed by any bytes, parses from `idx` on to exactly those values.
proof fn lemma_parse_package_from(s: Seq<u8>, idx: nat, vals: Seq<DataValue>)
    requires
        forall|i: int| 0 <= i < vals.len() ==> encodable(#[trigger] vals[i]),
        idx + package(vals).len() <= s.len(),
        s.len() <= usize::MAX,
        s.subrange(idx as int, (idx + package(vals).len()) as int) == package(vals),
    ensures
        parse_from(s, idx) == ParseOutcome::Done(vals),
    decreases vals.len(),
{
    if vals.len() == 0 {
        assert(package(vals) =~= seq![DataIDs::ENDPKG.spec_byte()]);
        assert(s[idx as int] == s.subrange(idx as int, (idx + 1) as int)[0]);
        assert(vals =~= Seq::<DataValue>::empty());
    } else {
        let v = vals[0];
        let rest = vals.drop_first();
        let enc = encode_value(v);
        assert(package(vals) =~= enc + package(rest));
        assert(s.subrange(idx as int, (idx + enc.len()) as int) =~= enc);
        lemma_read_encoded(s, idx, v);
        let next = idx + enc.len();
        let total = package(vals).len();
        assert(s.subrange(next as int, (next + package(rest).len()) as int) =~= s.subrange(
            idx as int,
            (idx + total) as int,
        ).subrange(enc.len() as int, total as int));
        assert(package(vals).subrange(enc.len() as int, total as int) =~= package(rest));
        assert forall|i: int| 0 <= i < rest.len() implies encodable(#[trigger] rest[i]) by {
            assert(rest[i] == vals[i + 1]);
        }
        lemma_parse_package_from(s, next, rest);
        assert(seq![v] + rest =~= vals);
        assert(parse_from(s, idx) == prepend(v, parse_from(s, next)));
    }
}

/// Parsing a package built by the encoders gives back exactly the values that went
/// into it, in order, whatever bytes follow its end tag.
pub proof fn lemma_encode_parse_roundtrip(vals: Seq<DataValue>, trailing: Seq<u8>)
    requires
        forall|i: int| 0 <= i < vals.len() ==> encodable(#[trigger] vals[i]),
        package(vals).len() + trailing.len() <= usize::MAX,
    ensures
        spec_parse(package(vals) + trailing) == ParseOutcome::Done(vals),
{
    let s = package(vals) + trailing;
    assert(s.subrange(0, package(vals).len() as int) =~= package(vals));
    lemma_parse_package_from(s, 0, vals);
}


proof fn lemma_basic_extend(b: Seq<u8>, t: Seq<u8>)
    requires
        spec_parse_basic(b) is Read,
    ensures
        spec_parse_basic(b + t) == spec_parse_basic(b),
{
    let bt = b + t;
    assert(bt[0] == b[0]);
    let tag = DataIDs::spec_from_byte(b[0]).unwrap();
    let w = crate::data::parse::basic_width(tag);
    assert(bt.subrange(1, 1 + w as int) =~= b.subrange(1, 1 + w as int));
    if tag is CHAR {
        assert(bt.subrange(1, 5) =~= b.subrange(1, 5));
    }
}

proof fn lemma_item_extend(s: Seq<u8>, t: Seq<u8>, idx: nat, tag: DataIDs)
    requires
        idx < s.len(),
        (s + t).len() <= usize::MAX,
        spec_read_item(s, idx, tag) matches ItemRead::Read(_, next) && next <= s.len(),
    ensures
        spec_read_item(s + t, idx, tag) == spec_read_item(s, idx, tag),
{
    let st = s + t;
    if tag is STRING {
        let p = idx + 1;
        assert(st.subrange(p as int, p + 4 as int) =~= s.subrange(p as int, p + 4 as int));
        if let ItemRead::Read(_, next) = spec_read_item(s, idx, tag) {
            let start = p + 4;
            assert(st.subrange(start as int, next as int) =~= s.subrange(start as int, next as int));
        }
    } else {
        let b = s.subrange(idx as int, s.len() as int);
        assert(st.subrange(idx as int, st.len() as int) =~= b + t);
        lemma_basic_extend(b, t);
    }
}

proof fn lemma_parse_from_extend(s: Seq<u8>, t: Seq<u8>, idx: nat)
    requires
        parse_from(s, idx) is Done,
        (s + t).len() <= usize::MAX,
    ensures
        parse_from(s + t, idx) == parse_from(s, idx),
    decreases s.len() - idx,
{
    let st = s + t;
    assert(st[idx as int] == s[idx as int]);
    let tag = DataIDs::spec_from_byte(s[idx as int]).unwrap();
    if !(tag is ENDPKG) {
        lemma_item_extend(s, t, idx, tag);
        if let ItemRead::Read(_, next) = spec_read_item(s, idx, tag) {
            lemma_parse_from_extend(s, t, next);
        }
    }
}

/// Bytes after a complete package are never read: appending them leaves the
/// values of a successful parse as they are.
pub proof fn lemma_parse_ignores_trailing(s: Seq<u8>, trailing: Seq<u8>)
    requires
        spec_parse(s) is Done,
        s.len() + trailing.len() <= usize::MAX,
    ensures
        spec_parse(s + trailing) == spec_parse(s),
{
    lemma_parse_from_extend(s, trailing, 0);
}


/// Every fixed-width value that is read re-encodes to exactly the bytes it was read from.
pub proof fn lemma_basic_reencode(b: Seq<u8>)
    requires
        spec_parse_basic(b) is Read,
    ensures
        spec_parse_basic(b) matches BasicRead::Read(v, w) && encode_value(v) == b.subrange(
            0,
            1 + w as int,
        ),
{
    lemma_pow256_values();
    let t = DataIDs::spec_from_byte(b[0]).unwrap();
    let n = crate::data::parse::basic_width(t);
    let p = b.subrange(1, 1 + n as int);
    let u = crate::data::bytes::be_value(p);
    crate::data::bytes::lemma_be_value_bound(p);
    crate::data::bytes::lemma_be_bytes_of_value(p);
    crate::data::ids::lemma_tag_byte_roundtrip(t, b[0]);
    if t is CHAR {
        assert(((u as u32) as char) as u32 == u as u32);
    }
    assert(b.subrange(0, 1 + n as int) =~= seq![b[0]] + p);
}


/// Reading the encoding of a fixed-width value, followed by any bytes, gives
/// the value back and takes exactly its payload: the whole encoding is consumed.
pub proof fn lemma_parse_basic_encoded(v: DataValue, rest: Seq<u8>)
    requires
        encodable(v),
        !(v is STRING),
    ensures
        encode_value(v).len() >= 2,
        spec_parse_basic(encode_value(v) + rest) == BasicRead::Read(
            v,
            (encode_value(v).len() - 1) as nat,
        ),
{
    lemma_pow256_values();
    let s = encode_value(v) + rest;
    let (t, u, n) = basic_parts(v);
    lemma_be_bytes_len(u, n);
    match v {
        DataValue::I8(x) => lemma_twos_roundtrip(x as int, 1),
        DataValue::I16(x) => lemma_twos_roundtrip(x as int, 2),
        DataValue::I32(x) => lemma_twos_roundtrip(x as int, 4),
        DataValue::I64(x) => lemma_twos_roundtrip(x as int, 8),
        DataValue::CHAR(c) => {
            char_is_scalar(c);
            char_u32_cast(c, c as u32);
        },
        _ => {},
    }
    assert(s.subrange(0, 1 + n as int) =~= encode_value(v));
    lemma_read_tagged(s, 0, t, u, n);
    assert(s.subrange(0, s.len() as int) =~= s);
}


/// A string is encoded exactly when its UTF-8 encoding has at most `u32::MAX`
/// bytes, and its encoding is the byte 4, that number of bytes as 4 big-endian
/// bytes, then the UTF-8 bytes; whatever characters it holds.
pub proof fn lemma_string_encoding_layout(s: Seq<char>)
    ensures
        string_encodable(s) <==> encode_utf8(s).len() <= u32::MAX,
        encodable(DataValue::STRING(s)) <==> encode_utf8(s).len() <= u32::MAX,
        encode_value(DataValue::STRING(s)) == seq![4u8] + be_bytes(encode_utf8(s).len(), 4)
            + encode_utf8(s),
{
}

/// Every valid UTF-8 text of at most `u32::MAX` bytes, behind the byte 4 and
/// its length as 4 big-endian bytes, and followed by the end tag 13 and any
/// bytes, parses to exactly one string node holding the decoded text.
pub proof fn lemma_parse_any_utf8_string(text: Seq<u8>, trailing: Seq<u8>)
    requires
        valid_utf8(text),
        text.len() <= u32::MAX,
        6 + text.len() + trailing.len() <= usize::MAX,
    ensures
        spec_parse(seq![4u8] + be_bytes(text.len(), 4) + text + seq![13u8] + trailing)
            == ParseOutcome::Done(seq![DataValue::STRING(decode_utf8(text))]),
{
    let cs = decode_utf8(text);
    decode_utf8_encode_utf8(text);
    assert(encode_utf8(cs) == text);
    let v = DataValue::STRING(cs);
    let vals = seq![v];
    lemma_be_bytes_len(text.len(), 4);
    reveal_with_fuel(encode_values, 2);
    assert(vals.drop_first() =~= Seq::<DataValue>::empty());
    assert(encode_values(vals) =~= encode_value(v));
    assert(package(vals) =~= seq![4u8] + be_bytes(text.len(), 4) + text + seq![13u8]);
    assert forall|i: int| 0 <= i < vals.len() implies encodable(#[trigger] vals[i]) by {}
    lemma_encode_parse_roundtrip(vals, trailing);
    assert(package(vals) + trailing =~= seq![4u8] + be_bytes(text.len(), 4) + text + seq![13u8]
        + trailing);
}


/// A fixed-width value is written as its tag byte followed by a payload of its
/// width whose big-endian number is the value: unsigned as it is, signed in two's
/// complement, a `char` by its scalar value, a float by its bit pattern.
pub proof fn lemma_fixed_width_payloads(v: DataValue)
    requires
        encodable(v),
        !(v is STRING),
    ensures
        ({
            let enc = encode_value(v);
            let num = crate::data::bytes::be_value(enc.subrange(1, enc.len() as int));
            match v {
                DataValue::U8(x) => enc.len() == 2 && num == x,
                DataValue::U16(x) => enc.len() == 3 && num == x,
                DataValue::U32(x) => enc.len() == 5 && num == x,
                DataValue::U64(x) => enc.len() == 9 && num == x,
                DataValue::I8(x) => enc.len() == 2 && num == (if x < 0 {
                    x + 0x100
                } else {
                    x as int
                }),
                DataValue::I16(x) => enc.len() == 3 && num == (if x < 0 {
                    x + 0x1_0000
                } else {
                    x as int
                }),
                DataValue::I32(x) => enc.len() == 5 && num == (if x < 0 {
                    x + 0x1_0000_0000
                } else {
                    x as int
                }),
                DataValue::I64(x) => enc.len() == 9 && num == (if x < 0 {
                    x + 0x1_0000_0000_0000_0000
                } else {
                    x as int
                }),
                DataValue::CHAR(c) => enc.len() == 5 && num == c as u32,
                DataValue::F32(bits) => enc.len() == 5 && num == bits,
                DataValue::F64(bits) => enc.len() == 9 && num == bits,
                _ => true,
            }
        }),
{
    lemma_pow256_values();
    let (t, u, n) = basic_parts(v);
    lemma_be_bytes_len(u, n);
    match v {
        DataValue::I8(x) => lemma_twos_roundtrip(x as int, 1),
        DataValue::I16(x) => lemma_twos_roundtrip(x as int, 2),
        DataValue::I32(x) => lemma_twos_roundtrip(x as int, 4),
        DataValue::I64(x) => lemma_twos_roundtrip(x as int, 8),
        _ => {},
    }
    let enc = encode_value(v);
    assert(enc.subrange(1, enc.len() as int) =~= be_bytes(u, n));
    lemma_be_roundtrip(u, n);
}

} // verus!
