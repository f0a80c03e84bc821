use shared::data::{
    close_package, encode_char, encode_f32, encode_i16, encode_i8, encode_i32, encode_i64, encode_string, encode_u16, encode_u32,
    encode_u64, encode_u8, parse, parse_basic, parse_checked, DataIDs, ParsedData, ParsedNodeId,
};

fn message_of(bytes: &[u8]) -> String {
    match parse(bytes) {
        Ok(t) => panic!("unexpected success: {:?}", t),
        Err(e) => e.description(),
    }
}

#[test]
fn tag_table_follows_the_format() {
    assert_eq!(DataIDs::try_from(0u8), Ok(DataIDs::U32));
    assert_eq!(DataIDs::try_from(1u8), Ok(DataIDs::U64));
    assert_eq!(DataIDs::try_from(2u8), Ok(DataIDs::I32));
    assert_eq!(DataIDs::try_from(3u8), Ok(DataIDs::I64));
    assert_eq!(DataIDs::try_from(4u8), Ok(DataIDs::STRING));
    assert_eq!(DataIDs::try_from(5u8), Ok(DataIDs::VECTOR));
    assert_eq!(DataIDs::try_from(6u8), Ok(DataIDs::BEGINARGS));
    assert_eq!(DataIDs::try_from(7u8), Ok(DataIDs::U8));
    assert_eq!(DataIDs::try_from(8u8), Ok(DataIDs::CHAR));
    assert_eq!(DataIDs::try_from(9u8), Ok(DataIDs::F32));
    assert_eq!(DataIDs::try_from(10u8), Ok(DataIDs::F64));
    assert_eq!(DataIDs::try_from(11u8), Ok(DataIDs::U16));
    assert_eq!(DataIDs::try_from(12u8), Ok(DataIDs::I8));
    assert_eq!(DataIDs::try_from(13u8), Ok(DataIDs::ENDPKG));
    assert_eq!(DataIDs::try_from(14u8), Ok(DataIDs::I16));
}

#[test]
fn encoders_write_tag_then_big_endian_bytes() {
    assert_eq!(encode_u32(0x0102_0304), [0, 1, 2, 3, 4]);
    assert_eq!(encode_u64(5), [1, 0, 0, 0, 0, 0, 0, 0, 5]);
    assert_eq!(encode_i32(-2), [2, 0xff, 0xff, 0xff, 0xfe]);
    assert_eq!(encode_i64(-1), [3, 0xff, 0xff, 0xff, 0xff, 0xff, 0xff, 0xff, 0xff]);
    assert_eq!(encode_u8(7), [7, 7]);
    assert_eq!(encode_u16(0x1234), [11, 0x12, 0x34]);
    assert_eq!(encode_i16(-2), [14, 0xff, 0xfe]);
    assert_eq!(encode_char('A'), [8, 0, 0, 0, 65]);
    assert_eq!(encode_char('Ä'), [8, 0, 0, 0, 0xc4]);
    assert_eq!(encode_char('\n'), [8, 0, 0, 0, 0x0a]);
    assert_eq!(encode_f32(200.0f32.to_bits()), [9, 0x43, 0x48, 0, 0]);
    assert_eq!(encode_i8(-1), [12, 0xff]);
}

#[test]
fn string_is_tag_then_four_byte_length_then_utf8() {
    assert_eq!(encode_string(String::new()).unwrap(), vec![4, 0, 0, 0, 0]);
    assert_eq!(encode_string("ab".to_string()).unwrap(), vec![4, 0, 0, 0, 2, 97, 98]);
    let long = "x".repeat(300);
    let bytes = encode_string(long).unwrap();
    assert_eq!(&bytes[..5], &[4, 0, 0, 1, 44]);
    assert_eq!(bytes.len(), 305);
    // "Ä" is two bytes of UTF-8.
    assert_eq!(encode_string("Ä".to_string()).unwrap(), vec![4, 0, 0, 0, 2, 0xc3, 0x84]);
}

#[test]
fn several_values_come_back_in_order_and_chained() {
    let mut bytes = Vec::new();
    bytes.extend_from_slice(&encode_u8(1));
    bytes.extend_from_slice(&encode_string("hi".to_string()).unwrap());
    bytes.extend_from_slice(&encode_i16(-300));
    bytes.push(DataIDs::ENDPKG.byte());
    let tree = parse(&bytes).unwrap();
    assert_eq!(tree.nodes.len(), 3);
    assert!(matches!(tree.nodes[0].data, ParsedData::U8(1)));
    assert!(matches!(&tree.nodes[1].data, ParsedData::STRING(s) if s == "hi"));
    assert!(matches!(tree.nodes[2].data, ParsedData::I16(-300)));
    let one = Some(ParsedNodeId(1));
    assert_eq!(tree.nodes[0].prev, None);
    assert_eq!(tree.nodes[0].next, one);
    assert_eq!(tree.nodes[1].prev, one);
    assert_eq!(tree.nodes[1].next, one);
    assert_eq!(tree.nodes[2].prev, one);
    assert_eq!(tree.nodes[2].next, None);
    for n in &tree.nodes {
        assert_eq!(n.parent, None);
    }
}

#[test]
fn bytes_after_the_end_tag_are_not_read() {
    let tree = parse(&[7, 9, 13, 200, 4, 5]).unwrap();
    assert_eq!(tree.nodes.len(), 1);
    assert!(matches!(tree.nodes[0].data, ParsedData::U8(9)));
}

#[test]
fn empty_package_parses_to_no_nodes() {
    let tree = parse(&[13]).unwrap();
    assert!(tree.nodes.is_empty());
}

#[test]
fn missing_end_tag_is_rejected() {
    assert_eq!(message_of(&[]), "Recieved data without a proper end signal.");
    assert_eq!(message_of(&[7, 5]), "Recieved data without a proper end signal.");
}

#[test]
fn unknown_tag_is_rejected() {
    assert_eq!(message_of(&[15, 13]), "Attempted to parse datatype that doesn't exist");
}

#[test]
fn array_and_argument_tags_are_rejected() {
    assert_eq!(message_of(&[5, 13]), "Attempted to parse an invalid datatype");
    assert_eq!(message_of(&[6, 13]), "Attempted to parse an invalid datatype");
}

#[test]
fn cut_short_values_are_rejected() {
    assert_eq!(message_of(&[11, 0]), "Error when parsing  U16");
    assert_eq!(message_of(&[3, 0, 0]), "Error when parsing  I64");
    assert_eq!(message_of(&[8, 0]), "Error when parsing  CHAR");
    assert_eq!(message_of(&[10]), "Error when parsing  F64");
}

#[test]
fn cut_short_string_length_is_rejected() {
    assert_eq!(message_of(&[4, 0, 0]), "Reading string would cause a buffer overflow :(");
    assert_eq!(message_of(&[4]), "Reading string would cause a buffer overflow :(");
}

#[test]
fn string_running_past_the_end_is_rejected() {
    assert_eq!(
        message_of(&[4, 0, 0, 0, 5, 97, 13]),
        "Reading string would cause a buffer overflow :("
    );
}

#[test]
fn invalid_utf8_string_is_rejected() {
    assert_eq!(message_of(&[4, 0, 0, 0, 1, 0xff, 13]), "String wasn't a valid utf8 string");
}

#[test]
fn packages_that_cannot_be_read_are_told_apart() {
    // a surrogate code point as a char
    assert!(parse_checked(&[8, 0, 0, 0xd8, 0, 13]).is_none());
    // the others are parsed as by `parse`
    assert!(matches!(parse_checked(&[13]), Some(Ok(_))));
    assert!(matches!(parse_checked(&[4]), Some(Err(_))));
    assert!(matches!(parse_checked(&[15]), Some(Err(_))));
}

#[test]
fn float_payloads_hold_the_bit_pattern() {
    let tree = parse(&[9, 0x3f, 0x80, 0, 0, 13]).unwrap();
    match tree.nodes[0].data {
        ParsedData::F32(bits) => assert_eq!(f32::from_bits(bits), 1.0),
        _ => panic!("Incorrect datatype parsed"),
    }
}

#[test]
fn tags_come_back_from_their_bytes() {
    let all = [
        DataIDs::U32,
        DataIDs::U64,
        DataIDs::I32,
        DataIDs::I64,
        DataIDs::STRING,
        DataIDs::VECTOR,
        DataIDs::BEGINARGS,
        DataIDs::U8,
        DataIDs::CHAR,
        DataIDs::F32,
        DataIDs::F64,
        DataIDs::U16,
        DataIDs::I8,
        DataIDs::ENDPKG,
        DataIDs::I16,
    ];
    for (i, t) in all.iter().enumerate() {
        assert_eq!(t.byte() as usize, i);
        assert_eq!(DataIDs::try_from(t.byte()), Ok(*t));
    }
    assert_eq!(DataIDs::try_from(15u8), Err(()));
    assert_eq!(DataIDs::try_from(255u8), Err(()));
}

#[test]
fn fixed_width_values_re_encode_to_their_bytes() {
    let bytes = [1, 1, 2, 3, 4, 5, 6, 7, 8, 13];
    let tree = parse(&bytes).unwrap();
    match tree.nodes[0].data {
        ParsedData::U64(v) => assert_eq!(encode_u64(v).to_vec(), bytes[..9].to_vec()),
        _ => panic!("Incorrect datatype parsed"),
    }
    let bytes = [2, 0xff, 0xdc, 0xe1, 0x76, 13];
    let tree = parse(&bytes).unwrap();
    match tree.nodes[0].data {
        ParsedData::I32(v) => {
            assert_eq!(v, -2301578);
            assert_eq!(encode_i32(v).to_vec(), bytes[..5].to_vec());
        }
        _ => panic!("Incorrect datatype parsed"),
    }
}

#[test]
fn parse_basic_consumes_the_whole_encoding() {
    let (d, n) = parse_basic(&encode_i16(-999)).unwrap();
    assert!(matches!(d, ParsedData::I16(-999)));
    assert_eq!(n, 2);
    let (d, n) = parse_basic(&encode_char('å')).unwrap();
    assert!(matches!(d, ParsedData::CHAR('å')));
    assert_eq!(n, 4);
    assert_eq!(
        parse_basic(&[4, 0]).unwrap_err().message,
        "Tried to parse non-basic datatype as a basic datatype"
    );
    assert_eq!(
        parse_basic(&[99]).unwrap_err().message,
        "Attempted to parse invalid datatype when parsing basic data"
    );
}

#[test]
fn close_package_appends_the_end_tag() {
    assert_eq!(close_package(encode_u8(3).to_vec()), vec![7, 3, 13]);
    assert_eq!(close_package(Vec::new()), vec![13]);
}

#[test]
fn original_string_buffer_is_read() {
    // "Räkmacka", then the end tag, then zeros, as in a fixed-size buffer
    let mut buff = [0u8; 64];
    let enc = encode_string("Räkmacka".to_string()).unwrap();
    buff[..enc.len()].copy_from_slice(&enc);
    buff[enc.len()] = 13;
    let tree = parse(&buff).unwrap();
    assert!(matches!(&tree.nodes[0].data, ParsedData::STRING(s) if s == "Räkmacka"));
}
