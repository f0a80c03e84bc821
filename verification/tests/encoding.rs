use shared::data::{
    encode_char, encode_f32, encode_f64, encode_i16, encode_i32, encode_i64, encode_i8,
    encode_string, encode_u16, encode_u32, encode_u64, encode_u8, parse, DataIDs, ParsedData,
};

const TESTS_U8: [u8; 5] = [2, u8::MAX, 100, 5, 6];
const TESTS_U16: [u16; 5] = [u8::MAX as u16, u16::MAX, 4, 5, 6];
const TESTS_U32: [u32; 5] = [2, u32::MAX, 4, 5, 6];
const TESTS_U64: [u64; 5] = [2, u64::MAX, 4, 5, 6];
const TESTS_I8: [i8; 5] = [-23, i8::MAX, 4, 5, 6];
const TESTS_I16: [i16; 5] = [2, i16::MAX, -999, 5, 6];
const TESTS_I32: [i32; 5] = [2, i32::MAX, -2301578, 5, 6];
const TESTS_I64: [i64; 5] = [2, i64::MAX, 4, 5, 6];
const TESTS_F32: [f32; 5] = [-23.0, i8::MAX as f32, 0.333333333, 6.0, 0.0];
const TESTS_F64: [f64; 5] = [2.0, i16::MAX as f64, -999.0, 30.0, -2319.392048];
const TESTS_CHAR: [char; 5] = ['Ä', '\\', '\n', 'å', 'A'];

/// Puts an encoding into a buffer one byte longer, closes it with the end tag and parses it.
fn parse_single(encoded: &[u8]) -> ParsedData {
    let mut buff = vec![0u8; encoded.len() + 1];
    buff[..encoded.len()].copy_from_slice(encoded);
    buff[encoded.len()] = DataIDs::ENDPKG.byte();
    let tree = match parse(&buff) {
        Ok(t) => t,
        Err(e) => panic!("{:?}", e),
    };
    tree.nodes[0].data.clone()
}

#[test]
fn test_encoding_u8() {
    for v in TESTS_U8 {
        match parse_single(&encode_u8(v)) {
            ParsedData::U8(contents) => assert_eq!(v, contents),
            _ => panic!("Incorrect datatype parsed"),
        }
    }
}

#[test]
fn test_encoding_u16() {
    for v in TESTS_U16 {
        match parse_single(&encode_u16(v)) {
            ParsedData::U16(contents) => assert_eq!(v, contents),
            _ => panic!("Incorrect datatype parsed"),
        }
    }
}

#[test]
fn test_encoding_u32() {
    for v in TESTS_U32 {
        match parse_single(&encode_u32(v)) {
            ParsedData::U32(contents) => assert_eq!(v, contents),
            _ => panic!("Incorrect datatype parsed"),
        }
    }
}

#[test]
fn test_encoding_u64() {
    for v in TESTS_U64 {
        match parse_single(&encode_u64(v)) {
            ParsedData::U64(contents) => assert_eq!(v, contents),
            _ => panic!("Incorrect datatype parsed"),
        }
    }
}

#[test]
fn test_encoding_i8() {
    for v in TESTS_I8 {
        match parse_single(&encode_i8(v)) {
            ParsedData::I8(contents) => assert_eq!(v, contents),
            _ => panic!("Incorrect datatype parsed"),
        }
    }
}

#[test]
fn test_encoding_i16() {
    for v in TESTS_I16 {
        match parse_single(&encode_i16(v)) {
            ParsedData::I16(contents) => assert_eq!(v, contents),
            _ => panic!("Incorrect datatype parsed"),
        }
    }
}

#[test]
fn test_encoding_i32() {
    for v in TESTS_I32 {
        match parse_single(&encode_i32(v)) {
            ParsedData::I32(contents) => assert_eq!(v, contents),
            _ => panic!("Incorrect datatype parsed"),
        }
    }
}

#[test]
fn test_encoding_i64() {
    for v in TESTS_I64 {
        match parse_single(&encode_i64(v)) {
            ParsedData::I64(contents) => assert_eq!(v, contents),
            _ => panic!("Incorrect datatype parsed"),
        }
    }
}

#[test]
fn test_encoding_f32() {
    for v in TESTS_F32 {
        match parse_single(&encode_f32(v.to_bits())) {
            ParsedData::F32(bits) => assert_eq!(v, f32::from_bits(bits)),
            _ => panic!("Incorrect datatype parsed"),
        }
    }
}

#[test]
fn test_encoding_f64() {
    for v in TESTS_F64 {
        match parse_single(&encode_f64(v.to_bits())) {
            ParsedData::F64(bits) => assert_eq!(v, f64::from_bits(bits)),
            _ => panic!("Incorrect datatype parsed"),
        }
    }
}

#[test]
fn test_encoding_char() {
    for v in TESTS_CHAR {
        match parse_single(&encode_char(v)) {
            ParsedData::CHAR(contents) => assert_eq!(v, contents),
            _ => panic!("Incorrect datatype parsed"),
        }
    }
}

#[test]
fn test_encoding_string() {
    let tests_string: [String; 4] = [
        "Räkmacka".to_string(),
        "I LOVE 'Escaping' \"STRINGS\"".to_string(),
        "I ^^, *** Sp3<!4L <h4r4<t3r2".to_string(),
        "This is straight up just a normal string".to_string(),
    ];
    const SIZE: usize = 4096;
    let mut buff: [u8; SIZE] = [0; SIZE];

    for j in 0..tests_string.len() {
        let test_bytes = match encode_string(tests_string[j].clone()) {
            Err(_e) => panic!(),
            Ok(t) => t,
        };
        let mut maxlen = 0;
        for i in 0..test_bytes.len() {
            if i >= buff.len() - 1 {
                break;
            }
            maxlen += 1;
            buff[i] = test_bytes[i];
        }
        buff[maxlen] = DataIDs::ENDPKG.byte();
        let tree = match parse(&buff) {
            Ok(t) => t,
            Err(e) => {
                if test_bytes.len() > buff.len() - 1
                    && e.message == "Reading string would cause a buffer overflow :(".to_string()
                {
                    return;
                }
                panic!("{:?}", e)
            }
        };

        let data = tree.nodes[0].data.clone();
        match data {
            ParsedData::STRING(contents) => {
                assert_eq!(tests_string[j], contents)
            }
            _ => panic!("Incorrect datatype parsed"),
        }
    }
}
