//! Encoding and parsing of packages.
pub mod bytes;
pub mod encode;
pub mod ids;
pub mod laws;
pub mod parse;

pub use self::encode::{
    close_package, encode_char, encode_f32, encode_f64, encode_i16, encode_i32, encode_i64, encode_i8,
    encode_string, encode_u16, encode_u32, encode_u64, encode_u8,
};
pub use self::ids::DataIDs;
pub use self::parse::{parse, parse_basic, parse_checked, DataParseError};
pub use crate::helper::{ParsedData, ParsedNode, ParsedNodeId, ParsedTree};
