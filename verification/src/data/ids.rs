//! The one-byte type tags of the format.
use vstd::prelude::*;
use vstd::std_specs::convert::TryFromSpecImpl;

verus! {

/// The type tag that precedes every value in a package.
///
/// Its byte is the position of the variant in this list. The format's type
/// table gives bytes 0 to 6 (`U32` = 0, `U64` = 1, `I32` = 2, `I64` = 3,
/// `STRING` = 4, `VECTOR` (an array) = 5, `BEGINARGS` = 6); `CHAR` = 8,
/// `F32` = 9, `F64` = 10 and the end of a package `ENDPKG` = 13 keep their
/// established bytes; `U8` = 7, `U16` = 11, `I8` = 12 and `I16` = 14 take the
/// bytes left free.
#[allow(non_camel_case_types, clippy::upper_case_acronyms)]
#[derive(Debug, Clone, Copy, PartialEq, Eq, Structural)]
pub enum DataIDs {
    U32,
    U64,
    I32,
    I64,
    STRING,
    VECTOR,
    BEGINARGS,
    U8,
    CHAR,
    F32,
    F64,
    U16,
    I8,
    ENDPKG,
    I16,
}

impl DataIDs {
    /// The byte that stands for this tag.
    pub open spec fn spec_byte(self) -> u8 {
        match self {
            DataIDs::U32 => 0,
            DataIDs::U64 => 1,
            DataIDs::I32 => 2,
            DataIDs::I64 => 3,
            DataIDs::STRING => 4,
            DataIDs::VECTOR => 5,
            DataIDs::BEGINARGS => 6,
            DataIDs::U8 => 7,
            DataIDs::CHAR => 8,
            DataIDs::F32 => 9,
            DataIDs::F64 => 10,
            DataIDs::U16 => 11,
            DataIDs::I8 => 12,
            DataIDs::ENDPKG => 13,
            DataIDs::I16 => 14,
        }
    }

    /// The tag that a byte stands for, if any: bytes 0 to 14 are tags.
    pub open spec fn spec_from_byte(b: u8) -> Option<DataIDs> {
        if b == 0 {
            Some(DataIDs::U32)
        } else if b == 1 {
            Some(DataIDs::U64)
        } else if b == 2 {
            Some(DataIDs::I32)
        } else if b == 3 {
            Some(DataIDs::I64)
        } else if b == 4 {
            Some(DataIDs::STRING)
        } else if b == 5 {
            Some(DataIDs::VECTOR)
        } else if b == 6 {
            Some(DataIDs::BEGINARGS)
        } else if b == 7 {
            Some(DataIDs::U8)
        } else if b == 8 {
            Some(DataIDs::CHAR)
        } else if b == 9 {
            Some(DataIDs::F32)
        } else if b == 10 {
            Some(DataIDs::F64)
        } else if b == 11 {
            Some(DataIDs::U16)
        } else if b == 12 {
            Some(DataIDs::I8)
        } else if b == 13 {
            Some(DataIDs::ENDPKG)
        } else if b == 14 {
            Some(DataIDs::I16)
        } else {
            None
        }
    }

    /// True for the tags whose value has a fixed width (integers, `CHAR` and floats).
    pub open spec fn is_basic(self) -> bool {
        !(self is STRING || self is VECTOR || self is BEGINARGS || self is ENDPKG)
    }

    /// The byte that stands for this tag.
    pub fn byte(&self) -> (r: u8)
        ensures
            r == self.spec_byte(),
    {
        match self {
            DataIDs::U32 => 0,
            DataIDs::U64 => 1,
            DataIDs::I32 => 2,
            DataIDs::I64 => 3,
            DataIDs::STRING => 4,
            DataIDs::VECTOR => 5,
            DataIDs::BEGINARGS => 6,
            DataIDs::U8 => 7,
            DataIDs::CHAR => 8,
            DataIDs::F32 => 9,
            DataIDs::F64 => 10,
            DataIDs::U16 => 11,
            DataIDs::I8 => 12,
            DataIDs::ENDPKG => 13,
            DataIDs::I16 => 14,
        }
    }
}

impl TryFrom<u8> for DataIDs {
    type Error = ();

    fn try_from(value: u8) -> (r: Result<Self, Self::Error>) {
        match value {
            0 => Ok(DataIDs::U32),
            1 => Ok(DataIDs::U64),
            2 => Ok(DataIDs::I32),
            3 => Ok(DataIDs::I64),
            4 => Ok(DataIDs::STRING),
            5 => Ok(DataIDs::VECTOR),
            6 => Ok(DataIDs::BEGINARGS),
            7 => Ok(DataIDs::U8),
            8 => Ok(DataIDs::CHAR),
            9 => Ok(DataIDs::F32),
            10 => Ok(DataIDs::F64),
            11 => Ok(DataIDs::U16),
            12 => Ok(DataIDs::I8),
            13 => Ok(DataIDs::ENDPKG),
            14 => Ok(DataIDs::I16),
            _ => Err(()),
        }
    }
}

impl TryFromSpecImpl<u8> for DataIDs {
    open spec fn obeys_try_from_spec() -> bool {
        true
    }

    open spec fn try_from_spec(v: u8) -> Result<Self, ()> {
        match DataIDs::spec_from_byte(v) {
            Some(t) => Ok(t),
            None => Err(()),
        }
    }
}

/// Every tag comes back from its byte, and the bytes above 14 stand for no tag.
pub proof fn lemma_tag_byte_roundtrip(t: DataIDs, b: u8)
    ensures
        DataIDs::spec_from_byte(t.spec_byte()) == Some(t),
        DataIDs::spec_from_byte(b) is Some <==> b <= 14,
        DataIDs::spec_from_byte(b) matches Some(u) ==> u.spec_byte() == b,
{
}


/// The tag table: the format's types on bytes 0 to 6 (u32, u64, i32, i64,
/// String, Array, BeginArgs), `CHAR`, `F32`, `F64` and the end tag on 8, 9, 10
/// and 13, and `U8`, `U16`, `I8`, `I16` on 7, 11, 12 and 14.
pub proof fn lemma_tag_table()
    ensures
        DataIDs::spec_from_byte(0) == Some(DataIDs::U32),
        DataIDs::spec_from_byte(1) == Some(DataIDs::U64),
        DataIDs::spec_from_byte(2) == Some(DataIDs::I32),
        DataIDs::spec_from_byte(3) == Some(DataIDs::I64),
        DataIDs::spec_from_byte(4) == Some(DataIDs::STRING),
        DataIDs::spec_from_byte(5) == Some(DataIDs::VECTOR),
        DataIDs::spec_from_byte(6) == Some(DataIDs::BEGINARGS),
        DataIDs::spec_from_byte(7) == Some(DataIDs::U8),
        DataIDs::spec_from_byte(8) == Some(DataIDs::CHAR),
        DataIDs::spec_from_byte(9) == Some(DataIDs::F32),
        DataIDs::spec_from_byte(10) == Some(DataIDs::F64),
        DataIDs::spec_from_byte(11) == Some(DataIDs::U16),
        DataIDs::spec_from_byte(12) == Some(DataIDs::I8),
        DataIDs::spec_from_byte(13) == Some(DataIDs::ENDPKG),
        DataIDs::spec_from_byte(14) == Some(DataIDs::I16),
        forall|b: u8| b > 14 ==> DataIDs::spec_from_byte(b) is None,
{
}

} // verus!
