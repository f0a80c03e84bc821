//! The parsed representation of a package: a flat list of nodes, each holding one value.
use vstd::prelude::*;

verus! {

/// Names a node of a parsed tree. The parser links the nodes it builds with the id 1.
#[derive(Debug, Clone, Copy, PartialEq, Eq, PartialOrd, Ord, Hash, Structural)]
pub struct ParsedNodeId(pub usize);

/// One value read from a package.
///
/// `F32` and `F64` hold the IEEE-754 bit pattern of the float, exactly the
/// bits that travel in the package; `f32::from_bits` / `f64::from_bits` give
/// the float back.
#[allow(non_camel_case_types, clippy::upper_case_acronyms)]
#[derive(Debug, Clone, PartialEq)]
pub enum ParsedData {
    U8(u8),
    U16(u16),
    U32(u32),
    U64(u64),
    I8(i8),
    I16(i16),
    I32(i32),
    I64(i64),
    CHAR(char),
    F32(u32),
    F64(u64),
    STRING(String),
    VECTOR { first_child: Option<ParsedNodeId>, last_child: Option<ParsedNodeId> },
    SIGNAL(u32),
}

/// The mathematical value of a [`ParsedData`]: the same, with a string as its characters.
#[allow(non_camel_case_types, clippy::upper_case_acronyms)]
pub enum DataValue {
    U8(u8),
    U16(u16),
    U32(u32),
    U64(u64),
    I8(i8),
    I16(i16),
    I32(i32),
    I64(i64),
    CHAR(char),
    F32(u32),
    F64(u64),
    STRING(Seq<char>),
    VECTOR { first_child: Option<ParsedNodeId>, last_child: Option<ParsedNodeId> },
    SIGNAL(u32),
}

impl View for ParsedData {
    type V = DataValue;

    open spec fn view(&self) -> DataValue {
        match self {
            ParsedData::U8(x) => DataValue::U8(*x),
            ParsedData::U16(x) => DataValue::U16(*x),
            ParsedData::U32(x) => DataValue::U32(*x),
            ParsedData::U64(x) => DataValue::U64(*x),
            ParsedData::I8(x) => DataValue::I8(*x),
            ParsedData::I16(x) => DataValue::I16(*x),
            ParsedData::I32(x) => DataValue::I32(*x),
            ParsedData::I64(x) => DataValue::I64(*x),
            ParsedData::CHAR(x) => DataValue::CHAR(*x),
            ParsedData::F32(x) => DataValue::F32(*x),
            ParsedData::F64(x) => DataValue::F64(*x),
            ParsedData::STRING(s) => DataValue::STRING(s@),
            ParsedData::VECTOR { first_child, last_child } => DataValue::VECTOR {
                first_child: *first_child,
                last_child: *last_child,
            },
            ParsedData::SIGNAL(x) => DataValue::SIGNAL(*x),
        }
    }
}

/// A node of a parsed tree: its value and its links to the nodes around it.
#[derive(Debug)]
pub struct ParsedNode {
    pub parent: Option<ParsedNodeId>,
    pub next: Option<ParsedNodeId>,
    pub prev: Option<ParsedNodeId>,
    pub data: ParsedData,
}

/// The mathematical value of a [`ParsedNode`].
pub struct NodeValue {
    pub parent: Option<ParsedNodeId>,
    pub next: Option<ParsedNodeId>,
    pub prev: Option<ParsedNodeId>,
    pub data: DataValue,
}

impl View for ParsedNode {
    type V = NodeValue;

    open spec fn view(&self) -> NodeValue {
        NodeValue { parent: self.parent, next: self.next, prev: self.prev, data: self.data@ }
    }
}

/// The nodes of a parsed package, in the order in which their values came.
#[derive(Debug)]
pub struct ParsedTree {
    pub nodes: Vec<ParsedNode>,
}

impl View for ParsedTree {
    type V = Seq<NodeValue>;

    open spec fn view(&self) -> Seq<NodeValue> {
        self.nodes@.map_values(|n: ParsedNode| n@)
    }
}

} // verus!
