//! Parsing a package into a tree of values.
//!
//! A package is a run of encoded values, each a type tag followed by its
//! payload, closed by the `ENDPKG` tag; whatever follows that tag is not read.
use vstd::prelude::*;
use vstd::utf8::{decode_utf8, encode_utf8, is_scalar, valid_utf8};

use crate::data::bytes::{be_read, be_value, lemma_be_value_bound, lemma_pow256_values, signed_of};
use crate::data::ids::DataIDs;
use crate::helper::{DataValue, NodeValue, ParsedData, ParsedNode, ParsedNodeId, ParsedTree};

verus! {

broadcast use vstd::string::to_string_from_display_ensures_for_str;

/// Why a package or a value could not be encoded or parsed.
#[derive(Debug)]
pub struct DataParseError {
    pub message: String,
}

impl DataParseError {
    /// The text of the error, as it is displayed.
    pub fn description(&self) -> (r: String)
        ensures
            r@ == self.message@,
    {
        self.message.clone()
    }
}

pub open spec fn msg_no_end() -> Seq<char> {
    "Recieved data without a proper end signal."@
}

pub open spec fn msg_unknown_type() -> Seq<char> {
    "Attempted to parse datatype that doesn't exist"@
}

pub open spec fn msg_invalid_datatype() -> Seq<char> {
    "Attempted to parse an invalid datatype"@
}

pub open spec fn msg_not_utf8() -> Seq<char> {
    "String wasn't a valid utf8 string"@
}

pub open spec fn msg_string_overflow() -> Seq<char> {
    "Reading string would cause a buffer overflow :("@
}

pub open spec fn msg_basic_unknown() -> Seq<char> {
    "Attempted to parse invalid datatype when parsing basic data"@
}

pub open spec fn msg_not_basic() -> Seq<char> {
    "Tried to parse non-basic datatype as a basic datatype"@
}

/// The error of a fixed-width value whose payload is cut short.
pub open spec fn msg_too_short(t: DataIDs) -> Seq<char> {
    match t {
        DataIDs::U8 => "Error when parsing  U8"@,
        DataIDs::U16 => "Error when parsing  U16"@,
        DataIDs::U32 => "Error when parsing  U32"@,
        DataIDs::U64 => "Error when parsing  U64"@,
        DataIDs::I8 => "Error when parsing  I8"@,
        DataIDs::I16 => "Error when parsing  I16"@,
        DataIDs::I32 => "Error when parsing  I32"@,
        DataIDs::I64 => "Error when parsing  I64"@,
        DataIDs::CHAR => "Error when parsing  CHAR"@,
        DataIDs::F32 => "Error when parsing  F32"@,
        _ => "Error when parsing  F64"@,
    }
}

/// The number of payload bytes of a fixed-width value.
pub open spec fn basic_width(t: DataIDs) -> nat {
    match t {
        DataIDs::U8 | DataIDs::I8 => 1,
        DataIDs::U16 | DataIDs::I16 => 2,
        DataIDs::U32 | DataIDs::I32 | DataIDs::CHAR | DataIDs::F32 => 4,
        _ => 8,
    }
}

/// The value of a fixed-width payload: unsigned big-endian, signed in two's complement,
/// a `char` by its scalar value, a float by its bit pattern.
pub open spec fn basic_value(t: DataIDs, payload: Seq<u8>) -> DataValue {
    let u = be_value(payload);
    match t {
        DataIDs::U8 => DataValue::U8(u as u8),
        DataIDs::U16 => DataValue::U16(u as u16),
        DataIDs::U32 => DataValue::U32(u as u32),
        DataIDs::U64 => DataValue::U64(u as u64),
        DataIDs::I8 => DataValue::I8(signed_of(u, 1) as i8),
        DataIDs::I16 => DataValue::I16(signed_of(u, 2) as i16),
        DataIDs::I32 => DataValue::I32(signed_of(u, 4) as i32),
        DataIDs::I64 => DataValue::I64(signed_of(u, 8) as i64),
        DataIDs::CHAR => DataValue::CHAR((u as u32) as char),
        DataIDs::F32 => DataValue::F32(u as u32),
        _ => DataValue::F64(u as u64),
    }
}

/// What reading a fixed-width value at the start of some bytes gives.
pub enum BasicRead {
    /// The value and the number of payload bytes after its tag.
    Read(DataValue, nat),
    /// The read is rejected with this message.
    Failed(Seq<char>),
    /// The read cannot go on: there is no byte to read the tag from, or a
    /// `CHAR` payload is no Unicode scalar value, so that no `char` exists for it.
    Aborts,
}

/// Reading a fixed-width value (tag and payload) at the start of `b`.
pub open spec fn spec_parse_basic(b: Seq<u8>) -> BasicRead {
    if b.len() == 0 {
        BasicRead::Aborts
    } else {
        match DataIDs::spec_from_byte(b[0]) {
            None => BasicRead::Failed(msg_basic_unknown()),
            Some(t) => if !t.is_basic() {
                BasicRead::Failed(msg_not_basic())
            } else if b.len() < 1 + basic_width(t) {
                BasicRead::Failed(msg_too_short(t))
            } else if t is CHAR && !is_scalar(be_value(b.subrange(1, 5)) as u32) {
                BasicRead::Aborts
            } else {
                BasicRead::Read(
                    basic_value(t, b.subrange(1, 1 + basic_width(t) as int)),
                    basic_width(t),
                )
            },
        }
    }
}

/// What reading one value of a package gives.
pub enum ItemRead {
    /// The value and the position right after it.
    Read(DataValue, nat),
    Failed(Seq<char>),
    /// The read cannot go on (see [`BasicRead::Aborts`] and [`spec_read_string`]).
    Aborts,
}

/// Reading the string whose `STRING` tag stands at `idx`: its length in bytes
/// as 4 big-endian bytes, then that many bytes of UTF-8. A length whose end
/// position does not fit in a `usize` cannot be read.
pub open spec fn spec_read_string(s: Seq<u8>, idx: nat) -> ItemRead {
    let p = idx + 1;
    if p + 4 > s.len() {
        ItemRead::Failed(msg_string_overflow())
    } else {
        let len = be_value(s.subrange(p as int, p + 4 as int));
        let start = p + 4;
        if start + len > usize::MAX {
            ItemRead::Aborts
        } else if start + len > s.len() {
            ItemRead::Failed(msg_string_overflow())
        } else if !valid_utf8(s.subrange(start as int, (start + len) as int)) {
            ItemRead::Failed(msg_not_utf8())
        } else {
            ItemRead::Read(
                DataValue::STRING(decode_utf8(s.subrange(start as int, (start + len) as int))),
                start + len,
            )
        }
    }
}

/// Reading the value whose tag `t` (a fixed-width tag or `STRING`) stands at `idx`.
pub open spec fn spec_read_item(s: Seq<u8>, idx: nat, t: DataIDs) -> ItemRead {
    if t is STRING {
        spec_read_string(s, idx)
    } else {
        match spec_parse_basic(s.subrange(idx as int, s.len() as int)) {
            BasicRead::Read(v, w) => ItemRead::Read(v, idx + 1 + w),
            BasicRead::Failed(m) => ItemRead::Failed(m),
            BasicRead::Aborts => ItemRead::Aborts,
        }
    }
}

/// What parsing a package gives.
pub enum ParseOutcome {
    /// The values before the end tag, in order.
    Done(Seq<DataValue>),
    /// The package is rejected with this message.
    Failed(Seq<char>),
    /// Parsing cannot go on: a value on the way cannot be read (see [`ItemRead::Aborts`]).
    Aborts,
}

/// Puts `v` in front of the values of a successful outcome.
pub open spec fn prepend(v: DataValue, o: ParseOutcome) -> ParseOutcome {
    match o {
        ParseOutcome::Done(vs) => ParseOutcome::Done(seq![v] + vs),
        _ => o,
    }
}

/// Puts `vs` in front of the values of a successful outcome.
pub open spec fn prepend_all(vs: Seq<DataValue>, o: ParseOutcome) -> ParseOutcome {
    match o {
        ParseOutcome::Done(ws) => ParseOutcome::Done(vs + ws),
        _ => o,
    }
}

/// Parsing the package `s` from position `idx` on.
pub open spec fn parse_from(s: Seq<u8>, idx: nat) -> ParseOutcome
    decreases s.len() - idx,
{
    if idx >= s.len() {
        ParseOutcome::Failed(msg_no_end())
    } else {
        match DataIDs::spec_from_byte(s[idx as int]) {
            None => ParseOutcome::Failed(msg_unknown_type()),
            Some(t) => if t is ENDPKG {
                ParseOutcome::Done(Seq::empty())
            } else if t is VECTOR || t is BEGINARGS {
                ParseOutcome::Failed(msg_invalid_datatype())
            } else {
                match spec_read_item(s, idx, t) {
                    ItemRead::Read(v, next) => if idx < next <= s.len() {
                        prepend(v, parse_from(s, next))
                    } else {
                        ParseOutcome::Aborts
                    },
                    ItemRead::Failed(m) => ParseOutcome::Failed(m),
                    ItemRead::Aborts => ParseOutcome::Aborts,
                }
            },
        }
    }
}

/// Parsing the package `s`.
pub open spec fn spec_parse(s: Seq<u8>) -> ParseOutcome {
    parse_from(s, 0)
}

/// The id that every link of a parsed tree names.
pub open spec fn link_id() -> ParsedNodeId {
    ParsedNodeId(1)
}

/// The nodes that a parse builds from its values: one node per value, in order,
/// without parent; every node but the first has `prev`, every node but the last
/// has `next`, and each of these links holds the id 1.
pub open spec fn chained(vals: Seq<DataValue>) -> Seq<NodeValue> {
    Seq::new(
        vals.len(),
        |i: int|
            NodeValue {
                parent: None,
                next: if i + 1 < vals.len() {
                    Some(link_id())
                } else {
                    None
                },
                prev: if i > 0 {
                    Some(link_id())
                } else {
                    None
                },
                data: vals[i],
            },
    )
}

/// True when the package `s` cannot be read to its end: a `CHAR` payload on
/// the way is no Unicode scalar value, or a string's end lies beyond `usize::MAX`.
pub open spec fn parse_aborts(s: Seq<u8>) -> bool {
    spec_parse(s) is Aborts
}

/// How an exec parse ends when it does not succeed.
enum ParseStop {
    Rejected(DataParseError),
    Aborted,
}

spec fn basic_matches(r: Result<(ParsedData, usize), ParseStop>, o: BasicRead) -> bool {
    match o {
        BasicRead::Read(v, w) => r matches Ok((d, n)) && d@ == v && n == w,
        BasicRead::Failed(m) => r matches Err(ParseStop::Rejected(e)) && e.message@ == m,
        BasicRead::Aborts => r matches Err(ParseStop::Aborted),
    }
}

fn rejected(msg: &str) -> (r: ParseStop)
    ensures
        r matches ParseStop::Rejected(e) && e.message@ == msg@,
{
    ParseStop::Rejected(DataParseError { message: msg.to_string() })
}

/// `char::from_u32`: gives the `char` whose scalar value is `v`, and `None`
/// when `v` is a surrogate or above `0x10FFFF`.
#[verifier::external_body]
fn char_from_scalar(v: u32) -> (r: Option<char>)
    ensures
        r is Some <==> is_scalar(v),
        r matches Some(c) ==> c as u32 == v,
{
    char::from_u32(v)
}

/// `std::str::from_utf8`: gives the `str` whose UTF-8 bytes are `bytes` when
/// they are valid UTF-8, and `None` when they are not.
#[verifier::external_body]
fn str_from_utf8(bytes: &[u8]) -> (r: Option<&str>)
    ensures
        r is Some <==> valid_utf8(bytes@),
        r matches Some(s) ==> encode_utf8(s@) == bytes@,
{
    std::str::from_utf8(bytes).ok()
}


/// Reads the payload of a fixed-width value whose tag `t` stands at `bytes[0]`.
fn read_payload(bytes: &[u8], t: DataIDs) -> (r: Result<(ParsedData, usize), ParseStop>)
    requires
        t.is_basic(),
        bytes@.len() >= 1 + basic_width(t),
        t is CHAR ==> is_scalar(be_value(bytes@.subrange(1, 5)) as u32),
    ensures
        r matches Ok((d, n)) && d@ == basic_value(t, bytes@.subrange(1, 1 + basic_width(t) as int))
            && n == basic_width(t),
{
    proof {
        lemma_pow256_values();
    }
    let w: usize = match t {
        DataIDs::U8 | DataIDs::I8 => 1,
        DataIDs::U16 | DataIDs::I16 => 2,
        DataIDs::U32 | DataIDs::I32 | DataIDs::CHAR | DataIDs::F32 => 4,
        _ => 8,
    };
    let u = be_read(bytes, 1, w);
    proof {
        lemma_be_value_bound(bytes@.subrange(1, 1 + w as int));
    }
    let data = match t {
        DataIDs::U8 => ParsedData::U8(u as u8),
        DataIDs::U16 => ParsedData::U16(u as u16),
        DataIDs::U32 => ParsedData::U32(u as u32),
        DataIDs::U64 => ParsedData::U64(u),
        DataIDs::I8 => ParsedData::I8(
            if u >= 0x80 {
                (u as i16 - 0x100) as i8
            } else {
                u as i8
            },
        ),
        DataIDs::I16 => ParsedData::I16(
            if u >= 0x8000 {
                (u as i32 - 0x1_0000) as i16
            } else {
                u as i16
            },
        ),
        DataIDs::I32 => ParsedData::I32(
            if u >= 0x8000_0000 {
                (u as i64 - 0x1_0000_0000) as i32
            } else {
                u as i32
            },
        ),
        DataIDs::I64 => ParsedData::I64(
            if u >= 0x8000_0000_0000_0000 {
                (u as i128 - 0x1_0000_0000_0000_0000) as i64
            } else {
                u as i64
            },
        ),
        DataIDs::CHAR => {
            let c = char_from_scalar(u as u32);
            match c {
                Some(c) => {
                    proof {
                        vstd::utf8::char_u32_cast(c, u as u32);
                    }
                    ParsedData::CHAR(c)
                },
                None => {
                    proof {
                        assert(false);
                    }
                    ParsedData::U8(0)
                },
            }
        },
        DataIDs::F32 => ParsedData::F32(u as u32),
        _ => ParsedData::F64(u),
    };
    Ok((data, w))
}

/// Reads a fixed-width value (tag and payload) at the start of `bytes`, and
/// the number of payload bytes that it took.
fn read_basic(bytes: &[u8]) -> (r: Result<(ParsedData, usize), ParseStop>)
    ensures
        basic_matches(r, spec_parse_basic(bytes@)),
{
    if bytes.len() == 0 {
        return Err(ParseStop::Aborted);
    }
    let t = match DataIDs::try_from(bytes[0]) {
        Ok(t) => t,
        Err(_) => {
            return Err(rejected("Attempted to parse invalid datatype when parsing basic data"));
        },
    };
    let rest = bytes.len() - 1;
    let too_short = match t {
        DataIDs::U8 => if rest < 1 {
            Some("Error when parsing  U8")
        } else {
            None
        },
        DataIDs::U16 => if rest < 2 {
            Some("Error when parsing  U16")
        } else {
            None
        },
        DataIDs::U32 => if rest < 4 {
            Some("Error when parsing  U32")
        } else {
            None
        },
        DataIDs::U64 => if rest < 8 {
            Some("Error when parsing  U64")
        } else {
            None
        },
        DataIDs::I8 => if rest < 1 {
            Some("Error when parsing  I8")
        } else {
            None
        },
        DataIDs::I16 => if rest < 2 {
            Some("Error when parsing  I16")
        } else {
            None
        },
        DataIDs::I32 => if rest < 4 {
            Some("Error when parsing  I32")
        } else {
            None
        },
        DataIDs::I64 => if rest < 8 {
            Some("Error when parsing  I64")
        } else {
            None
        },
        DataIDs::CHAR => if rest < 4 {
            Some("Error when parsing  CHAR")
        } else {
            None
        },
        DataIDs::F32 => if rest < 4 {
            Some("Error when parsing  F32")
        } else {
            None
        },
        DataIDs::F64 => if rest < 8 {
            Some("Error when parsing  F64")
        } else {
            None
        },
        _ => {
            return Err(rejected("Tried to parse non-basic datatype as a basic datatype"));
        },
    };
    match too_short {
        Some(msg) => {
            return Err(rejected(msg));
        },
        None => {},
    }
    if let DataIDs::CHAR = t {
        let v = be_read(bytes, 1, 4);
        proof {
            lemma_pow256_values();
            lemma_be_value_bound(bytes@.subrange(1, 5));
        }
        if char_from_scalar(v as u32).is_none() {
            return Err(ParseStop::Aborted);
        }
    }
    read_payload(bytes, t)
}


spec fn parse_matches(r: Result<ParsedTree, ParseStop>, o: ParseOutcome) -> bool {
    match o {
        ParseOutcome::Done(vals) => r matches Ok(tree) && tree@ == chained(vals),
        ParseOutcome::Failed(m) => r matches Err(ParseStop::Rejected(e)) && e.message@ == m,
        ParseOutcome::Aborts => r matches Err(ParseStop::Aborted),
    }
}

proof fn lemma_prepend_all_push(vs: Seq<DataValue>, v: DataValue, o: ParseOutcome)
    ensures
        prepend_all(vs, prepend(v, o)) == prepend_all(vs.push(v), o),
{
    if let ParseOutcome::Done(ws) = o {
        assert(vs + (seq![v] + ws) =~= vs.push(v) + ws);
    }
}

/// Reads the string whose `STRING` tag stands at `typeidx`; gives the value and the position after it.
fn read_string(bytes: &[u8], typeidx: usize) -> (r: Result<(ParsedData, usize), ParseStop>)
    requires
        typeidx < bytes@.len(),
    ensures
        match spec_read_string(bytes@, typeidx as nat) {
            ItemRead::Read(v, next) => r matches Ok((d, n)) && d@ == v && n == next,
            ItemRead::Failed(m) => r matches Err(ParseStop::Rejected(e)) && e.message@ == m,
            ItemRead::Aborts => r matches Err(ParseStop::Aborted),
        },
{
    let len = bytes.len();
    let p = typeidx + 1;
    if len - p < 4 {
        return Err(rejected("Reading string would cause a buffer overflow :("));
    }
    let length = be_read(bytes, p, 4);
    let idx: usize = p + 4;
    if length > (usize::MAX - idx) as u64 {
        return Err(ParseStop::Aborted);
    }
    let end: usize = idx + length as usize;
    if len < end {
        return Err(rejected("Reading string would cause a buffer overflow :("));
    }
    let text = str_from_utf8(&bytes[idx..end]);
    match text {
        Some(t) => {
            proof {
                vstd::utf8::encode_utf8_decode_utf8(t@);
            }
            Ok((ParsedData::STRING(t.to_string()), end))
        },
        None => Err(rejected("String wasn't a valid utf8 string")),
    }
}

/// Parses a package, telling a rejection from a package that cannot be read to its end.
fn parse_package(bytes: &[u8]) -> (r: Result<ParsedTree, ParseStop>)
    ensures
        parse_matches(r, spec_parse(bytes@)),
{
    let mut tree = ParsedTree { nodes: Vec::new() };
    let mut idx: usize = 0;
    let mut previousid: Option<ParsedNodeId> = None;
    let currentid = ParsedNodeId(1);
    let currentparent: Option<ParsedNodeId> = None;
    let ghost vals: Seq<DataValue> = Seq::empty();
    assert(tree@ =~= chained(vals));
    loop
        invariant
            idx <= bytes@.len(),
            currentid == link_id(),
            currentparent is None,
            tree@ == chained(vals),
            previousid == (if vals.len() == 0 {
                None
            } else {
                Some(link_id())
            }),
            spec_parse(bytes@) == prepend_all(vals, parse_from(bytes@, idx as nat)),
        ensures
            idx >= bytes@.len(),
            tree@ == chained(vals),
            spec_parse(bytes@) == prepend_all(vals, parse_from(bytes@, idx as nat)),
        decreases bytes@.len() - idx,
    {
        if idx >= bytes.len() {
            break;
        }
        let typeidx = idx;
        idx += 1;
        match currentid.0.checked_add(1) {
            None => {
                return Err(rejected("Parsing tree id caused integer overflow"));
            },
            _ => (),
        }
        let t = match DataIDs::try_from(bytes[typeidx]) {
            Ok(t) => t,
            Err(_) => {
                return Err(rejected("Attempted to parse datatype that doesn't exist"));
            },
        };
        let ghost item = spec_read_item(bytes@, typeidx as nat, t);
        let data = match t {
            DataIDs::ENDPKG => {
                assert(vals + Seq::<DataValue>::empty() =~= vals);
                return Ok(tree);
            },
            DataIDs::VECTOR | DataIDs::BEGINARGS => {
                return Err(rejected("Attempted to parse an invalid datatype"));
            },
            DataIDs::STRING => {
                let (d, next) = match read_string(bytes, typeidx) {
                    Ok(x) => x,
                    Err(e) => {
                        return Err(e);
                    },
                };
                idx = next;
                d
            },
            _ => {
                let len = bytes.len();
                let result = read_basic(&bytes[typeidx..len]);
                let (d, w) = match result {
                    Ok(x) => x,
                    Err(e) => {
                        return Err(e);
                    },
                };
                idx += w;
                d
            },
        };
        assert(item matches ItemRead::Read(v, next) && v == data@ && next == idx);
        proof {
            lemma_prepend_all_push(vals, data@, parse_from(bytes@, idx as nat));
        }
        assert(tree@.len() == chained(vals).len());
        assert(tree.nodes@.len() == vals.len());
        let ghost old_nodes = tree.nodes@;
        if tree.nodes.len() != 0 {
            let mut last = tree.nodes.pop().unwrap();
            last.next = Some(currentid);
            tree.nodes.push(last);
        }
        let node = ParsedNode { parent: currentparent, next: None, data, prev: previousid };
        previousid = Some(currentid);
        tree.nodes.push(node);
        proof {
            let nv = vals.push(data@);
            assert(old_nodes.len() == vals.len());
            assert forall|i: int| 0 <= i < nv.len() implies #[trigger] tree@[i] == chained(nv)[i] by {
                if i + 1 < vals.len() {
                    assert(tree.nodes@[i] == old_nodes[i]);
                    assert(old_nodes.map_values(|n: ParsedNode| n@)[i] == chained(vals)[i]);
                } else if i + 1 == vals.len() {
                    assert(old_nodes.map_values(|n: ParsedNode| n@)[i] == chained(vals)[i]);
                }
            }
            vals = nv;
        }
        assert(tree@ =~= chained(vals));
    }
    Err(rejected("Recieved data without a proper end signal."))
}


/// `r` is what parsing gives for the outcome `o`: the chained nodes of the values,
/// or an error with the message of the rejection.
pub open spec fn parse_result_is(r: Result<ParsedTree, DataParseError>, o: ParseOutcome) -> bool {
    match o {
        ParseOutcome::Done(vals) => r matches Ok(tree) && tree@ == chained(vals),
        ParseOutcome::Failed(m) => r matches Err(e) && e.message@ == m,
        ParseOutcome::Aborts => false,
    }
}

/// Parses a package: reads the values one after the other until the `ENDPKG`
/// tag and gives one node per value, chained in order (see [`chained`]); bytes
/// after the end tag are not read. A package without end tag, with an unknown
/// `VECTOR` or `BEGINARGS` tag, a cut-short value, or a string that is not
/// well-formed is rejected with the message that [`spec_parse`] names.
///
/// The packages that cannot be read to their end ([`parse_aborts`]) are out of
/// its reach; [`parse_checked`] takes every package.
pub fn parse(bytes: &[u8]) -> (r: Result<ParsedTree, DataParseError>)
    requires
        !parse_aborts(bytes@),
    ensures
        parse_result_is(r, spec_parse(bytes@)),
{
    match parse_package(bytes) {
        Ok(tree) => Ok(tree),
        Err(ParseStop::Rejected(e)) => Err(e),
        Err(ParseStop::Aborted) => {
            proof {
                assert(false);
            }
            Err(DataParseError { message: String::new() })
        },
    }
}

/// Parses any package: `None` exactly on the packages that cannot be read to
/// their end (a `CHAR` that is no Unicode scalar value, a string whose end lies
/// beyond `usize::MAX`), otherwise what [`parse`] gives.
pub fn parse_checked(bytes: &[u8]) -> (r: Option<Result<ParsedTree, DataParseError>>)
    ensures
        r is None <==> parse_aborts(bytes@),
        r matches Some(res) ==> parse_result_is(res, spec_parse(bytes@)),
{
    match parse_package(bytes) {
        Ok(tree) => Some(Ok(tree)),
        Err(ParseStop::Rejected(e)) => Some(Err(e)),
        Err(ParseStop::Aborted) => None,
    }
}


/// Reads a fixed-width value (tag and payload) at the start of `bytes` and
/// gives it with the number of payload bytes after the tag, or the rejection
/// that [`spec_parse_basic`] names. A `CHAR` payload that is no Unicode scalar
/// value (or an empty input) is out of its reach.
pub fn parse_basic(bytes: &[u8]) -> (r: Result<(ParsedData, usize), DataParseError>)
    requires
        !(spec_parse_basic(bytes@) is Aborts),
    ensures
        match spec_parse_basic(bytes@) {
            BasicRead::Read(v, w) => r matches Ok((d, n)) && d@ == v && n == w,
            BasicRead::Failed(m) => r matches Err(e) && e.message@ == m,
            BasicRead::Aborts => false,
        },
{
    match read_basic(bytes) {
        Ok(x) => Ok(x),
        Err(ParseStop::Rejected(e)) => Err(e),
        Err(ParseStop::Aborted) => {
            proof {
                assert(false);
            }
            Err(DataParseError { message: String::new() })
        },
    }
}

} // verus!
