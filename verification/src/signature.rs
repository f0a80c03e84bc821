//! What the signal wrapper of a function reads from its tokens: where the
//! function's name and argument list stand, and which kind of value each
//! argument takes from a parsed package.
use vstd::prelude::*;

use vstd::string::StringExecFns;

use crate::data::encode::encode_value;
use crate::data::ids::DataIDs;
use crate::data::parse::{spec_parse_basic, spec_read_string, BasicRead, ItemRead};
use crate::helper::DataValue;
use crate::text::str_equal;

verus! {

/// A token of a function item, as far as the wrapper reads it.
pub enum ItemToken {
    /// An identifier, by its text.
    Ident(String),
    /// A punctuation character.
    Punct(char),
    /// A delimited group, such as an argument list or a body.
    Group,
    /// A literal.
    Literal,
}

/// The mathematical value of an [`ItemToken`].
pub enum TokenValue {
    Ident(Seq<char>),
    Punct(char),
    Group,
    Literal,
}

impl View for ItemToken {
    type V = TokenValue;

    open spec fn view(&self) -> TokenValue {
        match self {
            ItemToken::Ident(s) => TokenValue::Ident(s@),
            ItemToken::Punct(c) => TokenValue::Punct(*c),
            ItemToken::Group => TokenValue::Group,
            ItemToken::Literal => TokenValue::Literal,
        }
    }
}

/// Why a function cannot be wrapped.
#[derive(Debug)]
pub enum NetfuncError {
    /// No identifier follows the `fn` keyword.
    NameMissing,
    /// No group follows the function's name.
    ArgsMissing,
    /// An argument type that no value kind stands for.
    NotConvertible(String),
    /// A `str` argument that is not borrowed with `&`.
    StrNotBorrowed(String),
}

/// The mathematical value of a [`NetfuncError`].
pub enum NetfuncFailure {
    NameMissing,
    ArgsMissing,
    NotConvertible(Seq<char>),
    StrNotBorrowed(Seq<char>),
}

impl View for NetfuncError {
    type V = NetfuncFailure;

    open spec fn view(&self) -> NetfuncFailure {
        match self {
            NetfuncError::NameMissing => NetfuncFailure::NameMissing,
            NetfuncError::ArgsMissing => NetfuncFailure::ArgsMissing,
            NetfuncError::NotConvertible(s) => NetfuncFailure::NotConvertible(s@),
            NetfuncError::StrNotBorrowed(s) => NetfuncFailure::StrNotBorrowed(s@),
        }
    }
}

/// The position of the first `fn` keyword from position `i` on (the length of
/// `tokens` when there is none). Attributes, visibility and qualifiers before it
/// are passed over; an attribute's brackets are one group token, so nothing
/// inside them is taken for the keyword.
pub open spec fn fn_keyword(tokens: Seq<TokenValue>, i: nat) -> nat
    decreases tokens.len() - i,
{
    if i < tokens.len() && tokens[i as int] != TokenValue::Ident("fn"@) {
        fn_keyword(tokens, i + 1)
    } else {
        i
    }
}

/// Where the function's name stands: the identifier right after the `fn`
/// keyword, which the argument group must follow.
pub open spec fn spec_name_index(tokens: Seq<TokenValue>) -> Result<nat, NetfuncFailure> {
    let p = fn_keyword(tokens, 0);
    if !(p + 1 < tokens.len() && tokens[p + 1 as int] is Ident) {
        Err(NetfuncFailure::NameMissing)
    } else if !(p + 2 < tokens.len() && tokens[p + 2 as int] is Group) {
        Err(NetfuncFailure::ArgsMissing)
    } else {
        Ok(p + 1)
    }
}

/// True for the `fn` keyword.
fn is_fn_keyword(t: &ItemToken) -> (r: bool)
    ensures
        r == (t@ == TokenValue::Ident("fn"@)),
{
    match t {
        ItemToken::Ident(x) => str_equal(x.as_str(), "fn"),
        _ => false,
    }
}

/// Finds the function's name in the tokens of a function item: the token
/// after the `fn` keyword, wherever the keyword stands (after attributes, a
/// visibility such as `pub(crate)`, or qualifiers), which must be an identifier
/// and be followed by the argument group.
pub fn name_index(tokens: &Vec<ItemToken>) -> (r: Result<usize, NetfuncError>)
    ensures
        match spec_name_index(tokens@.map_values(|t: ItemToken| t@)) {
            Ok(i) => r == Ok::<usize, NetfuncError>(i as usize),
            Err(f) => r matches Err(e) && e@ == f,
        },
{
    let ghost tv = tokens@.map_values(|t: ItemToken| t@);
    let mut p: usize = 0;
    while p < tokens.len() && !is_fn_keyword(&tokens[p])
        invariant
            p <= tokens@.len(),
            tv == tokens@.map_values(|t: ItemToken| t@),
            fn_keyword(tv, 0) == fn_keyword(tv, p as nat),
        decreases tokens@.len() - p,
    {
        p += 1;
    }
    assert(fn_keyword(tv, p as nat) == p);
    if tokens.len() - p <= 1 {
        return Err(NetfuncError::NameMissing);
    }
    match &tokens[p + 1] {
        ItemToken::Ident(_) => {},
        _ => {
            return Err(NetfuncError::NameMissing);
        },
    }
    if tokens.len() - p <= 2 {
        return Err(NetfuncError::ArgsMissing);
    }
    match &tokens[p + 2] {
        ItemToken::Group => Ok(p + 1),
        _ => Err(NetfuncError::ArgsMissing),
    }
}


/// The value kind that an argument type stands for: the integer types, `char`,
/// the floats and a borrowed `str`. `first` tells whether the type is the first
/// token of the argument list, `borrowed` whether a `&` stands right before it.
pub open spec fn kind_of_type(name: Seq<char>, first: bool, borrowed: bool) -> Result<
    DataIDs,
    NetfuncFailure,
> {
    if name == "str"@ {
        if first {
            Err(NetfuncFailure::NotConvertible(name))
        } else if !borrowed {
            Err(NetfuncFailure::StrNotBorrowed(name))
        } else {
            Ok(DataIDs::STRING)
        }
    } else if name == "u8"@ {
        Ok(DataIDs::U8)
    } else if name == "u16"@ {
        Ok(DataIDs::U16)
    } else if name == "u32"@ {
        Ok(DataIDs::U32)
    } else if name == "u64"@ {
        Ok(DataIDs::U64)
    } else if name == "i8"@ {
        Ok(DataIDs::I8)
    } else if name == "i16"@ {
        Ok(DataIDs::I16)
    } else if name == "i32"@ {
        Ok(DataIDs::I32)
    } else if name == "i64"@ {
        Ok(DataIDs::I64)
    } else if name == "char"@ {
        Ok(DataIDs::CHAR)
    } else if name == "f32"@ {
        Ok(DataIDs::F32)
    } else if name == "f64"@ {
        Ok(DataIDs::F64)
    } else {
        Err(NetfuncFailure::NotConvertible(name))
    }
}

/// Puts `ks` in front of the kinds of a successful reading.
pub open spec fn prepend_kinds(ks: Seq<DataIDs>, r: Result<Seq<DataIDs>, NetfuncFailure>) -> Result<
    Seq<DataIDs>,
    NetfuncFailure,
> {
    match r {
        Ok(rest) => Ok(ks + rest),
        Err(e) => Err(e),
    }
}

/// The kinds of the arguments, read from position `a` of the argument tokens on.
/// The identifiers are taken in turn as an argument's name and its type (`odd`
/// tells that the next identifier is a type); the first type that stands for no
/// kind ends the reading with its error.
pub open spec fn kinds_from(args: Seq<TokenValue>, a: nat, odd: bool) -> Result<
    Seq<DataIDs>,
    NetfuncFailure,
>
    decreases args.len() - a,
{
    if a >= args.len() {
        Ok(Seq::empty())
    } else {
        match args[a as int] {
            TokenValue::Ident(name) => if odd {
                match kind_of_type(
                    name,
                    a == 0,
                    a > 0 && args[a - 1] == TokenValue::Punct('&'),
                ) {
                    Err(e) => Err(e),
                    Ok(k) => prepend_kinds(seq![k], kinds_from(args, a + 1, !odd)),
                }
            } else {
                kinds_from(args, a + 1, !odd)
            },
            _ => kinds_from(args, a + 1, odd),
        }
    }
}

/// The kinds of the arguments of a function, from the tokens of its argument list.
pub open spec fn spec_arg_kinds(args: Seq<TokenValue>) -> Result<Seq<DataIDs>, NetfuncFailure> {
    kinds_from(args, 0, false)
}

/// The value kind of one argument type (see [`kind_of_type`]).
pub fn type_kind(name: &str, first: bool, borrowed: bool) -> (r: Result<DataIDs, NetfuncError>)
    ensures
        match kind_of_type(name@, first, borrowed) {
            Ok(k) => r == Ok::<DataIDs, NetfuncError>(k),
            Err(f) => r matches Err(e) && e@ == f,
        },
{
    if str_equal(name, "str") {
        if first {
            Err(NetfuncError::NotConvertible(name.to_string()))
        } else if !borrowed {
            Err(NetfuncError::StrNotBorrowed(name.to_string()))
        } else {
            Ok(DataIDs::STRING)
        }
    } else if str_equal(name, "u8") {
        Ok(DataIDs::U8)
    } else if str_equal(name, "u16") {
        Ok(DataIDs::U16)
    } else if str_equal(name, "u32") {
        Ok(DataIDs::U32)
    } else if str_equal(name, "u64") {
        Ok(DataIDs::U64)
    } else if str_equal(name, "i8") {
        Ok(DataIDs::I8)
    } else if str_equal(name, "i16") {
        Ok(DataIDs::I16)
    } else if str_equal(name, "i32") {
        Ok(DataIDs::I32)
    } else if str_equal(name, "i64") {
        Ok(DataIDs::I64)
    } else if str_equal(name, "char") {
        Ok(DataIDs::CHAR)
    } else if str_equal(name, "f32") {
        Ok(DataIDs::F32)
    } else if str_equal(name, "f64") {
        Ok(DataIDs::F64)
    } else {
        Err(NetfuncError::NotConvertible(name.to_string()))
    }
}

/// Reads the kinds of a function's arguments from the tokens of its argument
/// list (see [`spec_arg_kinds`]): the kind of each argument type in order, or
/// the error of the first type that stands for none.
pub fn arg_kinds(args: &Vec<ItemToken>) -> (r: Result<Vec<DataIDs>, NetfuncError>)
    ensures
        match spec_arg_kinds(args@.map_values(|t: ItemToken| t@)) {
            Ok(ks) => r matches Ok(v) && v@ == ks,
            Err(f) => r matches Err(e) && e@ == f,
        },
{
    let ghost tv = args@.map_values(|t: ItemToken| t@);
    let mut kinds: Vec<DataIDs> = Vec::new();
    let mut odd = false;
    let mut a: usize = 0;
    assert(Seq::<DataIDs>::empty() + Seq::<DataIDs>::empty() =~= Seq::<DataIDs>::empty());
    while a < args.len()
        invariant
            a <= args@.len(),
            tv == args@.map_values(|t: ItemToken| t@),
            spec_arg_kinds(tv) == prepend_kinds(kinds@, kinds_from(tv, a as nat, odd)),
        decreases args@.len() - a,
    {
        match &args[a] {
            ItemToken::Ident(name) => {
                if odd {
                    let borrowed = a > 0 && match &args[a - 1] {
                        ItemToken::Punct(c) => *c == '&',
                        _ => false,
                    };
                    match type_kind(name.as_str(), a == 0, borrowed) {
                        Ok(k) => {
                            proof {
                                let rest = kinds_from(tv, (a + 1) as nat, !odd);
                                if let Ok(ks) = rest {
                                    assert(kinds@ + (seq![k] + ks) =~= kinds@.push(k) + ks);
                                }
                            }
                            kinds.push(k);
                        },
                        Err(e) => {
                            return Err(e);
                        },
                    }
                }
                odd = !odd;
            },
            _ => {},
        }
        a += 1;
    }
    assert(kinds@ + Seq::<DataIDs>::empty() =~= kinds@);
    Ok(kinds)
}


/// The name that the expanding attribute gives a function: its name, read
/// from the second token of the item, behind the prefix `aa`. `None` when the
/// item has no second token or that token is not an identifier.
pub fn expanded_name(tokens: &Vec<ItemToken>) -> (r: Option<String>)
    ensures
        r is Some <==> (tokens@.len() >= 2 && tokens@[1]@ is Ident),
        r matches Some(n) ==> (tokens@[1]@ matches TokenValue::Ident(name) && n@ == "aa"@ + name),
{
    if tokens.len() < 2 {
        return None;
    }
    match &tokens[1] {
        ItemToken::Ident(name) => {
            let mut r = "aa".to_string();
            r.append(name.as_str());
            Some(r)
        },
        _ => None,
    }
}


/// How a wrapper hands a parsed value to the wrapped function's argument.
#[derive(Debug, Clone, Copy, PartialEq, Eq, Structural)]
pub enum ArgPassing {
    /// By reference: a string is lent as `&str`.
    Borrowed,
    /// As the `f32` whose bit pattern the value holds.
    FromF32Bits,
    /// As the `f64` whose bit pattern the value holds.
    FromF64Bits,
    /// By copy of the value.
    Copied,
}

/// How a value of a kind is handed to an argument.
pub open spec fn spec_arg_passing(kind: DataIDs) -> ArgPassing {
    match kind {
        DataIDs::STRING => ArgPassing::Borrowed,
        DataIDs::F32 => ArgPassing::FromF32Bits,
        DataIDs::F64 => ArgPassing::FromF64Bits,
        _ => ArgPassing::Copied,
    }
}

/// How a value of a kind is handed to an argument (see [`spec_arg_passing`]).
pub fn arg_passing(kind: DataIDs) -> (r: ArgPassing)
    ensures
        r == spec_arg_passing(kind),
{
    match kind {
        DataIDs::STRING => ArgPassing::Borrowed,
        DataIDs::F32 => ArgPassing::FromF32Bits,
        DataIDs::F64 => ArgPassing::FromF64Bits,
        _ => ArgPassing::Copied,
    }
}

/// The name of the `ParsedData` variant that holds a value of a kind; the
/// tags `BEGINARGS` and `ENDPKG` stand for no value.
pub open spec fn spec_variant_name(kind: DataIDs) -> Option<Seq<char>> {
    match kind {
        DataIDs::U8 => Some("U8"@),
        DataIDs::U16 => Some("U16"@),
        DataIDs::U32 => Some("U32"@),
        DataIDs::U64 => Some("U64"@),
        DataIDs::I8 => Some("I8"@),
        DataIDs::I16 => Some("I16"@),
        DataIDs::I32 => Some("I32"@),
        DataIDs::I64 => Some("I64"@),
        DataIDs::CHAR => Some("CHAR"@),
        DataIDs::F32 => Some("F32"@),
        DataIDs::F64 => Some("F64"@),
        DataIDs::STRING => Some("STRING"@),
        DataIDs::VECTOR => Some("VECTOR"@),
        DataIDs::BEGINARGS => None,
        DataIDs::ENDPKG => None,
    }
}

/// The name of the `ParsedData` variant that holds a value of a kind (see [`spec_variant_name`]).
pub fn variant_name(kind: DataIDs) -> (r: Option<&'static str>)
    ensures
        match spec_variant_name(kind) {
            Some(n) => r matches Some(s) && s@ == n,
            None => r is None,
        },
{
    match kind {
        DataIDs::U8 => Some("U8"),
        DataIDs::U16 => Some("U16"),
        DataIDs::U32 => Some("U32"),
        DataIDs::U64 => Some("U64"),
        DataIDs::I8 => Some("I8"),
        DataIDs::I16 => Some("I16"),
        DataIDs::I32 => Some("I32"),
        DataIDs::I64 => Some("I64"),
        DataIDs::CHAR => Some("CHAR"),
        DataIDs::F32 => Some("F32"),
        DataIDs::F64 => Some("F64"),
        DataIDs::STRING => Some("STRING"),
        DataIDs::VECTOR => Some("VECTOR"),
        DataIDs::BEGINARGS => None,
        DataIDs::ENDPKG => None,
    }
}


/// The position of the first `fn` keyword is the first position holding one,
/// however many tokens come before it.
proof fn lemma_fn_keyword_after(tokens: Seq<TokenValue>, k: nat, i: nat)
    requires
        i <= k <= tokens.len(),
        forall|j: int| 0 <= j < k ==> tokens[j] != TokenValue::Ident("fn"@),
        k < tokens.len() ==> tokens[k as int] == TokenValue::Ident("fn"@),
    ensures
        fn_keyword(tokens, i) == k,
    decreases k - i,
{
    if i < k {
        lemma_fn_keyword_after(tokens, k, i + 1);
    }
}

/// In an item made of any tokens that are no `fn` keyword, then `fn`, an
/// identifier and a group, the name is the identifier right after `fn`.
pub proof fn lemma_name_follows_fn_keyword(
    before: Seq<TokenValue>,
    name: Seq<char>,
    after: Seq<TokenValue>,
)
    requires
        forall|j: int| 0 <= j < before.len() ==> before[j] != TokenValue::Ident("fn"@),
    ensures
        spec_name_index(
            before + seq![TokenValue::Ident("fn"@), TokenValue::Ident(name), TokenValue::Group]
                + after,
        ) == Ok::<nat, NetfuncFailure>(before.len() + 1),
{
    let t = before + seq![TokenValue::Ident("fn"@), TokenValue::Ident(name), TokenValue::Group]
        + after;
    assert forall|j: int| 0 <= j < before.len() implies t[j] != TokenValue::Ident("fn"@) by {
        assert(t[j] == before[j]);
    }
    assert(t[before.len() as int] == TokenValue::Ident("fn"@));
    lemma_fn_keyword_after(t, before.len(), 0);
    assert(t[before.len() + 1 as int] == TokenValue::Ident(name));
    assert(t[before.len() + 2 as int] == TokenValue::Group);
}

/// An item without any `fn` keyword has no name.
pub proof fn lemma_no_fn_keyword_no_name(tokens: Seq<TokenValue>)
    requires
        forall|j: int| 0 <= j < tokens.len() ==> tokens[j] != TokenValue::Ident("fn"@),
    ensures
        spec_name_index(tokens) == Err::<nat, NetfuncFailure>(NetfuncFailure::NameMissing),
{
    lemma_fn_keyword_after(tokens, tokens.len(), 0);
}

/// `name` is read as the kind whose tag is `first_byte`.
pub open spec fn reads_as_tag(name: Seq<char>, first: bool, borrowed: bool, first_byte: u8) -> bool {
    kind_of_type(name, first, borrowed) matches Ok(k) && k.spec_byte() == first_byte
}

/// Each primitive argument type is read as the kind whose tag is the first
/// byte that the encoder of a value of that type writes, for every value.
pub proof fn lemma_type_kind_is_encoder_tag(
    first: bool,
    borrowed: bool,
    a: u8,
    b: u16,
    c: u32,
    d: u64,
    e: i8,
    f: i16,
    g: i32,
    h: i64,
    ch: char,
    fbits: u32,
    dbits: u64,
)
    ensures
        reads_as_tag("u8"@, first, borrowed, encode_value(DataValue::U8(a))[0]),
        reads_as_tag("u16"@, first, borrowed, encode_value(DataValue::U16(b))[0]),
        reads_as_tag("u32"@, first, borrowed, encode_value(DataValue::U32(c))[0]),
        reads_as_tag("u64"@, first, borrowed, encode_value(DataValue::U64(d))[0]),
        reads_as_tag("i8"@, first, borrowed, encode_value(DataValue::I8(e))[0]),
        reads_as_tag("i16"@, first, borrowed, encode_value(DataValue::I16(f))[0]),
        reads_as_tag("i32"@, first, borrowed, encode_value(DataValue::I32(g))[0]),
        reads_as_tag("i64"@, first, borrowed, encode_value(DataValue::I64(h))[0]),
        reads_as_tag("char"@, first, borrowed, encode_value(DataValue::CHAR(ch))[0]),
        reads_as_tag("f32"@, first, borrowed, encode_value(DataValue::F32(fbits))[0]),
        reads_as_tag("f64"@, first, borrowed, encode_value(DataValue::F64(dbits))[0]),
        !first && borrowed ==> kind_of_type("str"@, first, borrowed) == Ok::<
            DataIDs,
            NetfuncFailure,
        >(DataIDs::STRING),
{
    reveal_strlit("str");
    reveal_strlit("u8");
    reveal_strlit("u16");
    reveal_strlit("u32");
    reveal_strlit("u64");
    reveal_strlit("i8");
    reveal_strlit("i16");
    reveal_strlit("i32");
    reveal_strlit("i64");
    reveal_strlit("char");
    reveal_strlit("f32");
    reveal_strlit("f64");
    assert("u8"@.len() != "str"@.len());
    assert("u16"@[0] != "str"@[0]);
    assert("u16"@.len() != "u8"@.len());
    assert("u32"@[0] != "str"@[0]);
    assert("u32"@.len() != "u8"@.len());
    assert("u32"@[1] != "u16"@[1]);
    assert("u64"@[0] != "str"@[0]);
    assert("u64"@.len() != "u8"@.len());
    assert("u64"@[1] != "u16"@[1]);
    assert("u64"@[1] != "u32"@[1]);
    assert("i8"@.len() != "str"@.len());
    assert("i8"@[0] != "u8"@[0]);
    assert("i8"@.len() != "u16"@.len());
    assert("i8"@.len() != "u32"@.len());
    assert("i8"@.len() != "u64"@.len());
    assert("i16"@[0] != "str"@[0]);
    assert("i16"@.len() != "u8"@.len());
    assert("i16"@[0] != "u16"@[0]);
    assert("i16"@[0] != "u32"@[0]);
    assert("i16"@[0] != "u64"@[0]);
    assert("i16"@.len() != "i8"@.len());
    assert("i32"@[0] != "str"@[0]);
    assert("i32"@.len() != "u8"@.len());
    assert("i32"@[0] != "u16"@[0]);
    assert("i32"@[0] != "u32"@[0]);
    assert("i32"@[0] != "u64"@[0]);
    assert("i32"@.len() != "i8"@.len());
    assert("i32"@[1] != "i16"@[1]);
    assert("i64"@[0] != "str"@[0]);
    assert("i64"@.len() != "u8"@.len());
    assert("i64"@[0] != "u16"@[0]);
    assert("i64"@[0] != "u32"@[0]);
    assert("i64"@[0] != "u64"@[0]);
    assert("i64"@.len() != "i8"@.len());
    assert("i64"@[1] != "i16"@[1]);
    assert("i64"@[1] != "i32"@[1]);
    assert("char"@.len() != "str"@.len());
    assert("char"@.len() != "u8"@.len());
    assert("char"@.len() != "u16"@.len());
    assert("char"@.len() != "u32"@.len());
    assert("char"@.len() != "u64"@.len());
    assert("char"@.len() != "i8"@.len());
    assert("char"@.len() != "i16"@.len());
    assert("char"@.len() != "i32"@.len());
    assert("char"@.len() != "i64"@.len());
    assert("f32"@[0] != "str"@[0]);
    assert("f32"@.len() != "u8"@.len());
    assert("f32"@[0] != "u16"@[0]);
    assert("f32"@[0] != "u32"@[0]);
    assert("f32"@[0] != "u64"@[0]);
    assert("f32"@.len() != "i8"@.len());
    assert("f32"@[0] != "i16"@[0]);
    assert("f32"@[0] != "i32"@[0]);
    assert("f32"@[0] != "i64"@[0]);
    assert("f32"@.len() != "char"@.len());
    assert("f64"@[0] != "str"@[0]);
    assert("f64"@.len() != "u8"@.len());
    assert("f64"@[0] != "u16"@[0]);
    assert("f64"@[0] != "u32"@[0]);
    assert("f64"@[0] != "u64"@[0]);
    assert("f64"@.len() != "i8"@.len());
    assert("f64"@[0] != "i16"@[0]);
    assert("f64"@[0] != "i32"@[0]);
    assert("f64"@[0] != "i64"@[0]);
    assert("f64"@.len() != "char"@.len());
    assert("f64"@[1] != "f32"@[1]);
}

/// The name of the variant of a parsed value.
pub open spec fn value_variant_name(v: DataValue) -> Seq<char> {
    match v {
        DataValue::U8(_) => "U8"@,
        DataValue::U16(_) => "U16"@,
        DataValue::U32(_) => "U32"@,
        DataValue::U64(_) => "U64"@,
        DataValue::I8(_) => "I8"@,
        DataValue::I16(_) => "I16"@,
        DataValue::I32(_) => "I32"@,
        DataValue::I64(_) => "I64"@,
        DataValue::CHAR(_) => "CHAR"@,
        DataValue::F32(_) => "F32"@,
        DataValue::F64(_) => "F64"@,
        DataValue::STRING(_) => "STRING"@,
        DataValue::VECTOR { .. } => "VECTOR"@,
        DataValue::SIGNAL(_) => "SIGNAL"@,
    }
}

/// For every value read under a tag, the variant that the tag names is the
/// variant of the value read, and the value is handed over as the float of its
/// bits exactly when it is a float, lent exactly when it is a string, and
/// copied otherwise.
pub proof fn lemma_variant_name_is_read_variant(b: Seq<u8>, s: Seq<u8>, idx: nat)
    ensures
        spec_parse_basic(b) matches BasicRead::Read(v, _) ==> {
            let t = DataIDs::spec_from_byte(b[0]).unwrap();
            &&& spec_variant_name(t) == Some(value_variant_name(v))
            &&& (spec_arg_passing(t) == ArgPassing::FromF32Bits <==> v is F32)
            &&& (spec_arg_passing(t) == ArgPassing::FromF64Bits <==> v is F64)
            &&& (spec_arg_passing(t) == ArgPassing::Borrowed <==> v is STRING)
        },
        spec_read_string(s, idx) matches ItemRead::Read(v, _) ==> {
            &&& spec_variant_name(DataIDs::STRING) == Some(value_variant_name(v))
            &&& spec_arg_passing(DataIDs::STRING) == ArgPassing::Borrowed
        },
{
}

} // verus!
