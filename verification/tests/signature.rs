use shared::data::DataIDs;
use shared::signature::{
    arg_kinds, arg_passing, expanded_name, name_index, type_kind, variant_name, ArgPassing,
    ItemToken, NetfuncError,
};
use shared::text::str_equal;

fn ident(s: &str) -> ItemToken {
    ItemToken::Ident(s.to_string())
}

#[test]
fn name_follows_fn_keyword() {
    let tokens = vec![ident("pub"), ident("fn"), ident("testa"), ItemToken::Group, ItemToken::Group];
    assert_eq!(name_index(&tokens).unwrap(), 2);
    let tokens = vec![ident("fn"), ident("test"), ItemToken::Group, ItemToken::Group];
    assert_eq!(name_index(&tokens).unwrap(), 1);
}

#[test]
fn name_is_found_after_attributes_and_visibility() {
    // #[inline] fn f(a: u8) {}
    let tokens = vec![ItemToken::Punct('#'), ItemToken::Group, ident("fn"), ident("f"), ItemToken::Group, ItemToken::Group];
    assert_eq!(name_index(&tokens).unwrap(), 3);
    // pub(crate) fn g() {}
    let tokens = vec![ident("pub"), ItemToken::Group, ident("fn"), ident("g"), ItemToken::Group, ItemToken::Group];
    assert_eq!(name_index(&tokens).unwrap(), 3);
}

#[test]
fn missing_name_or_args_are_reported() {
    let tokens = vec![ItemToken::Punct('#'), ItemToken::Group, ident("fn"), ItemToken::Group];
    assert!(matches!(name_index(&tokens), Err(NetfuncError::NameMissing)));
    let tokens = vec![ident("struct"), ident("S"), ItemToken::Group];
    assert!(matches!(name_index(&tokens), Err(NetfuncError::NameMissing)));
    let tokens = vec![ident("fn"), ident("f"), ItemToken::Punct('<')];
    assert!(matches!(name_index(&tokens), Err(NetfuncError::ArgsMissing)));
    let tokens = vec![ident("fn")];
    assert!(matches!(name_index(&tokens), Err(NetfuncError::NameMissing)));
}

#[test]
fn argument_types_give_value_kinds() {
    // (a: &str, b: i32)
    let args = vec![
        ident("a"),
        ItemToken::Punct(':'),
        ItemToken::Punct('&'),
        ident("str"),
        ItemToken::Punct(','),
        ident("b"),
        ItemToken::Punct(':'),
        ident("i32"),
    ];
    assert_eq!(arg_kinds(&args).unwrap(), vec![DataIDs::STRING, DataIDs::I32]);
    // (a: f32)
    let args = vec![ident("a"), ItemToken::Punct(':'), ident("f32")];
    assert_eq!(arg_kinds(&args).unwrap(), vec![DataIDs::F32]);
    assert_eq!(arg_kinds(&vec![]).unwrap(), vec![]);
}

#[test]
fn unconvertible_argument_types_are_reported() {
    let args = vec![ident("a"), ItemToken::Punct(':'), ident("str")];
    assert!(matches!(arg_kinds(&args), Err(NetfuncError::StrNotBorrowed(s)) if s == "str"));
    let args = vec![ident("a"), ItemToken::Punct(':'), ident("Vec"), ItemToken::Group];
    assert!(matches!(arg_kinds(&args), Err(NetfuncError::NotConvertible(s)) if s == "Vec"));
    assert!(matches!(type_kind("str", true, true), Err(NetfuncError::NotConvertible(_))));
    assert_eq!(type_kind("char", false, false).unwrap(), DataIDs::CHAR);
    assert_eq!(type_kind("u64", false, false).unwrap(), DataIDs::U64);
}

#[test]
fn expanded_name_has_prefix() {
    let tokens = vec![ident("fn"), ident("test"), ItemToken::Group];
    assert_eq!(expanded_name(&tokens).unwrap(), "aatest");
    assert!(expanded_name(&vec![ident("fn")]).is_none());
    assert!(expanded_name(&vec![ident("fn"), ItemToken::Group]).is_none());
}

#[test]
fn strings_compare_by_characters() {
    assert!(str_equal("räk", "räk"));
    assert!(!str_equal("räk", "rak"));
    assert!(!str_equal("ab", "abc"));
    assert!(str_equal("", ""));
}

#[test]
fn wrapper_plan_per_kind() {
    assert_eq!(arg_passing(DataIDs::STRING), ArgPassing::Borrowed);
    assert_eq!(arg_passing(DataIDs::F32), ArgPassing::FromF32Bits);
    assert_eq!(arg_passing(DataIDs::F64), ArgPassing::FromF64Bits);
    assert_eq!(arg_passing(DataIDs::I8), ArgPassing::Copied);
    assert_eq!(variant_name(DataIDs::CHAR), Some("CHAR"));
    assert_eq!(variant_name(DataIDs::U16), Some("U16"));
    assert_eq!(variant_name(DataIDs::ENDPKG), None);
}
