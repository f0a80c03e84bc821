use shared::data::{encode_i32, encode_string, parse, DataIDs, ParsedData};
use shared::session::{reply_package, string_and_i32, ServerAction, ServerEvent, ServerSession};

#[test]
fn server_owes_one_reply_per_parsed_package() {
    let mut s = ServerSession::new();
    assert_eq!(s.step(ServerEvent::Writable), ServerAction::Idle);
    assert_eq!(s.step(ServerEvent::PackageParsed), ServerAction::Idle);
    assert_eq!(s.step(ServerEvent::PackageParsed), ServerAction::Idle);
    assert_eq!(s.pending, 2);
    assert_eq!(s.step(ServerEvent::Writable), ServerAction::SendReply);
    assert_eq!(s.step(ServerEvent::Writable), ServerAction::SendReply);
    assert_eq!(s.step(ServerEvent::Writable), ServerAction::Idle);
    assert_eq!(s.pending, 0);
}

#[test]
fn reply_is_text_and_number() {
    let mut expected = encode_string("hello wassup!".to_string()).unwrap();
    expected.extend_from_slice(&encode_i32(32));
    expected.push(DataIDs::ENDPKG.byte());
    let reply = reply_package();
    assert_eq!(reply, expected);
    let tree = parse(&reply).unwrap();
    assert_eq!(string_and_i32(&tree), Some(("hello wassup!".to_string(), 32)));
}

#[test]
fn handler_takes_only_string_then_i32() {
    let tree = parse(&[2, 0, 0, 0, 1, 13]).unwrap();
    assert_eq!(string_and_i32(&tree), None);
    let tree = parse(&[4, 0, 0, 0, 1, 97, 2, 0, 0, 0, 7, 2, 0, 0, 0, 7, 13]).unwrap();
    assert_eq!(tree.nodes.len(), 3);
    assert!(matches!(tree.nodes[0].data, ParsedData::STRING(_)));
    assert_eq!(string_and_i32(&tree), None);
}
