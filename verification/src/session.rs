//! The decisions of the server and the client: when the server owes a reply,
//! what the reply holds, and which packages the client's handler takes.
use vstd::prelude::*;
use vstd::utf8::{encode_scalar, encode_utf8};

use crate::data::encode::{encode_i32, encode_string, string_encodable};
use crate::data::ids::DataIDs;
use crate::data::laws::package;
use crate::helper::{DataValue, ParsedData, ParsedTree};

verus! {

broadcast use vstd::string::to_string_from_display_ensures_for_str;

/// The text of the server's reply.
pub open spec fn reply_text() -> Seq<char> {
    "hello wassup!"@
}

/// The server's reply: a package holding the reply text and the number 32.
pub open spec fn spec_reply() -> Seq<u8> {
    package(seq![DataValue::STRING(reply_text()), DataValue::I32(32)])
}

/// The state of a server session: the number of replies it owes.
pub struct ServerSession {
    pub pending: usize,
}

/// What happens to a server session.
#[derive(Debug, Clone, Copy, PartialEq, Eq, Structural)]
pub enum ServerEvent {
    /// A package came in and was parsed.
    PackageParsed,
    /// The connection can take bytes.
    Writable,
}

/// What the server does next.
#[derive(Debug, Clone, Copy, PartialEq, Eq, Structural)]
pub enum ServerAction {
    /// Nothing.
    Idle,
    /// Sends the reply ([`reply_package`]).
    SendReply,
}

impl ServerSession {
    /// A session that owes nothing.
    pub fn new() -> (r: ServerSession)
        ensures
            r.pending == 0,
    {
        ServerSession { pending: 0 }
    }

    /// Takes one event: every parsed package makes one more reply owed (the
    /// count stays at `usize::MAX` once there), and when the connection can
    /// take bytes one owed reply is sent.
    pub fn step(&mut self, event: ServerEvent) -> (action: ServerAction)
        ensures
            event == ServerEvent::PackageParsed ==> action == ServerAction::Idle
                && final(self).pending == (if old(self).pending < usize::MAX {
                old(self).pending + 1
            } else {
                old(self).pending as int
            }),
            event == ServerEvent::Writable && old(self).pending > 0 ==> action
                == ServerAction::SendReply && final(self).pending == old(self).pending - 1,
            event == ServerEvent::Writable && old(self).pending == 0 ==> action
                == ServerAction::Idle && final(self).pending == 0,
    {
        match event {
            ServerEvent::PackageParsed => {
                if self.pending < usize::MAX {
                    self.pending = self.pending + 1;
                }
                ServerAction::Idle
            },
            ServerEvent::Writable => {
                if self.pending > 0 {
                    self.pending = self.pending - 1;
                    ServerAction::SendReply
                } else {
                    ServerAction::Idle
                }
            },
        }
    }
}

/// A UTF-8 encoding takes at most four bytes per character.
pub proof fn lemma_utf8_len_bound(cs: Seq<char>)
    ensures
        encode_utf8(cs).len() <= 4 * cs.len(),
    decreases cs.len(),
{
    if cs.len() > 0 {
        lemma_utf8_len_bound(cs.drop_first());
        assert(encode_scalar(cs[0] as u32).len() <= 4);
    }
}

/// The server's reply (see [`spec_reply`]).
pub fn reply_package() -> (r: Vec<u8>)
    ensures
        r@ == spec_reply(),
{
    let text = "hello wassup!";
    proof {
        reveal_strlit("hello wassup!");
        lemma_utf8_len_bound(text@);
    }
    assert(string_encodable(reply_text()));
    let mut r = match encode_string(text.to_string()) {
        Ok(bytes) => bytes,
        Err(_) => {
            proof {
                assert(false);
            }
            Vec::new()
        },
    };
    let ghost head = r@;
    r.extend_from_slice(encode_i32(32).as_slice());
    r.push(DataIDs::ENDPKG.byte());
    proof {
        let vals = seq![DataValue::STRING(reply_text()), DataValue::I32(32)];
        reveal_with_fuel(crate::data::laws::encode_values, 3);
        assert(vals.drop_first().drop_first() =~= Seq::<DataValue>::empty());
        assert(vals.drop_first() =~= seq![DataValue::I32(32)]);
        assert(r@ =~= spec_reply());
    }
    r
}

/// The text and the number of a package that holds exactly a string and then
/// an `i32`, the arguments that the client's handler takes; `None` for any other package.
pub fn string_and_i32(tree: &ParsedTree) -> (r: Option<(String, i32)>)
    ensures
        r is Some <==> (tree@.len() == 2 && tree@[0].data is STRING && tree@[1].data is I32),
        r matches Some((a, b)) ==> tree@[0].data == DataValue::STRING(a@) && tree@[1].data
            == DataValue::I32(b),
{
    if tree.nodes.len() != 2 {
        return None;
    }
    match (&tree.nodes[0].data, &tree.nodes[1].data) {
        (ParsedData::STRING(a), ParsedData::I32(b)) => Some((a.clone(), *b)),
        _ => None,
    }
}

} // verus!
