//! Protocol-level message transforms.

use vstd::prelude::*;

use crate::message::Message;
use crate::message::MessageError;

verus! {

/// The bytes of the reply to a ping: the ping's bytes with only the second
/// byte rewritten, which turns a leading "PING" command into "PONG".
pub open spec fn pong_bytes(ping: Seq<u8>) -> Seq<u8> {
    ping.update(1, 79u8)
}

/// Derives the reply to a ping by copying the raw bytes and rewriting only
/// the command token.
///
/// The rewrite assumes the wire form begins with the bare command: no
/// source prefix or tags precede it. Succeeds exactly when the codec
/// accepts the rewritten bytes; a codec that rejects them surfaces its
/// decode failure.
pub fn pong_from_ping<Msg: Message>(msg: Msg) -> (r: Result<Msg, MessageError>)
    requires
        msg.bytes().len() >= 2,
    ensures
        (r is Ok) == Msg::decodable(pong_bytes(msg.bytes())),
        match r {
            Ok(pong) => pong.bytes() == pong_bytes(msg.bytes()),
            Err(_) => true,
        },
{
    let mut pong_vec: Vec<u8> = vstd::slice::slice_to_vec(msg.as_bytes());
    pong_vec[1] = 79;
    Msg::try_from(pong_vec)
}

} // verus!
