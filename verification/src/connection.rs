//! The connection abstraction.
//!
//! A connection is a non-blocking, line-oriented byte stream. The transports
//! themselves (plain TCP, TLS) are pluggable: any type implementing
//! [`Connection`] can be driven by the reactor. The contracts model a
//! connection by the encoded messages accepted into its send path so far,
//! the complete line payloads waiting to be received, the send attempts it
//! refused, and how many receive attempts failed outright.

use vstd::prelude::*;

use crate::message::Message;
use crate::message::MessageError;

verus! {

/// The longest encoded line a connection will send, terminator included.
pub const IRC_LINE_MAX_LEN: usize = 1024;

/// Why a connection operation failed.
#[derive(Debug)]
pub enum ConnectionError {
    /// The operation would block or timed out; retry once the transport is
    /// ready again.
    Transient,
    /// Any other I/O failure; the offending operation is abandoned.
    Fatal,
    /// The message would exceed the maximum encoded line length; never
    /// retryable. Carries the rejected message bytes.
    MessageTooLong(Vec<u8>),
    /// A complete line was read but could not be decoded into a message.
    Decode(MessageError),
}

/// The model of a connection: what was accepted for sending, what waits to
/// be received, and which send attempts were refused. A transport verified
/// against these traits overrides the views; an unverified one may leave
/// the defaults in place, since nothing runs them.
pub trait ConnectionState {
    /// The encoded messages accepted into the send path, oldest first.
    open spec fn sent(&self) -> Seq<Seq<u8>> {
        Seq::empty()
    }

    /// The payloads of complete received lines not yet handed out, oldest
    /// first.
    open spec fn inbox(&self) -> Seq<Seq<u8>> {
        Seq::empty()
    }

    /// The refused send attempts, oldest first: the message bytes, paired
    /// with whether the refusal was transient.
    open spec fn send_failures(&self) -> Seq<(Seq<u8>, bool)> {
        Seq::empty()
    }

    /// How many receive attempts have failed outright: neither a message,
    /// a clean end, a transient condition, nor a refused line.
    open spec fn recv_failures(&self) -> nat {
        0
    }
}

/// The sending half of a connection.
pub trait SendMessage: ConnectionState {
    /// Accepts one message into the send path, or reports why it could not.
    ///
    /// A message too long for the line discipline is rejected outright; any
    /// other failure leaves the send path as it was, so the caller may retry
    /// or requeue.
    fn try_send<Msg: Message>(&mut self, msg: &Msg) -> (r: Result<(), ConnectionError>)
        ensures
            match r {
                Ok(()) => final (self).sent() == old(self).sent().push(msg.bytes())
                    && final (self).send_failures() == old(self).send_failures(),
                Err(e) => final (self).sent() == old(self).sent() && final (self).send_failures()
                    == old(self).send_failures().push((msg.bytes(), e is Transient)),
            },
            msg.bytes().len() + 2 > IRC_LINE_MAX_LEN ==> (r matches Err(
                ConnectionError::MessageTooLong(_),
            )),
            final (self).inbox() == old(self).inbox(),
            final (self).recv_failures() == old(self).recv_failures(),
    ;
}

/// The receiving half of a connection.
pub trait ReceiveMessage: ConnectionState {
    /// Performs exactly one receive attempt.
    ///
    /// Returns the next complete message if one is buffered, `None` exactly
    /// when no complete line is available (or the peer closed the stream
    /// with nothing buffered), a decode failure if a line was read but
    /// could not be decoded (that line is consumed), and a transient or
    /// fatal error otherwise.
    fn recv<Msg: Message>(&mut self) -> (r: Result<Option<Msg>, ConnectionError>)
        ensures
            final (self).sent() == old(self).sent(),
            final (self).send_failures() == old(self).send_failures(),
            match r {
                Ok(opt) => match opt {
                    Some(m) => old(self).inbox().len() > 0 && m.bytes() == old(self).inbox()[0]
                        && Msg::decodable(old(self).inbox()[0]) && final (self).inbox() == old(
                        self,
                    ).inbox().skip(1) && final (self).recv_failures() == old(self).recv_failures(),
                    None => old(self).inbox().len() == 0 && final (self).inbox() == old(
                        self,
                    ).inbox() && final (self).recv_failures() == old(self).recv_failures(),
                },
                Err(e) => match e {
                    ConnectionError::Decode(_) => old(self).inbox().len() > 0 && !Msg::decodable(
                        old(self).inbox()[0],
                    ) && final (self).inbox() == old(self).inbox().skip(1) && final (
                    self).recv_failures() == old(self).recv_failures(),
                    ConnectionError::Transient => final (self).inbox() == old(self).inbox()
                        && final (self).recv_failures() == old(self).recv_failures(),
                    _ => final (self).inbox() == old(self).inbox() && final (self).recv_failures()
                        == old(self).recv_failures() + 1,
                },
            },
    ;
}

/// A full connection: both halves.
pub trait Connection: SendMessage + ReceiveMessage {
}

/// The payload of a received line: the line with every trailing CR or LF
/// removed.
pub open spec fn strip_line_terminators(line: Seq<u8>) -> Seq<u8>
    decreases line.len(),
{
    if line.len() > 0 && (line.last() == 10u8 || line.last() == 13u8) {
        strip_line_terminators(line.drop_last())
    } else {
        line
    }
}

/// Framing and then receiving is the identity on the payload: a framed line
/// read back whole and stripped of its terminators is the message bytes
/// again, for any message that does not itself end in a terminator byte.
pub proof fn lemma_frame_round_trip(payload: Seq<u8>)
    requires
        payload.len() == 0 || (payload.last() != 10u8 && payload.last() != 13u8),
    ensures
        strip_line_terminators(payload + seq![13u8, 10u8]) == payload,
{
    let framed = payload + seq![13u8, 10u8];
    assert(framed.last() == 10u8);
    assert(framed.drop_last() =~= payload + seq![13u8]);
    assert(strip_line_terminators(framed) == strip_line_terminators(payload + seq![13u8]));
    assert((payload + seq![13u8]).last() == 13u8);
    assert((payload + seq![13u8]).drop_last() =~= payload);
    assert(strip_line_terminators(payload + seq![13u8]) == strip_line_terminators(payload));
    assert(strip_line_terminators(payload) == payload);
}

/// Turns one raw line, as a transport read it, into a decoded message.
///
/// An empty read (no complete line, or end of stream) yields no message.
/// Otherwise the trailing CR/LF terminators are stripped and the payload is
/// handed to the codec; a codec failure is reported as a decode error.
pub fn recv_common<Msg: Message>(line: Vec<u8>) -> (r: Result<Option<Msg>, ConnectionError>)
    ensures
        match r {
            Ok(opt) => match opt {
                Some(m) => line@.len() > 0 && m.bytes() == strip_line_terminators(line@)
                    && Msg::decodable(strip_line_terminators(line@)),
                None => line@.len() == 0,
            },
            Err(e) => line@.len() > 0 && (e matches ConnectionError::Decode(_))
                && !Msg::decodable(strip_line_terminators(line@)),
        },
{
    if line.len() == 0 {
        return Ok(None);
    }
    let ghost orig: Seq<u8> = line@;
    let mut payload = line;
    while payload.len() > 0 && (payload[payload.len() - 1] == 10 || payload[payload.len() - 1]
        == 13)
        invariant
            strip_line_terminators(payload@) == strip_line_terminators(orig),
        decreases payload@.len(),
    {
        let _ = payload.pop();
    }
    match Msg::try_from(payload) {
        Ok(m) => Ok(Some(m)),
        Err(e) => Err(ConnectionError::Decode(e)),
    }
}

/// Splits the first complete line, terminator included, off the front of a
/// byte buffer; the remainder keeps its order. A buffer holding no line
/// terminator is handed back whole.
pub fn split_first_line(buf: Vec<u8>) -> (r: (Option<Vec<u8>>, Vec<u8>))
    ensures
        match r.0 {
            Some(line) => line@.len() > 0 && line@.last() == 10u8 && (forall|i: int|
                0 <= i < line@.len() - 1 ==> line@[i] != 10u8) && line@ + r.1@ == buf@,
            None => r.1@ == buf@ && (forall|i: int| 0 <= i < buf@.len() ==> buf@[i] != 10u8),
        },
{
    let n = buf.len();
    let mut i: usize = 0;
    while i < n && buf[i] != 10
        invariant
            i <= n,
            n == buf@.len(),
            forall|k: int| 0 <= k < i ==> buf@[k] != 10u8,
        decreases n - i,
    {
        i = i + 1;
    }
    if i == n {
        return (None, buf);
    }
    let mut line = buf;
    let rest = line.split_off(i + 1);
    proof {
        assert(line@ + rest@ =~= buf@);
        assert(line@.last() == buf@[i as int]);
    }
    (Some(line), rest)
}

/// Frames one message for the wire: checks it against the maximum encoded
/// line length and appends the CR LF terminator.
///
/// A message whose encoded line would exceed the limit is rejected with a
/// distinct, non-retryable error carrying the offending bytes.
pub fn try_send_common<Msg: Message>(msg: &Msg) -> (r: Result<Vec<u8>, ConnectionError>)
    ensures
        match r {
            Ok(wire) => msg.bytes().len() + 2 <= IRC_LINE_MAX_LEN && wire@ == msg.bytes() + seq![
                13u8,
                10u8,
            ],
            Err(e) => msg.bytes().len() + 2 > IRC_LINE_MAX_LEN && (e matches
            ConnectionError::MessageTooLong(b) && b@ == msg.bytes()),
        },
{
    let msg_bytes = msg.as_bytes();
    if msg_bytes.len() > IRC_LINE_MAX_LEN - 2 {
        let mut rejected: Vec<u8> = Vec::new();
        rejected.extend_from_slice(msg_bytes);
        return Err(ConnectionError::MessageTooLong(rejected));
    }
    let mut wire: Vec<u8> = Vec::new();
    wire.extend_from_slice(msg_bytes);
    wire.push(13);
    wire.push(10);
    assert(wire@ =~= msg.bytes() + seq![13u8, 10u8]);
    Ok(wire)
}

} // verus!
