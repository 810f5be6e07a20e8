//! The client surface: session identities, actions, reactions, and the
//! cloneable cross-thread handle.

use vstd::prelude::*;

use std::sync::mpsc::SyncSender;

use crate::buffer::DiscardError;
use crate::connection::ConnectionError;
use crate::control;
use crate::message::Message;
use crate::message::MessageError;

verus! {

/// Identifies one session of one reactor.
///
/// Valid only against the reactor that issued it; the index is stable for
/// the session's whole lifetime, since sessions are never removed.
#[derive(Clone, Copy, Debug, PartialEq, Eq, Structural)]
pub struct SessionId {
    /// The session's index in its reactor's session table.
    pub index: usize,
    /// The identity token of the reactor that issued this id.
    pub client_uuid: u128,
}

/// Why a client operation failed.
#[derive(Debug)]
pub enum ClientError {
    /// Another session would overflow the representable token space.
    TooManySessions,
    /// A `SessionId` from a different reactor was handed to this one.
    SessionIdFromWrongClient(SessionId),
    /// A session builder was asked to start before its required fields
    /// (connection, nickname) were set.
    IncompleteSessionBuilder,
    /// An internal queue-maintenance invariant was violated.
    InternalLogicError(DiscardError),
    /// The cross-thread action queue is at capacity.
    QueueFull,
    /// The reactor's receiving end of the action queue is gone.
    QueueDisconnected,
    /// The platform reported an I/O failure.
    Io,
    /// A connection operation failed.
    Connection(ConnectionError),
    /// A message could not be decoded.
    Message(MessageError),
}

/// An order another thread asks a reactor to carry out.
pub enum Action<Msg: Message> {
    /// Send a message, like `Reaction::RawMsg`, in the named session.
    RawMsg { session_id: SessionId, message: Msg },
}

/// The declarative effect a message handler asks for.
pub enum Reaction<Msg: Message> {
    /// No effect.
    Nothing,
    /// Send one message on the originating session.
    RawMsg(Msg),
    /// Apply each reaction in order.
    Multi(Vec<Reaction<Msg>>),
}

/// The cloneable capability other threads use to hand actions to a running
/// reactor.
///
/// All clones share one bounded queue and one wake-up setter; the identity
/// token ties the handle to the reactor that created it.
#[verifier::reject_recursive_types(Msg)]
pub struct ClientHandle<Msg: Message> {
    /// The identity token of the owning reactor.
    pub client_uuid: u128,
    pub mpsc_sender: SyncSender<Action<Msg>>,
    pub readiness_setter: mio::SetReadiness,
}

impl<Msg: Message> ClientHandle<Msg> {
    /// Another handle to the same reactor.
    pub fn clone_handle(&self) -> (r: ClientHandle<Msg>)
        ensures
            r.client_uuid == self.client_uuid,
    {
        ClientHandle {
            client_uuid: self.client_uuid,
            mpsc_sender: control::clone_sender(&self.mpsc_sender),
            readiness_setter: control::clone_setter(&self.readiness_setter),
        }
    }

    /// Queues a message to be sent in the named session and wakes the
    /// reactor.
    ///
    /// A session id issued by a different reactor is rejected with a
    /// distinct error before anything is queued; that error arises on
    /// exactly the mismatched ids. On a matching id the action is pushed
    /// onto the bounded queue (reporting a full or disconnected queue as an
    /// ordinary failure) and the shared wake flag is set.
    pub fn try_send(&mut self, session_id: SessionId, message: Msg) -> (r: Result<
        (),
        ClientError,
    >)
        ensures
            *final (self) == *old(self),
            session_id.client_uuid != old(self).client_uuid ==> (r matches Err(
                ClientError::SessionIdFromWrongClient(s),
            ) && s == session_id),
            session_id.client_uuid == old(self).client_uuid ==> (r matches Ok(()) || r matches Err(
                ClientError::QueueFull,
            ) || r matches Err(ClientError::QueueDisconnected) || r matches Err(ClientError::Io)),
    {
        if session_id.client_uuid != self.client_uuid {
            return Err(ClientError::SessionIdFromWrongClient(session_id));
        }
        match control::send_action(&self.mpsc_sender, Action::RawMsg { session_id, message }) {
            Ok(()) => {},
            Err(control::QueueError::Full) => {
                return Err(ClientError::QueueFull);
            },
            Err(control::QueueError::Disconnected) => {
                return Err(ClientError::QueueDisconnected);
            },
        }
        self.set_ready()
    }

    /// Notifies the associated reactor that there is an action to read from
    /// the queue.
    fn set_ready(&self) -> (r: Result<(), ClientError>)
        ensures
            r matches Ok(()) || r matches Err(ClientError::Io),
    {
        if control::set_ready_readable(&self.readiness_setter) {
            Ok(())
        } else {
            Err(ClientError::Io)
        }
    }
}

/// What a message handler learns about the message it is handed: which
/// session it arrived on, and a handle for asking other sessions to act.
#[verifier::reject_recursive_types(Msg)]
pub struct MessageContext<Msg: Message> {
    pub client_handle: ClientHandle<Msg>,
    pub session_id: SessionId,
}

impl<Msg: Message> MessageContext<Msg> {
    /// A handle to the reactor that received the message.
    pub fn client_handle(&self) -> (r: &ClientHandle<Msg>)
        ensures
            r.client_uuid == self.client_handle.client_uuid,
    {
        &self.client_handle
    }

    /// The session the message arrived on.
    pub fn session_id(&self) -> (r: SessionId)
        ensures
            r == self.session_id,
    {
        self.session_id
    }
}

/// Configuration shared by the richer client variants; it has no fields yet
/// beyond a marker for the message type.
#[derive(Debug)]
pub struct ClientConfig<Msg: Message> {
    _msg: core::marker::PhantomData<Msg>,
}

impl<Msg: Message> ClientConfig<Msg> {
    /// An empty configuration.
    pub fn new() -> ClientConfig<Msg> {
        ClientConfig { _msg: core::marker::PhantomData }
    }
}

} // verus!
