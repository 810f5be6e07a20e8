//! The control channel: the bounded multi-producer queue and the wake-up
//! registration that let other threads hand actions to a running reactor.
//!
//! Everything here is a thin trusted layer over the queue and event
//! primitives of outside crates; the decisions taken around these calls are
//! verified in the client modules.

use vstd::prelude::*;

use std::sync::mpsc::Receiver;
use std::sync::mpsc::SyncSender;

use crate::client::Action;
use crate::message::Message;

verus! {

#[verifier::external_type_specification]
#[verifier::external_body]
#[verifier::reject_recursive_types(T)]
pub struct ExSyncSender<T>(SyncSender<T>);

#[verifier::external_type_specification]
#[verifier::external_body]
#[verifier::reject_recursive_types(T)]
pub struct ExReceiver<T>(Receiver<T>);

#[verifier::external_type_specification]
#[verifier::external_body]
pub struct ExRegistration(mio::Registration);

#[verifier::external_type_specification]
#[verifier::external_body]
pub struct ExSetReadiness(mio::SetReadiness);

#[verifier::external_type_specification]
pub struct ExToken(mio::Token);

/// Why an action could not be queued for the reactor.
#[derive(Clone, Copy, Debug, PartialEq, Eq, Structural)]
pub enum QueueError {
    /// The bounded queue is at capacity.
    Full,
    /// The reactor's receiving end is gone.
    Disconnected,
}

/// Relies on std::sync::mpsc::sync_channel: a bounded queue safe for use
/// from many producer threads at once.
#[verifier::external_body]
pub(crate) fn new_action_queue<Msg: Message>(bound: usize) -> (SyncSender<Action<Msg>>, Receiver<
    Action<Msg>,
>) {
    std::sync::mpsc::sync_channel(bound)
}

/// Relies on mio::Registration::new2: a fresh event-source registration and
/// its paired readiness setter.
#[verifier::external_body]
pub(crate) fn new_wake_registration() -> (mio::Registration, mio::SetReadiness) {
    mio::Registration::new2()
}

/// Relies on std::sync::mpsc::SyncSender::try_send: queues the action
/// without blocking unless the queue is full or disconnected.
#[verifier::external_body]
pub(crate) fn send_action<Msg: Message>(
    sender: &SyncSender<Action<Msg>>,
    action: Action<Msg>,
) -> Result<(), QueueError> {
    match sender.try_send(action) {
        Ok(()) => Ok(()),
        Err(std::sync::mpsc::TrySendError::Full(_)) => Err(QueueError::Full),
        Err(std::sync::mpsc::TrySendError::Disconnected(_)) => Err(QueueError::Disconnected),
    }
}

/// Relies on std::sync::mpsc::Receiver::try_recv: takes the next queued
/// action, if any, without blocking.
#[verifier::external_body]
pub(crate) fn try_recv_action<Msg: Message>(receiver: &Receiver<Action<Msg>>) -> Option<
    Action<Msg>,
> {
    receiver.try_recv().ok()
}

/// Relies on mio::SetReadiness::set_readiness, with mio::Ready::readable as
/// its argument: marks the paired registration read-ready, so a blocked
/// wait call that watches it returns. Yields false when the platform
/// reported an I/O failure.
#[verifier::external_body]
pub(crate) fn set_ready_readable(setter: &mio::SetReadiness) -> bool {
    setter.set_readiness(mio::Ready::readable()).is_ok()
}

/// Relies on std::sync::mpsc::SyncSender::clone: another sending end of the
/// same queue.
#[verifier::external_body]
pub(crate) fn clone_sender<Msg: Message>(sender: &SyncSender<Action<Msg>>) -> SyncSender<
    Action<Msg>,
> {
    sender.clone()
}

/// Relies on mio::SetReadiness::clone: another setter paired with the same
/// registration.
#[verifier::external_body]
pub(crate) fn clone_setter(setter: &mio::SetReadiness) -> mio::SetReadiness {
    setter.clone()
}

} // verus!
