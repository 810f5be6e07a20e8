//! The reactor: the session table, the event-token space, and the dispatch
//! logic run for each readiness event.
//!
//! The blocking wait itself belongs to the embedding program: it registers
//! every session's transport and the control-channel registration with its
//! multiplexer, waits, and hands each event's token and readiness to
//! [`ThinClient::process_mio_event`].

use vstd::prelude::*;

use std::sync::mpsc::Receiver;

use crate::buffer;
use crate::client::Action;
use crate::client::ClientError;
use crate::client::ClientHandle;
use crate::client::MessageContext;
use crate::client::Reaction;
use crate::client::SessionId;
use crate::connection::Connection;
use crate::connection::ConnectionError;
use crate::connection::ConnectionState;
use crate::control;
use crate::irc::pong_bytes;
use crate::irc::pong_from_ping;
use crate::message::Message;
use crate::session::Session;
use crate::session::TryIntoSession;

verus! {

/// How many pending actions the cross-thread queue holds before refusing
/// more.
pub const MPSC_QUEUE_SIZE_LIMIT: usize = 1024;

/// Relies on uuid::Uuid::new_v4 and uuid::Uuid::as_u128: a freshly
/// generated random 128-bit identity token.
#[verifier::external_body]
fn new_client_uuid() -> u128 {
    uuid::Uuid::new_v4().as_u128()
}

/// Identifies the context associated with a multiplexer event: either an
/// IRC session, or the queue via which other threads hand the reactor
/// actions.
#[derive(Clone, Copy, Debug, PartialEq, Eq, Structural)]
pub enum EventContextId {
    /// The cross-thread action queue's wake-up registration.
    MpscQueue,
    /// One session's transport.
    Session(SessionId),
}

/// The token number a context registers under: the control channel takes 0
/// and session indices are biased by one. A session index whose token would
/// collide with the multiplexer's reserved sentinel (the greatest
/// representable token) or overflow is not representable.
pub open spec fn token_number_of_ctx(ctx: EventContextId) -> Option<usize> {
    match ctx {
        EventContextId::MpscQueue => Some(0usize),
        EventContextId::Session(id) => if id.index + 1 < usize::MAX {
            Some((id.index + 1) as usize)
        } else {
            None
        },
    }
}

/// The context a token number maps back to, for a reactor with the given
/// identity token: 0 is the control channel, any other number names the
/// session at its unbiased index.
pub open spec fn ctx_of_token_number(client_uuid: u128, n: usize) -> EventContextId {
    if n == 0 {
        EventContextId::MpscQueue
    } else {
        EventContextId::Session(SessionId { index: (n - 1) as usize, client_uuid })
    }
}

/// Token-to-context-to-token is the identity on every representable token;
/// the one non-convertible session index fails conversion rather than
/// silently wrapping.
pub proof fn lemma_token_round_trip(client_uuid: u128, n: usize)
    ensures
        n < usize::MAX ==> token_number_of_ctx(ctx_of_token_number(client_uuid, n)) == Some(n),
        n == usize::MAX ==> token_number_of_ctx(ctx_of_token_number(client_uuid, n)) is None,
{
}

/// Context-to-token-to-context is the identity on every context that has a
/// token.
pub proof fn lemma_ctx_round_trip(client_uuid: u128, ctx: EventContextId)
    requires
        ctx matches EventContextId::Session(id) ==> id.client_uuid == client_uuid,
    ensures
        match token_number_of_ctx(ctx) {
            Some(n) => ctx_of_token_number(client_uuid, n) == ctx,
            None => true,
        },
{
}

/// The token space is injective: the control channel and the sessions at
/// distinct indices all take pairwise distinct tokens.
pub proof fn lemma_token_space_injective(c1: EventContextId, c2: EventContextId)
    requires
        token_number_of_ctx(c1) is Some,
        token_number_of_ctx(c1) == token_number_of_ctx(c2),
    ensures
        match (c1, c2) {
            (EventContextId::MpscQueue, EventContextId::MpscQueue) => true,
            (EventContextId::Session(id1), EventContextId::Session(id2)) => id1.index == id2.index,
            _ => false,
        },
{
}

impl EventContextId {
    /// The multiplexer token this context registers under.
    ///
    /// Fails, rather than wrapping, for the session index whose token would
    /// overflow and for the one whose token the multiplexer reserves.
    pub fn as_mio_token(&self) -> (r: Result<mio::Token, ClientError>)
        ensures
            match r {
                Ok(t) => token_number_of_ctx(*self) == Some(t.0),
                Err(e) => token_number_of_ctx(*self) is None && (e matches
                ClientError::TooManySessions),
            },
    {
        let token_number: usize = match *self {
            EventContextId::MpscQueue => 0,
            EventContextId::Session(SessionId { index, client_uuid: _ }) => {
                match index.checked_add(1) {
                    Some(n) => {
                        if n == usize::MAX {
                            // The reserved marker value of the multiplexer.
                            return Err(ClientError::TooManySessions);
                        }
                        n
                    },
                    None => {
                        // The conversion would overflow.
                        return Err(ClientError::TooManySessions);
                    },
                }
            },
        };
        Ok(mio::Token(token_number))
    }
}

/// One session of the reactor, with its pending output and its cached
/// writability.
///
/// The output queue holds the messages that could not be sent yet, oldest
/// first. The writability flag is sticky: readiness is reported once per
/// transition, so the flag stays set until a send attempt reports the
/// transport unavailable again.
pub struct SessionEntry<Conn: Connection, Msg: Message> {
    /// The session itself.
    pub inner: Session<Conn>,
    /// Outgoing messages awaiting a writable transport, oldest first.
    pub output_queue: Vec<Msg>,
    /// Whether the transport was writable when last heard from.
    pub is_writable: bool,
}

impl<Conn: Connection, Msg: Message> SessionEntry<Conn, Msg> {
    /// The bytes of the queued outgoing messages, oldest first.
    pub open spec fn queue_bytes(&self) -> Seq<Seq<u8>> {
        self.output_queue@.map(|i: int, m: Msg| m.bytes())
    }

    /// The bytes accepted into the connection's send path, oldest first.
    pub open spec fn sent(&self) -> Seq<Seq<u8>> {
        self.inner.connection.sent()
    }

    /// The received line payloads not yet handed out, oldest first.
    pub open spec fn inbox(&self) -> Seq<Seq<u8>> {
        self.inner.connection.inbox()
    }

    /// The connection's refused send attempts, oldest first: message bytes,
    /// paired with whether the refusal was transient.
    pub open spec fn send_failures(&self) -> Seq<(Seq<u8>, bool)> {
        self.inner.connection.send_failures()
    }

    /// How many of the connection's receive attempts failed outright.
    pub open spec fn recv_failures(&self) -> nat {
        self.inner.connection.recv_failures()
    }

    /// What [`SessionEntry::send`] does to the entry, by outcome: an
    /// accepted message joins the send path; a transient refusal queues the
    /// message at the back, clears the cached writability and goes on
    /// record; any other refusal drops the message, goes on record, and
    /// changes nothing else.
    pub open spec fn send_outcome(
        pre: SessionEntry<Conn, Msg>,
        post: SessionEntry<Conn, Msg>,
        msg_bytes: Seq<u8>,
        r: Result<(), ConnectionError>,
    ) -> bool {
        &&& post.inbox() == pre.inbox()
        &&& post.recv_failures() == pre.recv_failures()
        &&& match r {
            Ok(()) => post.sent() == pre.sent().push(msg_bytes) && post.queue_bytes()
                == pre.queue_bytes() && post.is_writable == pre.is_writable
                && post.send_failures() == pre.send_failures(),
            Err(e) => post.sent() == pre.sent() && post.send_failures()
                == pre.send_failures().push((msg_bytes, e is Transient)) && match e {
                ConnectionError::Transient => post.queue_bytes() == pre.queue_bytes().push(
                    msg_bytes,
                ) && !post.is_writable,
                _ => post.queue_bytes() == pre.queue_bytes() && post.is_writable
                    == pre.is_writable,
            },
        }
    }

    /// Tries to send one message now, queueing it for later if the
    /// transport is not ready.
    ///
    /// On success the message joins the send path and nothing else changes.
    /// On a transient refusal the message is queued at the back and the
    /// cached writability is cleared. On any other refusal the message is
    /// dropped and everything else is left as it was. Either refusal goes
    /// on the connection's record, and the error is reported back.
    pub fn send(&mut self, session_id: SessionId, msg: &Msg) -> (r: Result<(), ConnectionError>)
        ensures
            Self::send_outcome(*old(self), *final (self), msg.bytes(), r),
    {
        let ghost pre_queue = self.queue_bytes();
        match self.inner.try_send(msg) {
            Ok(()) => Ok(()),
            Err(ConnectionError::Transient) => {
                self.is_writable = false;
                self.output_queue.push(msg.dup());
                proof {
                    assert(self.queue_bytes() =~= pre_queue.push(msg.bytes()));
                }
                Err(ConnectionError::Transient)
            },
            Err(e) => Err(e),
        }
    }
}

/// A prefix of a prefix is a prefix.
pub proof fn lemma_prefix_of_transitive<T>(a: Seq<T>, b: Seq<T>, c: Seq<T>)
    requires
        a.is_prefix_of(b),
        b.is_prefix_of(c),
    ensures
        a.is_prefix_of(c),
{
    assert(a =~= c.subrange(0, a.len() as int));
}

/// The send path between two states recorded no transient refusal: the
/// record only grew, and every new entry is a non-transient one.
pub open spec fn no_transient_since(
    pre: Seq<(Seq<u8>, bool)>,
    post: Seq<(Seq<u8>, bool)>,
) -> bool {
    &&& pre.is_prefix_of(post)
    &&& forall|i: int| pre.len() <= i < post.len() ==> !(#[trigger] post[i]).1
}

/// Refusal records compose: what holds of a whole extension holds of its
/// two halves.
pub proof fn lemma_no_transient_split(
    a: Seq<(Seq<u8>, bool)>,
    b: Seq<(Seq<u8>, bool)>,
    c: Seq<(Seq<u8>, bool)>,
)
    requires
        a.is_prefix_of(b),
        b.is_prefix_of(c),
        no_transient_since(a, c),
    ensures
        no_transient_since(a, b),
        no_transient_since(b, c),
{
    lemma_prefix_of_transitive(a, b, c);
    assert forall|i: int| a.len() <= i < b.len() implies !(#[trigger] b[i]).1 by {
        assert(b[i] == c.subrange(0, b.len() as int)[i]);
    }
}

/// The failure records a flush pass leaves for its consumed prefix: one
/// non-transient entry for each dropped message, in order.
pub open spec fn dropped_failures(s: Seq<Seq<u8>>, keep: Seq<bool>) -> Seq<(Seq<u8>, bool)>
    recommends
        s.len() == keep.len(),
    decreases s.len(),
{
    if s.len() == 0 || keep.len() == 0 {
        Seq::empty()
    } else if keep.last() {
        dropped_failures(s.drop_last(), keep.drop_last())
    } else {
        dropped_failures(s.drop_last(), keep.drop_last()).push((s.last(), false))
    }
}

/// The elements of `s` selected by `keep`, in order: element `i` stays
/// exactly when `keep[i]` holds.
pub open spec fn mask_filter(s: Seq<Seq<u8>>, keep: Seq<bool>) -> Seq<Seq<u8>>
    recommends
        s.len() == keep.len(),
    decreases s.len(),
{
    if s.len() == 0 || keep.len() == 0 {
        Seq::empty()
    } else if keep.last() {
        mask_filter(s.drop_last(), keep.drop_last()).push(s.last())
    } else {
        mask_filter(s.drop_last(), keep.drop_last())
    }
}

/// The observable state of one session entry: everything the contracts
/// speak of, as one value.
#[verifier::ext_equal]
pub struct SessionView {
    /// The bytes accepted into the send path, oldest first.
    pub sent: Seq<Seq<u8>>,
    /// The bytes of the queued outgoing messages, oldest first.
    pub queue: Seq<Seq<u8>>,
    /// The refused send attempts, oldest first.
    pub failures: Seq<(Seq<u8>, bool)>,
    /// The cached writability flag.
    pub writable: bool,
    /// The received line payloads not yet handed out, oldest first.
    pub inbox: Seq<Seq<u8>>,
    /// How many receive attempts failed outright.
    pub recv_failures: nat,
}

impl<Conn: Connection, Msg: Message> View for SessionEntry<Conn, Msg> {
    type V = SessionView;

    open spec fn view(&self) -> SessionView {
        SessionView {
            sent: self.sent(),
            queue: self.queue_bytes(),
            failures: self.send_failures(),
            writable: self.is_writable,
            inbox: self.inbox(),
            recv_failures: self.recv_failures(),
        }
    }
}

/// How the transport answered one send attempt.
pub enum SendAttemptOutcome {
    /// The message joined the send path.
    Accepted,
    /// The transport would block or timed out; the message was queued.
    RefusedTransient,
    /// Any other refusal; the message was dropped.
    RefusedFatal,
}

/// One send attempt's effect on a session's observable state, by the
/// transport's answer: acceptance appends to the send path; a transient
/// refusal queues the message and clears the writability flag; any other
/// refusal only goes on record. Nothing else ever changes.
pub open spec fn apply_send(
    v: SessionView,
    msg_bytes: Seq<u8>,
    oc: SendAttemptOutcome,
) -> SessionView {
    match oc {
        SendAttemptOutcome::Accepted => SessionView { sent: v.sent.push(msg_bytes), ..v },
        SendAttemptOutcome::RefusedTransient => SessionView {
            queue: v.queue.push(msg_bytes),
            failures: v.failures.push((msg_bytes, true)),
            writable: false,
            ..v
        },
        SendAttemptOutcome::RefusedFatal => SessionView {
            failures: v.failures.push((msg_bytes, false)),
            ..v
        },
    }
}

/// The effect of attempting to send each message in order, the transport
/// answering each attempt as `ocs` says.
pub open spec fn apply_sends(
    v: SessionView,
    msgs: Seq<Seq<u8>>,
    ocs: Seq<SendAttemptOutcome>,
) -> SessionView
    recommends
        msgs.len() == ocs.len(),
    decreases msgs.len(),
{
    if msgs.len() == 0 || ocs.len() == 0 {
        v
    } else {
        apply_send(apply_sends(v, msgs.drop_last(), ocs.drop_last()), msgs.last(), ocs.last())
    }
}

/// Send effects compose over concatenation.
proof fn lemma_apply_sends_concat(
    v: SessionView,
    m1: Seq<Seq<u8>>,
    o1: Seq<SendAttemptOutcome>,
    m2: Seq<Seq<u8>>,
    o2: Seq<SendAttemptOutcome>,
)
    requires
        m1.len() == o1.len(),
        m2.len() == o2.len(),
    ensures
        apply_sends(v, m1 + m2, o1 + o2) == apply_sends(apply_sends(v, m1, o1), m2, o2),
    decreases m2.len(),
{
    if m2.len() == 0 {
        assert(m1 + m2 =~= m1);
        assert(o1 + o2 =~= o1);
    } else {
        lemma_apply_sends_concat(v, m1, o1, m2.drop_last(), o2.drop_last());
        assert((m1 + m2).drop_last() =~= m1 + m2.drop_last());
        assert((o1 + o2).drop_last() =~= o1 + o2.drop_last());
        assert((m1 + m2).last() == m2.last());
        assert((o1 + o2).last() == o2.last());
    }
}

/// The messages one reaction asks to send, in order.
pub open spec fn reaction_msgs<Msg: Message>(reaction: Reaction<Msg>) -> Seq<Seq<u8>>
    decreases reaction,
    via reaction_msgs_decreases::<Msg>
{
    match reaction {
        Reaction::Nothing => Seq::empty(),
        Reaction::RawMsg(m) => seq![m.bytes()],
        Reaction::Multi(rs) => reactions_msgs(rs@),
    }
}

#[via_fn]
proof fn reaction_msgs_decreases<Msg: Message>(reaction: Reaction<Msg>) {
    match reaction {
        Reaction::Multi(rs) => {
            assert(decreases_to!(reaction => reaction->Multi_0));
            assert(decreases_to!(reaction->Multi_0 => reaction->Multi_0@));
        },
        _ => {},
    }
}

/// The messages a sequence of reactions asks to send, in order.
pub open spec fn reactions_msgs<Msg: Message>(rs: Seq<Reaction<Msg>>) -> Seq<Seq<u8>>
    decreases rs,
    via reactions_msgs_decreases::<Msg>
{
    if rs.len() == 0 {
        Seq::empty()
    } else {
        reactions_msgs(rs.drop_last()) + reaction_msgs(rs.last())
    }
}

#[via_fn]
proof fn reactions_msgs_decreases<Msg: Message>(rs: Seq<Reaction<Msg>>) {
    if rs.len() > 0 {
        vstd::seq::axiom_seq_index_decreases(rs, rs.len() - 1);
        assert(rs.drop_last() == rs.subrange(0, rs.len() - 1));
        vstd::seq::axiom_seq_subrange_decreases(rs, 0, rs.len() - 1);
    }
}

/// Applies one reaction to the originating session: nothing, one direct
/// send attempt (queued on transient failure), or each member of a compound
/// reaction in order.
///
/// The observable state becomes exactly the result of attempting the
/// reaction's messages in order, for some sequence of transport answers: a
/// `Nothing` reaction attempts no message and leaves the session unchanged,
/// `RawMsg` attempts exactly that one message, and `Multi` composes its
/// members in order. In particular the send path, the output queue and the
/// refusal record only grow at their ends; the writability flag changes
/// only if a transient refusal was recorded, and a cleared flag stays
/// cleared.
pub fn process_reaction<Conn: Connection, Msg: Message>(
    session: &mut SessionEntry<Conn, Msg>,
    session_id: SessionId,
    reaction: Reaction<Msg>,
)
    ensures
        exists|ocs: Seq<SendAttemptOutcome>|
            ocs.len() == reaction_msgs(reaction).len() && final (session)@ == apply_sends(
                old(session)@,
                reaction_msgs(reaction),
                ocs,
            ),
        final (session).inbox() == old(session).inbox(),
        final (session).recv_failures() == old(session).recv_failures(),
        old(session).sent().is_prefix_of(final (session).sent()),
        old(session).queue_bytes().is_prefix_of(final (session).queue_bytes()),
        old(session).send_failures().is_prefix_of(final (session).send_failures()),
        !old(session).is_writable ==> !final (session).is_writable,
        no_transient_since(old(session).send_failures(), final (session).send_failures())
            ==> final (session).is_writable == old(session).is_writable,
    decreases reaction,
{
    match reaction {
        Reaction::Nothing => {
            proof {
                let ocs = Seq::<SendAttemptOutcome>::empty();
                assert(reaction_msgs(reaction) =~= Seq::<Seq<u8>>::empty());
                assert(ocs.len() == reaction_msgs(reaction).len() && (*session)@ == apply_sends(
                    old(session)@,
                    reaction_msgs(reaction),
                    ocs,
                ));
            }
        },
        Reaction::RawMsg(msg) => {
            let ghost pre = *session;
            let send_result = session.send(session_id, &msg);
            proof {
                assert(SessionEntry::send_outcome(pre, *session, msg.bytes(), send_result));
                let oc = match send_result {
                    Ok(()) => SendAttemptOutcome::Accepted,
                    Err(ConnectionError::Transient) => SendAttemptOutcome::RefusedTransient,
                    Err(_) => SendAttemptOutcome::RefusedFatal,
                };
                let ocs = seq![oc];
                assert((*session)@ =~= apply_send(pre@, msg.bytes(), oc));
                assert(reaction_msgs(reaction) == seq![msg.bytes()]);
                assert(seq![msg.bytes()].drop_last() =~= Seq::<Seq<u8>>::empty());
                assert(ocs.drop_last() =~= Seq::<SendAttemptOutcome>::empty());
                assert(apply_sends(pre@, seq![msg.bytes()].drop_last(), ocs.drop_last()) == pre@);
                assert(seq![msg.bytes()].last() == msg.bytes());
                assert(ocs.last() == oc);
                assert(apply_sends(pre@, seq![msg.bytes()], ocs) == apply_send(
                    pre@,
                    msg.bytes(),
                    oc,
                ));
                assert(ocs.len() == reaction_msgs(reaction).len() && (*session)@ == apply_sends(
                    old(session)@,
                    reaction_msgs(reaction),
                    ocs,
                ));
                assert(pre.sent().is_prefix_of(session.sent()));
                assert(pre.queue_bytes().is_prefix_of(session.queue_bytes()));
                assert(pre.send_failures().is_prefix_of(session.send_failures()));
                if send_result is Err {
                    assert(session.send_failures()[pre.send_failures().len() as int] == (
                    msg.bytes(),
                    send_result->Err_0 is Transient,
                    ));
                }
            }
        },
        Reaction::Multi(reactions) => {
            let ghost orig: Seq<Reaction<Msg>> = reactions@;
            let mut rest = reactions;
            let ghost mut idx: int = 0;
            let ghost mut ocs: Seq<SendAttemptOutcome> = Seq::empty();
            proof {
                assert(reactions_msgs(orig.take(0)) =~= Seq::<Seq<u8>>::empty());
                assert((*session)@ == apply_sends(old(session)@, reactions_msgs(orig.take(0)), ocs));
            }
            while rest.len() > 0
                invariant
                    0 <= idx <= orig.len(),
                    rest@ == orig.skip(idx),
                    reaction matches Reaction::Multi(v) && v@ == orig,
                    ocs.len() == reactions_msgs(orig.take(idx)).len(),
                    (*session)@ == apply_sends(old(session)@, reactions_msgs(orig.take(idx)), ocs),
                    session.inbox() == old(session).inbox(),
                    session.recv_failures() == old(session).recv_failures(),
                    old(session).sent().is_prefix_of(session.sent()),
                    old(session).queue_bytes().is_prefix_of(session.queue_bytes()),
                    old(session).send_failures().is_prefix_of(session.send_failures()),
                    !old(session).is_writable ==> !session.is_writable,
                    no_transient_since(old(session).send_failures(), session.send_failures())
                        ==> session.is_writable == old(session).is_writable,
                decreases rest@.len(),
            {
                let ghost pre = *session;
                let r = rest.remove(0);
                proof {
                    assert(r == orig[idx]);
                    assert(decreases_to!(reaction => reaction->Multi_0));
                    assert(decreases_to!(reaction->Multi_0 => reaction->Multi_0@));
                    assert(reaction->Multi_0@ == orig);
                    assert(decreases_to!(orig => orig[idx]));
                }
                process_reaction(session, session_id, r);
                proof {
                    idx = idx + 1;
                    assert(rest@ =~= orig.skip(idx));
                    lemma_prefix_of_transitive(old(session).sent(), pre.sent(), session.sent());
                    lemma_prefix_of_transitive(
                        old(session).queue_bytes(),
                        pre.queue_bytes(),
                        session.queue_bytes(),
                    );
                    lemma_prefix_of_transitive(
                        old(session).send_failures(),
                        pre.send_failures(),
                        session.send_failures(),
                    );
                    if no_transient_since(old(session).send_failures(), session.send_failures()) {
                        lemma_no_transient_split(
                            old(session).send_failures(),
                            pre.send_failures(),
                            session.send_failures(),
                        );
                    }
                    let ocs_r = choose|o: Seq<SendAttemptOutcome>|
                        o.len() == reaction_msgs(r).len() && (*session)@ == apply_sends(
                            pre@,
                            reaction_msgs(r),
                            o,
                        );
                    lemma_apply_sends_concat(
                        old(session)@,
                        reactions_msgs(orig.take(idx - 1)),
                        ocs,
                        reaction_msgs(r),
                        ocs_r,
                    );
                    assert(orig.take(idx).drop_last() =~= orig.take(idx - 1));
                    assert(orig.take(idx).last() == orig[idx - 1]);
                    assert(reactions_msgs(orig.take(idx)) == reactions_msgs(orig.take(idx - 1))
                        + reaction_msgs(r));
                    ocs = ocs + ocs_r;
                    assert((*session)@ == apply_sends(
                        old(session)@,
                        reactions_msgs(orig.take(idx)),
                        ocs,
                    ));
                }
            }
            proof {
                assert(orig.take(idx) =~= orig);
                assert(reaction_msgs(reaction) == reactions_msgs(orig));
                assert(ocs.len() == reaction_msgs(reaction).len() && (*session)@ == apply_sends(
                    old(session)@,
                    reaction_msgs(reaction),
                    ocs,
                ));
            }
        },
    }
}

/// What one flush pass over a session's output queue does: some prefix of
/// length `k` is consumed, the remaining messages keep their order, and the
/// consumed messages selected by `keep` — those the transport accepted, in
/// their original order — join the send path. Every message of the prefix
/// that was not accepted left a non-transient refusal on record, in order:
/// a message is dropped only because the transport refused it outright. A
/// pass that stops before the end stopped on a recorded transient refusal
/// of the next message and cleared the cached writability.
pub open spec fn flush_outcome(pre: SessionView, post: SessionView, k: int, keep: Seq<
    bool,
>) -> bool {
    &&& 0 <= k <= pre.queue.len()
    &&& keep.len() == k
    &&& post.queue == pre.queue.skip(k)
    &&& post.sent == pre.sent + mask_filter(pre.queue.take(k), keep)
    &&& post.inbox == pre.inbox
    &&& post.recv_failures == pre.recv_failures
    &&& if k < pre.queue.len() {
        post.writable == false && post.failures == pre.failures + dropped_failures(
            pre.queue.take(k),
            keep,
        ) + seq![(pre.queue[k], true)]
    } else {
        post.writable == pre.writable && post.failures == pre.failures + dropped_failures(
            pre.queue.take(k),
            keep,
        )
    }
}

/// Keeping every element filters nothing out.
proof fn lemma_mask_filter_all_kept(s: Seq<Seq<u8>>, keep: Seq<bool>)
    requires
        keep.len() == s.len(),
        forall|i: int| 0 <= i < keep.len() ==> keep[i],
    ensures
        mask_filter(s, keep) == s,
    decreases s.len(),
{
    if s.len() == 0 {
        assert(mask_filter(s, keep) =~= s);
    } else {
        lemma_mask_filter_all_kept(s.drop_last(), keep.drop_last());
        assert(keep[keep.len() - 1]);
        assert(mask_filter(s, keep) =~= s);
    }
}

/// A prefix with no dropped element was kept whole.
proof fn lemma_no_drops_means_all_kept(s: Seq<Seq<u8>>, keep: Seq<bool>)
    requires
        keep.len() == s.len(),
        dropped_failures(s, keep).len() == 0,
    ensures
        forall|i: int| 0 <= i < keep.len() ==> keep[i],
    decreases s.len(),
{
    if s.len() > 0 {
        assert(keep[keep.len() - 1]);
        lemma_no_drops_means_all_kept(s.drop_last(), keep.drop_last());
        assert forall|i: int| 0 <= i < keep.len() implies keep[i] by {
            if i < keep.len() - 1 {
                assert(keep.drop_last()[i]);
            }
        }
    }
}

/// A flush pass that put no new refusal on record consumed the whole queue
/// with every message accepted: the queue is left empty, the writability
/// flag untouched, and exactly the queued messages join the send path, in
/// their original order. Messages enqueued while the session was not
/// writable thus go out in enqueueing order once it becomes writable and
/// the transport takes them.
pub proof fn lemma_full_flush_sends_in_order(
    pre: SessionView,
    post: SessionView,
    k: int,
    keep: Seq<bool>,
)
    requires
        flush_outcome(pre, post, k, keep),
        post.failures == pre.failures,
    ensures
        post.sent == pre.sent + pre.queue,
        post.queue.len() == 0,
        post.writable == pre.writable,
{
    let n = pre.queue.len() as int;
    if k < n {
        // A stop before the end would have recorded a transient refusal.
        assert(pre.failures.len() == pre.failures.len() + dropped_failures(
            pre.queue.take(k),
            keep,
        ).len() + 1);
    }
    assert(k == n);
    assert(dropped_failures(pre.queue.take(k), keep).len() == 0);
    assert(pre.queue.take(n) =~= pre.queue);
    lemma_no_drops_means_all_kept(pre.queue, keep);
    lemma_mask_filter_all_kept(pre.queue, keep);
}

/// Flushes the session's output queue front to back, stopping at the first
/// transient failure (clearing the cached writability and keeping the
/// remaining messages in order) and dropping any message that fails for a
/// non-transient reason while continuing with the next.
pub fn process_writable<Conn: Connection, Msg: Message, H>(
    session: &mut SessionEntry<Conn, Msg>,
    session_id: SessionId,
    msg_handler: &H,
    client_handle: &ClientHandle<Msg>,
) where H: Fn(&MessageContext<Msg>, Result<Msg, ClientError>) -> Reaction<Msg>
    ensures
        exists|k: int, keep: Seq<bool>|
            flush_outcome(old(session)@, final (session)@, k, keep),
{
    let mut consumed: usize = 0;
    let ghost mut keep: Seq<bool> = Seq::empty();
    let mut blocked = false;
    proof {
        assert(session.sent() =~= old(session).sent() + mask_filter(
            old(session).queue_bytes().take(0),
            keep,
        ));
        assert(session.send_failures() =~= old(session).send_failures() + dropped_failures(
            old(session).queue_bytes().take(0),
            keep,
        ));
    }
    while !blocked && consumed < session.output_queue.len()
        invariant
            consumed <= session.output_queue@.len(),
            session.output_queue@ == old(session).output_queue@,
            keep.len() == consumed as int,
            session.sent() == old(session).sent() + mask_filter(
                old(session).queue_bytes().take(consumed as int),
                keep,
            ),
            if blocked {
                session.send_failures() == old(session).send_failures() + dropped_failures(
                    old(session).queue_bytes().take(consumed as int),
                    keep,
                ) + seq![(old(session).queue_bytes()[consumed as int], true)]
            } else {
                session.send_failures() == old(session).send_failures() + dropped_failures(
                    old(session).queue_bytes().take(consumed as int),
                    keep,
                )
            },
            session.inbox() == old(session).inbox(),
            session.recv_failures() == old(session).recv_failures(),
            session.is_writable == if blocked {
                false
            } else {
                old(session).is_writable
            },
            blocked ==> consumed < session.output_queue@.len(),
        decreases session.output_queue@.len() - consumed + if blocked {
            0int
        } else {
            1int
        },
    {
        let ghost prev = *session;
        let r = session.inner.try_send::<Msg>(&session.output_queue[consumed]);
        match r {
            Ok(()) => {
                consumed = consumed + 1;
                proof {
                    let q = old(session).queue_bytes();
                    let c = consumed as int;
                    let prev_keep = keep;
                    keep = keep.push(true);
                    assert(keep.drop_last() =~= prev_keep);
                    assert(q.take(c).drop_last() =~= q.take(c - 1));
                    assert(q.take(c).last() == q[c - 1]);
                    assert(q[c - 1] == old(session).output_queue@[c - 1].bytes());
                    assert(mask_filter(q.take(c), keep) == mask_filter(q.take(c - 1),
                    prev_keep).push(q[c - 1]));
                    assert(dropped_failures(q.take(c), keep) == dropped_failures(
                        q.take(c - 1),
                        prev_keep,
                    ));
                    assert(session.sent() == prev.sent().push(q[c - 1]));
                    assert(session.sent() =~= old(session).sent() + mask_filter(q.take(c), keep));
                }
            },
            Err(ConnectionError::Transient) => {
                session.is_writable = false;
                blocked = true;
                proof {
                    let q = old(session).queue_bytes();
                    let c = consumed as int;
                    assert(q[c] == old(session).output_queue@[c].bytes());
                    assert(session.send_failures() == prev.send_failures().push((q[c], true)));
                    assert(session.send_failures() =~= old(session).send_failures()
                        + dropped_failures(q.take(c), keep) + seq![(q[c], true)]);
                }
            },
            Err(_) => {
                consumed = consumed + 1;
                proof {
                    let q = old(session).queue_bytes();
                    let c = consumed as int;
                    let prev_keep = keep;
                    keep = keep.push(false);
                    assert(keep.drop_last() =~= prev_keep);
                    assert(q.take(c).drop_last() =~= q.take(c - 1));
                    assert(q.take(c).last() == q[c - 1]);
                    assert(q[c - 1] == old(session).output_queue@[c - 1].bytes());
                    assert(mask_filter(q.take(c), keep) == mask_filter(q.take(c - 1), prev_keep));
                    assert(dropped_failures(q.take(c), keep) == dropped_failures(
                        q.take(c - 1),
                        prev_keep,
                    ).push((q[c - 1], false)));
                    assert(session.sent() == prev.sent());
                    assert(session.sent() =~= old(session).sent() + mask_filter(q.take(c), keep));
                    assert(session.send_failures() =~= old(session).send_failures()
                        + dropped_failures(q.take(c), keep));
                }
            },
        }
    }
    let ghost k: int = consumed as int;
    match buffer::discard_front(&mut session.output_queue, consumed) {
        Ok(()) => {
            proof {
                assert(session.queue_bytes() =~= old(session).queue_bytes().skip(k));
                assert(flush_outcome(old(session)@, (*session)@, k, keep));
            }
        },
        Err(e) => {
            // Unreachable: the loop never consumes more than the queue held.
            proof {
                assert(false);
            }
            let msg_ctx = MessageContext {
                client_handle: client_handle.clone_handle(),
                session_id,
            };
            let reaction = msg_handler(&msg_ctx, Err(ClientError::InternalLogicError(e)));
            process_reaction(session, session_id, reaction);
        },
    }
}

/// The ASCII bytes of the command token that is answered without consulting
/// the user handler.
pub open spec fn ping_command() -> Seq<u8> {
    seq![80u8, 73u8, 78u8, 71u8]
}

/// Whether a command token is exactly the ping command.
fn is_ping(cmd: &[u8]) -> (r: bool)
    ensures
        r == (cmd@ == ping_command()),
{
    if cmd.len() != 4 {
        proof {
            assert(ping_command().len() == 4);
        }
        return false;
    }
    let r = cmd[0] == 80 && cmd[1] == 73 && cmd[2] == 78 && cmd[3] == 71;
    proof {
        if r {
            assert(cmd@ =~= ping_command());
        } else {
            if cmd@ == ping_command() {
                assert(cmd@[0] == 80 && cmd@[1] == 73 && cmd@[2] == 78 && cmd@[3] == 71);
            }
        }
    }
    r
}

/// Routes one received item.
///
/// A decoded message whose command token is exactly the ping command, and
/// whose rewritten bytes the codec accepts, is answered directly: the
/// reaction is exactly the message with only its command rewritten, and the
/// user handler is not consulted. Everything else — any other message, any
/// failure, and a ping whose rewritten bytes the codec rejects — goes to
/// the user handler, whose reaction is returned.
pub fn handle_message<Msg: Message, H>(
    msg_handler: &H,
    msg_ctx: &MessageContext<Msg>,
    msg: Result<Msg, ClientError>,
) -> (r: Reaction<Msg>) where H: Fn(&MessageContext<Msg>, Result<Msg, ClientError>) -> Reaction<
    Msg,
>
    requires
        forall|ctx: &MessageContext<Msg>, m: Result<Msg, ClientError>| #[trigger] call_requires(
            *msg_handler,
            (ctx, m),
        ),
    ensures
        match msg {
            Ok(m) => if m.command() == ping_command() && m.bytes().len() >= 2 {
                if Msg::decodable(pong_bytes(m.bytes())) {
                    r matches Reaction::RawMsg(p) && p.bytes() == pong_bytes(m.bytes())
                } else {
                    exists|e: crate::message::MessageError|
                        call_ensures(
                            *msg_handler,
                            (msg_ctx, Result::<Msg, ClientError>::Err(ClientError::Message(e))),
                            r,
                        )
                }
            } else {
                call_ensures(*msg_handler, (msg_ctx, Result::<Msg, ClientError>::Ok(m)), r)
            },
            Err(e) => call_ensures(
                *msg_handler,
                (msg_ctx, Result::<Msg, ClientError>::Err(e)),
                r,
            ),
        },
{
    match msg {
        Ok(m) => {
            // The rewrite needs at least the two bytes it inspects; a sane
            // codec's ping is always long enough.
            if m.as_bytes().len() >= 2 && is_ping(m.command_bytes()) {
                match pong_from_ping(m) {
                    Ok(pong) => Reaction::RawMsg(pong),
                    Err(err) => (*msg_handler)(msg_ctx, Err(ClientError::Message(err))),
                }
            } else {
                (*msg_handler)(msg_ctx, Ok(m))
            }
        },
        Err(e) => (*msg_handler)(msg_ctx, Err(e)),
    }
}

/// One item a read pass dispatched: a decoded message answered by
/// interception or by the user handler, or a non-transient receive failure
/// handed to the handler. Each carries the reaction that was applied and
/// the transport's answers to that reaction's send attempts.
pub enum DispatchedItem<Msg: Message> {
    /// A decoded message.
    Decoded { msg: Msg, reaction: Reaction<Msg>, ocs: Seq<SendAttemptOutcome> },
    /// A non-transient receive failure: an undecodable line, or a fatal
    /// error.
    Refused { err: ConnectionError, reaction: Reaction<Msg>, ocs: Seq<SendAttemptOutcome> },
}

/// How many received lines one dispatched item consumed: a decoded message
/// or an undecodable line is one consumed line; a fatal failure consumed
/// nothing.
pub open spec fn item_consumes<Msg: Message>(item: DispatchedItem<Msg>) -> int {
    match item {
        DispatchedItem::Decoded { .. } => 1,
        DispatchedItem::Refused { err, .. } => if err is Decode {
            1
        } else {
            0
        },
    }
}

/// How many received lines a read pass's items consumed altogether.
pub open spec fn items_consume<Msg: Message>(items: Seq<DispatchedItem<Msg>>) -> int
    decreases items.len(),
{
    if items.len() == 0 {
        0
    } else {
        items_consume(items.drop_last()) + item_consumes(items.last())
    }
}

/// How many receive attempts one dispatched item stands for that failed
/// outright: exactly the fatal refusals.
pub open spec fn item_recv_fails<Msg: Message>(item: DispatchedItem<Msg>) -> nat {
    match item {
        DispatchedItem::Decoded { .. } => 0,
        DispatchedItem::Refused { err, .. } => if err is Decode {
            0
        } else {
            1
        },
    }
}

/// One dispatched item's effect on the observable state: its consumed line
/// leaves the inbox, a failed receive attempt is counted, then the
/// reaction's send attempts run in order.
pub open spec fn apply_item<Msg: Message>(
    v: SessionView,
    item: DispatchedItem<Msg>,
) -> SessionView {
    let received = SessionView {
        inbox: v.inbox.skip(item_consumes(item)),
        recv_failures: v.recv_failures + item_recv_fails(item),
        ..v
    };
    match item {
        DispatchedItem::Decoded { reaction, ocs, .. } => apply_sends(
            received,
            reaction_msgs(reaction),
            ocs,
        ),
        DispatchedItem::Refused { reaction, ocs, .. } => apply_sends(
            received,
            reaction_msgs(reaction),
            ocs,
        ),
    }
}

/// The effect of a read pass's dispatched items, applied in order.
pub open spec fn apply_items<Msg: Message>(
    v: SessionView,
    items: Seq<DispatchedItem<Msg>>,
) -> SessionView
    decreases items.len(),
{
    if items.len() == 0 {
        v
    } else {
        apply_item(apply_items(v, items.drop_last()), items.last())
    }
}

/// Whether the reaction an item carries is one the dispatch rules allow:
/// the exact pong reply for an interceptable ping, and otherwise whatever
/// the user handler may return for exactly the value the rules hand it — a
/// decoded message, the rewrite's decode failure, or the receive failure.
/// The item's answer sequence matches its reaction's send attempts.
pub open spec fn item_sanctioned<Msg: Message, H>(
    handler: H,
    ctx: MessageContext<Msg>,
    item: DispatchedItem<Msg>,
) -> bool where H: Fn(&MessageContext<Msg>, Result<Msg, ClientError>) -> Reaction<Msg> {
    match item {
        DispatchedItem::Decoded { msg, reaction, ocs } => {
            &&& ocs.len() == reaction_msgs(reaction).len()
            &&& if msg.command() == ping_command() && msg.bytes().len() >= 2 && Msg::decodable(
                pong_bytes(msg.bytes()),
            ) {
                reaction matches Reaction::RawMsg(p) && p.bytes() == pong_bytes(msg.bytes())
            } else if msg.command() == ping_command() && msg.bytes().len() >= 2 {
                exists|e: crate::message::MessageError|
                    call_ensures(
                        handler,
                        (&ctx, Result::<Msg, ClientError>::Err(ClientError::Message(e))),
                        reaction,
                    )
            } else {
                call_ensures(handler, (&ctx, Result::<Msg, ClientError>::Ok(msg)), reaction)
            }
        },
        DispatchedItem::Refused { err, reaction, ocs } => {
            &&& ocs.len() == reaction_msgs(reaction).len()
            &&& !(err is Transient)
            &&& call_ensures(
                handler,
                (&ctx, Result::<Msg, ClientError>::Err(ClientError::Connection(err))),
                reaction,
            )
        },
    }
}

/// Every item of a read pass was sanctioned.
pub open spec fn items_sanctioned<Msg: Message, H>(
    handler: H,
    ctx: MessageContext<Msg>,
    items: Seq<DispatchedItem<Msg>>,
) -> bool where H: Fn(&MessageContext<Msg>, Result<Msg, ClientError>) -> Reaction<Msg> {
    forall|i: int| 0 <= i < items.len() ==> item_sanctioned(handler, ctx, #[trigger] items[i])
}

/// A read pass's consuming items line up with the consumed inbox prefix, in
/// order: each decoded message carries its line's bytes, a line is refused
/// exactly when the codec rejects it, and a fatal failure consumes none.
pub open spec fn items_match_lines<Msg: Message>(
    items: Seq<DispatchedItem<Msg>>,
    lines: Seq<Seq<u8>>,
) -> bool
    decreases items.len(),
{
    if items.len() == 0 {
        lines.len() == 0
    } else {
        let n = items_consume(items.drop_last());
        &&& 0 <= n <= lines.len()
        &&& items_match_lines(items.drop_last(), lines.take(n))
        &&& lines.len() == items_consume(items)
        &&& match items.last() {
            DispatchedItem::Decoded { msg, .. } => msg.bytes() == lines[n] && Msg::decodable(
                lines[n],
            ),
            DispatchedItem::Refused { err, .. } => if err is Decode {
                !Msg::decodable(lines[n])
            } else {
                true
            },
        }
    }
}

/// Receives and dispatches messages until none is ready.
///
/// Each complete message is routed (ping interception first, the user
/// handler otherwise) and the resulting reaction applied to this session; a
/// decode failure is routed to the handler the same way, never dropped.
/// The loop stops when no complete line is buffered, on the peer closing
/// the stream, or on a transient failure; a fatal receive failure is also
/// handed to the handler before the pass ends. The final state is exactly
/// the effect of the dispatched items, applied in arrival order, each
/// sanctioned by the interception rule or by the handler for exactly the
/// value it was handed, and each lined up with the consumed inbox prefix.
pub fn process_readable<Conn: Connection, Msg: Message, H>(
    session: &mut SessionEntry<Conn, Msg>,
    session_id: SessionId,
    msg_handler: &H,
    client_handle: &ClientHandle<Msg>,
) where H: Fn(&MessageContext<Msg>, Result<Msg, ClientError>) -> Reaction<Msg>
    requires
        forall|ctx: &MessageContext<Msg>, m: Result<Msg, ClientError>| #[trigger] call_requires(
            *msg_handler,
            (ctx, m),
        ),
    ensures
        exists|ctx: MessageContext<Msg>, items: Seq<DispatchedItem<Msg>>|
            {
                &&& ctx.session_id == session_id
                &&& ctx.client_handle.client_uuid == client_handle.client_uuid
                &&& #[trigger] items_sanctioned(*msg_handler, ctx, items)
                &&& 0 <= items_consume(items) <= old(session).inbox().len()
                &&& items_match_lines(
                    items,
                    old(session).inbox().take(items_consume(items)),
                )
                &&& final (session)@ == apply_items(old(session)@, items)
            },
        exists|j: int|
            0 <= j <= old(session).inbox().len() && final (session).inbox() == old(
                session,
            ).inbox().skip(j),
        old(session).sent().is_prefix_of(final (session).sent()),
        old(session).queue_bytes().is_prefix_of(final (session).queue_bytes()),
        old(session).send_failures().is_prefix_of(final (session).send_failures()),
        old(session).recv_failures() <= final (session).recv_failures(),
        !old(session).is_writable ==> !final (session).is_writable,
        no_transient_since(old(session).send_failures(), final (session).send_failures())
            ==> final (session).is_writable == old(session).is_writable,
{
    let msg_ctx = MessageContext { client_handle: client_handle.clone_handle(), session_id };
    let ghost gctx = msg_ctx;
    let ghost mut j: int = 0;
    let ghost mut items: Seq<DispatchedItem<Msg>> = Seq::empty();
    proof {
        assert(old(session).inbox().take(0) =~= Seq::<Seq<u8>>::empty());
        assert(items_match_lines(items, old(session).inbox().take(0)));
        assert((*session)@ == apply_items(old(session)@, items));
    }
    loop
        invariant
            0 <= j <= old(session).inbox().len(),
            session.inbox() == old(session).inbox().skip(j),
            items_consume(items) == j,
            items_sanctioned(*msg_handler, gctx, items),
            items_match_lines(items, old(session).inbox().take(j)),
            (*session)@ == apply_items(old(session)@, items),
            gctx == msg_ctx,
            gctx.session_id == session_id,
            gctx.client_handle.client_uuid == client_handle.client_uuid,
            old(session).sent().is_prefix_of(session.sent()),
            old(session).queue_bytes().is_prefix_of(session.queue_bytes()),
            old(session).send_failures().is_prefix_of(session.send_failures()),
            old(session).recv_failures() <= session.recv_failures(),
            !old(session).is_writable ==> !session.is_writable,
            no_transient_since(old(session).send_failures(), session.send_failures())
                ==> session.is_writable == old(session).is_writable,
            forall|ctx: &MessageContext<Msg>, m: Result<Msg, ClientError>|
                #[trigger] call_requires(*msg_handler, (ctx, m)),
        ensures
            0 <= j <= old(session).inbox().len(),
            session.inbox() == old(session).inbox().skip(j),
            items_consume(items) == j,
            items_sanctioned(*msg_handler, gctx, items),
            items_match_lines(items, old(session).inbox().take(j)),
            (*session)@ == apply_items(old(session)@, items),
            gctx == msg_ctx,
            gctx.session_id == session_id,
            gctx.client_handle.client_uuid == client_handle.client_uuid,
            old(session).sent().is_prefix_of(session.sent()),
            old(session).queue_bytes().is_prefix_of(session.queue_bytes()),
            old(session).send_failures().is_prefix_of(session.send_failures()),
            old(session).recv_failures() <= session.recv_failures(),
            !old(session).is_writable ==> !session.is_writable,
            no_transient_since(old(session).send_failures(), session.send_failures())
                ==> session.is_writable == old(session).is_writable,
        decreases old(session).inbox().len() - j,
    {
        let received = session.inner.recv::<Msg>();
        match received {
            Ok(Some(m)) => {
                let ghost gm = m;
                proof {
                    j = j + 1;
                    assert(session.inbox() =~= old(session).inbox().skip(j));
                }
                let reaction = handle_message(msg_handler, &msg_ctx, Ok(m));
                let ghost greaction = reaction;
                let ghost mid = *session;
                process_reaction(session, session_id, reaction);
                proof {
                    lemma_prefix_of_transitive(old(session).sent(), mid.sent(), session.sent());
                    lemma_prefix_of_transitive(
                        old(session).queue_bytes(),
                        mid.queue_bytes(),
                        session.queue_bytes(),
                    );
                    lemma_prefix_of_transitive(
                        old(session).send_failures(),
                        mid.send_failures(),
                        session.send_failures(),
                    );
                    if no_transient_since(old(session).send_failures(), session.send_failures()) {
                        lemma_no_transient_split(
                            old(session).send_failures(),
                            mid.send_failures(),
                            session.send_failures(),
                        );
                    }
                    let ocs_r = choose|o: Seq<SendAttemptOutcome>|
                        o.len() == reaction_msgs(greaction).len() && (*session)@ == apply_sends(
                            mid@,
                            reaction_msgs(greaction),
                            o,
                        );
                    let item = DispatchedItem::Decoded { msg: gm, reaction: greaction, ocs: ocs_r };
                    assert(item_sanctioned(*msg_handler, gctx, item));
                    let prev_items = items;
                    items = items.push(item);
                    assert(items.drop_last() =~= prev_items);
                    assert(items_consume(items) == j);
                    assert(old(session).inbox().take(j).take(j - 1) =~= old(
                        session,
                    ).inbox().take(j - 1));
                    assert(gm.bytes() == old(session).inbox()[j - 1]);
                    assert(old(session).inbox().take(j)[j - 1] == old(session).inbox()[j - 1]);
                    assert(items_match_lines(items, old(session).inbox().take(j)));
                    assert(mid@ =~= SessionView {
                        inbox: apply_items(old(session)@, prev_items).inbox.skip(1),
                        recv_failures: apply_items(old(session)@, prev_items).recv_failures
                            + item_recv_fails(item),
                        ..apply_items(old(session)@, prev_items)
                    });
                    assert((*session)@ == apply_item(apply_items(old(session)@, prev_items), item));
                    assert((*session)@ == apply_items(old(session)@, items));
                }
            },
            Ok(None) => {
                break ;
            },
            Err(e) => {
                if matches!(e, ConnectionError::Transient) {
                    break ;
                }
                let consumed_line = matches!(e, ConnectionError::Decode(_));
                let ghost ge = e;
                proof {
                    if ge is Decode {
                        j = j + 1;
                        assert(session.inbox() =~= old(session).inbox().skip(j));
                    }
                }
                let reaction = handle_message(
                    msg_handler,
                    &msg_ctx,
                    Err(ClientError::Connection(e)),
                );
                let ghost greaction = reaction;
                let ghost mid = *session;
                process_reaction(session, session_id, reaction);
                proof {
                    lemma_prefix_of_transitive(old(session).sent(), mid.sent(), session.sent());
                    lemma_prefix_of_transitive(
                        old(session).queue_bytes(),
                        mid.queue_bytes(),
                        session.queue_bytes(),
                    );
                    lemma_prefix_of_transitive(
                        old(session).send_failures(),
                        mid.send_failures(),
                        session.send_failures(),
                    );
                    if no_transient_since(old(session).send_failures(), session.send_failures()) {
                        lemma_no_transient_split(
                            old(session).send_failures(),
                            mid.send_failures(),
                            session.send_failures(),
                        );
                    }
                    let ocs_r = choose|o: Seq<SendAttemptOutcome>|
                        o.len() == reaction_msgs(greaction).len() && (*session)@ == apply_sends(
                            mid@,
                            reaction_msgs(greaction),
                            o,
                        );
                    let item = DispatchedItem::Refused { err: ge, reaction: greaction, ocs: ocs_r };
                    assert(item_sanctioned(*msg_handler, gctx, item));
                    let prev_items = items;
                    items = items.push(item);
                    assert(items.drop_last() =~= prev_items);
                    assert(items_consume(items) == j);
                    if ge is Decode {
                        assert(old(session).inbox().take(j).take(j - 1) =~= old(
                            session,
                        ).inbox().take(j - 1));
                        assert(old(session).inbox().take(j)[j - 1] == old(session).inbox()[j - 1]);
                    } else {
                        assert(old(session).inbox().take(j).take(j) =~= old(
                            session,
                        ).inbox().take(j));
                    }
                    assert(items_match_lines(items, old(session).inbox().take(j)));
                    assert(mid@ =~= SessionView {
                        inbox: apply_items(old(session)@, prev_items).inbox.skip(
                            item_consumes(item),
                        ),
                        recv_failures: apply_items(old(session)@, prev_items).recv_failures
                            + item_recv_fails(item),
                        ..apply_items(old(session)@, prev_items)
                    });
                    assert((*session)@ == apply_item(apply_items(old(session)@, prev_items), item));
                    assert((*session)@ == apply_items(old(session)@, items));
                }
                if !consumed_line {
                    // The failure consumed nothing, so another attempt now
                    // could only repeat it; the next readiness event retries.
                    break ;
                }
            },
        }
    }
    proof {
        assert(old(session).inbox().take(items_consume(items)) == old(session).inbox().take(j));
    }
}

/// A sequence is a prefix of itself with anything appended.
pub proof fn lemma_prefix_of_concat<T>(a: Seq<T>, b: Seq<T>)
    ensures
        a.is_prefix_of(a + b),
{
    assert(a =~= (a + b).subrange(0, a.len() as int));
}

/// What a multiplexer readiness notification says about one event source.
#[derive(Clone, Copy, Debug, PartialEq, Eq, Structural)]
pub struct Readiness {
    /// The source is ready to be read from.
    pub readable: bool,
    /// The source is ready to be written to.
    pub writable: bool,
}

/// The observable state after the event's writable notification has been
/// folded into the sticky flag, before any send or receive runs.
pub open spec fn event_writable(pre: SessionView, readiness: Readiness) -> SessionView {
    SessionView { writable: pre.writable || readiness.writable, ..pre }
}

/// What one readiness event does to one session: the writable notification
/// is folded into the sticky flag; if the flag then holds, one flush pass
/// runs ([`flush_outcome`]); a readable notification then receives and
/// dispatches, consuming lines in order and only appending to the send
/// path, the queue and the refusal record. The flag is set only by the
/// event's own writable notification, and unless a transient refusal went
/// on record during the event, it ends exactly as "set before, or set by
/// this event".
pub open spec fn session_event_outcome(
    readiness: Readiness,
    pre: SessionView,
    post: SessionView,
) -> bool {
    &&& exists|j: int| 0 <= j <= pre.inbox.len() && post.inbox == pre.inbox.skip(j)
    &&& pre.sent.is_prefix_of(post.sent)
    &&& pre.failures.is_prefix_of(post.failures)
    &&& pre.recv_failures <= post.recv_failures
    &&& (post.writable ==> (pre.writable || readiness.writable))
    &&& (no_transient_since(pre.failures, post.failures) ==> post.writable == (pre.writable
        || readiness.writable))
    &&& if pre.writable || readiness.writable {
        exists|k: int, keep: Seq<bool>, mid: SessionView|
            {
                &&& #[trigger] flush_outcome(event_writable(pre, readiness), mid, k, keep)
                &&& mid.queue.is_prefix_of(post.queue)
                &&& mid.sent.is_prefix_of(post.sent)
                &&& mid.failures.is_prefix_of(post.failures)
                &&& mid.recv_failures <= post.recv_failures
                &&& (!readiness.readable ==> post == mid)
            }
    } else {
        &&& pre.queue.is_prefix_of(post.queue)
        &&& (!readiness.readable ==> post == pre)
    }
}

/// Marking a session writable flushes its queued messages in order: a
/// write-only readiness event whose pass put no new refusal on record
/// appends exactly the queued messages to the send path, in their
/// enqueueing order, and leaves the queue empty.
pub proof fn lemma_event_flushes_in_order(
    readiness: Readiness,
    pre: SessionView,
    post: SessionView,
)
    requires
        session_event_outcome(readiness, pre, post),
        pre.writable || readiness.writable,
        !readiness.readable,
        post.failures == pre.failures,
    ensures
        post.sent == pre.sent + pre.queue,
        post.queue.len() == 0,
{
    let (k, keep, mid) = choose|k: int, keep: Seq<bool>, mid: SessionView|
        {
            &&& #[trigger] flush_outcome(event_writable(pre, readiness), mid, k, keep)
            &&& mid.queue.is_prefix_of(post.queue)
            &&& mid.sent.is_prefix_of(post.sent)
            &&& mid.failures.is_prefix_of(post.failures)
            &&& (!readiness.readable ==> post == mid)
        };
    lemma_full_flush_sends_in_order(event_writable(pre, readiness), mid, k, keep);
}

/// Handles one readiness event for one session: exactly what
/// [`session_event_outcome`] states.
///
/// A writable notification sets the sticky writability flag; while the flag
/// holds, the output queue is flushed in order. A readable notification
/// then receives and dispatches messages.
pub fn process_session_event<Conn: Connection, Msg: Message, H>(
    readiness: Readiness,
    session: &mut SessionEntry<Conn, Msg>,
    session_id: SessionId,
    msg_handler: &H,
    client_handle: &ClientHandle<Msg>,
) where H: Fn(&MessageContext<Msg>, Result<Msg, ClientError>) -> Reaction<Msg>
    requires
        forall|ctx: &MessageContext<Msg>, m: Result<Msg, ClientError>| #[trigger] call_requires(
            *msg_handler,
            (ctx, m),
        ),
    ensures
        session_event_outcome(readiness, old(session)@, final (session)@),
{
    if readiness.writable {
        session.is_writable = true;
    }
    let ghost set_up = *session;
    proof {
        assert(set_up@ =~= event_writable(old(session)@, readiness));
    }
    if session.is_writable {
        let ghost pre = *session;
        process_writable(session, session_id, msg_handler, client_handle);
        proof {
            let (k, keep) = choose|k: int, keep: Seq<bool>|
                flush_outcome(pre@, (*session)@, k, keep);
            lemma_prefix_of_concat(pre.sent(), mask_filter(pre.queue_bytes().take(k), keep));
            if k < pre.queue_bytes().len() {
                let ext = dropped_failures(pre.queue_bytes().take(k), keep) + seq![
                    (pre.queue_bytes()[k], true),
                ];
                assert(session.send_failures() =~= pre.send_failures() + ext);
                lemma_prefix_of_concat(pre.send_failures(), ext);
                // The stop left a transient refusal on record.
                assert(session.send_failures()[session.send_failures().len() - 1].1 == true);
            } else {
                lemma_prefix_of_concat(
                    pre.send_failures(),
                    dropped_failures(pre.queue_bytes().take(k), keep),
                );
            }
            assert(flush_outcome(event_writable(old(session)@, readiness), (*session)@, k, keep));
            assert(set_up.send_failures().is_prefix_of(session.send_failures()));
            assert(session.is_writable ==> set_up.is_writable);
            assert(no_transient_since(set_up.send_failures(), session.send_failures())
                ==> session.is_writable == set_up.is_writable);
        }
    }
    let ghost mid = *session;
    proof {
        assert(mid.inbox() =~= old(session).inbox().skip(0));
        assert(set_up.send_failures().is_prefix_of(mid.send_failures()));
        assert(no_transient_since(set_up.send_failures(), mid.send_failures())
            ==> mid.is_writable == set_up.is_writable);
    }
    if readiness.readable {
        process_readable(session, session_id, msg_handler, client_handle);
        proof {
            let j = choose|j: int|
                0 <= j <= mid.inbox().len() && session.inbox() == mid.inbox().skip(j);
            assert(session.inbox() =~= old(session).inbox().skip(j));
            lemma_prefix_of_transitive(old(session).sent(), mid.sent(), session.sent());
            lemma_prefix_of_transitive(
                set_up.send_failures(),
                mid.send_failures(),
                session.send_failures(),
            );
            if no_transient_since(set_up.send_failures(), session.send_failures()) {
                lemma_no_transient_split(
                    set_up.send_failures(),
                    mid.send_failures(),
                    session.send_failures(),
                );
            }
        }
    }
    proof {
        if !(old(session)@.writable || readiness.writable) {
            assert(old(session)@.queue.is_prefix_of((*session)@.queue));
            if !readiness.readable {
                assert((*session)@ =~= old(session)@);
            }
        }
    }
}

/// Each session in `post` continues the matching session in `pre`: nothing
/// was received behind the reactor's back, and the send path, output queue
/// and refusal record only grew at their ends.
pub open spec fn sessions_monotone<Conn: Connection, Msg: Message>(
    pre: Seq<SessionEntry<Conn, Msg>>,
    post: Seq<SessionEntry<Conn, Msg>>,
) -> bool {
    &&& post.len() == pre.len()
    &&& forall|i: int|
        0 <= i < pre.len() ==> {
            &&& (#[trigger] post[i]).inbox() == pre[i].inbox()
            &&& post[i].recv_failures() == pre[i].recv_failures()
            &&& pre[i].sent().is_prefix_of(post[i].sent())
            &&& pre[i].queue_bytes().is_prefix_of(post[i].queue_bytes())
            &&& pre[i].send_failures().is_prefix_of(post[i].send_failures())
        }
}

/// Session continuation chains.
pub proof fn lemma_sessions_monotone_transitive<Conn: Connection, Msg: Message>(
    a: Seq<SessionEntry<Conn, Msg>>,
    b: Seq<SessionEntry<Conn, Msg>>,
    c: Seq<SessionEntry<Conn, Msg>>,
)
    requires
        sessions_monotone(a, b),
        sessions_monotone(b, c),
    ensures
        sessions_monotone(a, c),
{
    assert forall|i: int| 0 <= i < a.len() implies {
        &&& (#[trigger] c[i]).inbox() == a[i].inbox()
        &&& c[i].recv_failures() == a[i].recv_failures()
        &&& a[i].sent().is_prefix_of(c[i].sent())
        &&& a[i].queue_bytes().is_prefix_of(c[i].queue_bytes())
        &&& a[i].send_failures().is_prefix_of(c[i].send_failures())
    } by {
        lemma_prefix_of_transitive(a[i].sent(), b[i].sent(), c[i].sent());
        lemma_prefix_of_transitive(a[i].queue_bytes(), b[i].queue_bytes(), c[i].queue_bytes());
        lemma_prefix_of_transitive(a[i].send_failures(), b[i].send_failures(), c[i].send_failures());
    }
}

/// The reactor: owns the session table, the queue's receiving end, the
/// control-channel registration, and the handle prototype from which all
/// cross-thread handles are cloned.
///
/// The embedding program drives it: register every session's transport
/// (under the token of its session context) and the control registration
/// (under the control-channel token) with a multiplexer, wait, and hand
/// each event to [`ThinClient::process_mio_event`]. There is no supported
/// way to stop a running reactor from outside.
#[verifier::reject_recursive_types(Msg)]
pub struct ThinClient<Conn: Connection, Msg: Message> {
    /// The identity token that ties handles and session ids to this
    /// reactor.
    pub uuid: u128,
    /// The session table; indices are stable, sessions are never removed.
    pub sessions: Vec<SessionEntry<Conn, Msg>>,
    /// The receiving end of the cross-thread action queue.
    pub mpsc_receiver: Receiver<Action<Msg>>,
    /// The event-source registration paired with the handles' wake setter.
    pub mpsc_registration: mio::Registration,
    /// The handle all cross-thread handles are cloned from.
    pub handle_prototype: ClientHandle<Msg>,
}

impl<Conn: Connection, Msg: Message> ThinClient<Conn, Msg> {
    /// The handle prototype carries this reactor's own identity token.
    pub open spec fn wf(&self) -> bool {
        self.handle_prototype.client_uuid == self.uuid
    }

    /// A fresh reactor with no sessions and a newly drawn identity token.
    pub fn new() -> (r: ThinClient<Conn, Msg>)
        ensures
            r.wf(),
            r.sessions@.len() == 0,
    {
        let uuid = new_client_uuid();
        let (mpsc_sender, mpsc_receiver) = control::new_action_queue(MPSC_QUEUE_SIZE_LIMIT);
        let (mpsc_registration, readiness_setter) = control::new_wake_registration();
        let handle_prototype = ClientHandle { client_uuid: uuid, mpsc_sender, readiness_setter };
        ThinClient { uuid, sessions: Vec::new(), mpsc_receiver, mpsc_registration, handle_prototype }
    }

    /// A cross-thread handle to this reactor.
    pub fn handle(&self) -> (r: ClientHandle<Msg>)
        ensures
            r.client_uuid == self.handle_prototype.client_uuid,
    {
        self.handle_prototype.clone_handle()
    }

    /// The session id for a table index, provided the index fits the token
    /// space.
    pub fn mk_session_id(&self, session_index: usize) -> (r: Result<SessionId, ClientError>)
        ensures
            match r {
                Ok(id) => session_index + 1 < usize::MAX && id == (SessionId {
                    index: session_index,
                    client_uuid: self.uuid,
                }),
                Err(e) => session_index + 1 >= usize::MAX && (e matches
                ClientError::TooManySessions),
            },
    {
        let id = SessionId { index: session_index, client_uuid: self.uuid };
        match EventContextId::Session(id).as_mio_token() {
            Ok(_) => Ok(id),
            Err(e) => Err(e),
        }
    }

    /// The context a multiplexer token maps back to, for this reactor: the
    /// exact inverse of the registration mapping on every representable
    /// token.
    pub fn mk_event_ctx_id_from_mio_token(&self, token: mio::Token) -> (r: EventContextId)
        ensures
            r == ctx_of_token_number(self.uuid, token.0),
    {
        let n = token.0;
        if n == 0 {
            EventContextId::MpscQueue
        } else {
            EventContextId::Session(SessionId { index: n - 1, client_uuid: self.uuid })
        }
    }

    /// Appends a session to the table and issues its id.
    ///
    /// Fails with the capacity error, touching nothing, on exactly the
    /// first add whose index would no longer fit the token space; earlier
    /// sessions are unaffected. A conversion failure (a builder whose
    /// handshake fails) also leaves the table untouched, and is never
    /// reported as the capacity error. Adding a session whose conversion
    /// cannot fail — a ready `Session` — succeeds whenever there is room.
    pub fn add_session<Sess: TryIntoSession<Conn>>(&mut self, session: Sess) -> (r: Result<
        SessionId,
        ClientError,
    >)
        ensures
            final (self).uuid == old(self).uuid,
            final (self).handle_prototype == old(self).handle_prototype,
            (old(self).sessions@.len() + 1 >= usize::MAX) <==> (r matches Err(
                ClientError::TooManySessions,
            )),
            old(self).sessions@.len() + 1 >= usize::MAX ==> final (self).sessions@ == old(
                self,
            ).sessions@,
            (old(self).sessions@.len() + 1 < usize::MAX && session.conversion_total()) ==> r is Ok,
            match r {
                Ok(id) => {
                    &&& id.index == old(self).sessions@.len()
                    &&& id.client_uuid == old(self).uuid
                    &&& final (self).sessions@.len() == old(self).sessions@.len() + 1
                    &&& forall|i: int|
                        0 <= i < old(self).sessions@.len() ==> final (self).sessions@[i] == old(
                            self,
                        ).sessions@[i]
                    &&& final (self).sessions@[id.index as int].output_queue@.len() == 0
                    &&& !final (self).sessions@[id.index as int].is_writable
                },
                Err(_) => final (self).sessions@ == old(self).sessions@,
            },
    {
        let index = self.sessions.len();
        let id = match self.mk_session_id(index) {
            Ok(id) => id,
            Err(e) => {
                return Err(e);
            },
        };
        let inner = match session.try_into_session::<Msg>() {
            Ok(s) => s,
            Err(e) => {
                return Err(e);
            },
        };
        self.sessions.push(SessionEntry { inner, output_queue: Vec::new(), is_writable: false });
        Ok(id)
    }
}

/// Delivers one cross-thread action: the named session gets one direct send
/// attempt, queueing on transient failure. An action naming a session this
/// reactor does not have is ignored.
pub fn process_action<Conn: Connection, Msg: Message>(
    client: &mut ThinClient<Conn, Msg>,
    action: Action<Msg>,
)
    ensures
        final (client).uuid == old(client).uuid,
        final (client).handle_prototype == old(client).handle_prototype,
        sessions_monotone(old(client).sessions@, final (client).sessions@),
        action matches Action::RawMsg { session_id, message } ==> if 0 <= session_id.index
            < old(client).sessions@.len() {
            (exists|r2: Result<(), ConnectionError>|
                SessionEntry::send_outcome(
                    old(client).sessions@[session_id.index as int],
                    final (client).sessions@[session_id.index as int],
                    message.bytes(),
                    r2,
                )) && forall|i: int|
                0 <= i < old(client).sessions@.len() && i != session_id.index
                    ==> final (client).sessions@[i] == old(client).sessions@[i]
        } else {
            final (client).sessions@ == old(client).sessions@
        },
{
    match action {
        Action::RawMsg { session_id, message } => {
            if session_id.index < client.sessions.len() {
                let entry = &mut client.sessions[session_id.index];
                let send_result = entry.send(session_id, &message);
                proof {
                    let i = session_id.index as int;
                    assert(SessionEntry::send_outcome(
                        old(client).sessions@[i],
                        client.sessions@[i],
                        message.bytes(),
                        send_result,
                    ));
                    assert(old(client).sessions@[i].sent().is_prefix_of(
                        client.sessions@[i].sent(),
                    ));
                    assert(old(client).sessions@[i].queue_bytes().is_prefix_of(
                        client.sessions@[i].queue_bytes(),
                    ));
                }
            }
        },
    }
}

/// Drains the cross-thread queue without blocking and delivers each action
/// in turn, oldest first.
///
/// One pass takes at most the queue's capacity bound; if that many actions
/// were taken, the wake flag is set again so a further pass follows the
/// next wait.
pub fn process_mpsc_queue<Conn: Connection, Msg: Message>(client: &mut ThinClient<Conn, Msg>)
    ensures
        final (client).uuid == old(client).uuid,
        final (client).handle_prototype == old(client).handle_prototype,
        sessions_monotone(old(client).sessions@, final (client).sessions@),
{
    let mut drained: usize = 0;
    while drained < MPSC_QUEUE_SIZE_LIMIT
        invariant
            client.uuid == old(client).uuid,
            client.handle_prototype == old(client).handle_prototype,
            sessions_monotone(old(client).sessions@, client.sessions@),
        ensures
            client.uuid == old(client).uuid,
            client.handle_prototype == old(client).handle_prototype,
            sessions_monotone(old(client).sessions@, client.sessions@),
        decreases MPSC_QUEUE_SIZE_LIMIT - drained,
    {
        let next = control::try_recv_action(&client.mpsc_receiver);
        match next {
            Some(action) => {
                let ghost mid = client.sessions@;
                process_action(client, action);
                proof {
                    lemma_sessions_monotone_transitive(
                        old(client).sessions@,
                        mid,
                        client.sessions@,
                    );
                }
            },
            None => {
                return ;
            },
        }
        drained = drained + 1;
    }
    // The pass hit its bound with the queue possibly non-empty: set the
    // wake flag again so the next wait returns at once.
    let _ = control::set_ready_readable(&client.handle_prototype.readiness_setter);
}

impl<Conn: Connection, Msg: Message> ThinClient<Conn, Msg> {
    /// Dispatches one readiness event, the step the embedding program's
    /// wait loop runs for every event it receives.
    ///
    /// The event's token is mapped back to its context — the exact inverse
    /// of the registration mapping. A control-channel event drains the
    /// action queue; a session event updates that session's writability,
    /// flushes, and reads. An event whose token names no session of this
    /// reactor is ignored.
    pub fn process_mio_event<H>(
        &mut self,
        token: mio::Token,
        readiness: Readiness,
        msg_handler: &H,
    ) where H: Fn(&MessageContext<Msg>, Result<Msg, ClientError>) -> Reaction<Msg>
        requires
            forall|ctx: &MessageContext<Msg>, m: Result<Msg, ClientError>|
                #[trigger] call_requires(*msg_handler, (ctx, m)),
        ensures
            final (self).uuid == old(self).uuid,
            final (self).handle_prototype == old(self).handle_prototype,
            final (self).sessions@.len() == old(self).sessions@.len(),
            match ctx_of_token_number(old(self).uuid, token.0) {
                EventContextId::MpscQueue => sessions_monotone(
                    old(self).sessions@,
                    final (self).sessions@,
                ),
                EventContextId::Session(id) => {
                    &&& forall|i: int|
                        0 <= i < old(self).sessions@.len() && i != id.index
                            ==> final (self).sessions@[i] == old(self).sessions@[i]
                    &&& id.index < old(self).sessions@.len() ==> session_event_outcome(
                        readiness,
                        old(self).sessions@[id.index as int]@,
                        final (self).sessions@[id.index as int]@,
                    )
                    &&& id.index >= old(self).sessions@.len() ==> final (self).sessions@ == old(
                        self,
                    ).sessions@
                },
            },
    {
        match self.mk_event_ctx_id_from_mio_token(token) {
            EventContextId::MpscQueue => process_mpsc_queue(self),
            EventContextId::Session(session_id) => {
                if session_id.index < self.sessions.len() {
                    let entry = &mut self.sessions[session_id.index];
                    process_session_event(
                        readiness,
                        entry,
                        session_id,
                        msg_handler,
                        &self.handle_prototype,
                    );
                }
            },
        }
    }
}

} // verus!
