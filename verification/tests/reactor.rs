use std::cell::Cell;
use std::collections::VecDeque;

use yak_irc::client::Action;
use yak_irc::client::ClientError;
use yak_irc::client::MessageContext;
use yak_irc::client::Reaction;
use yak_irc::client::SessionId;
use yak_irc::connection::recv_common;
use yak_irc::connection::split_first_line;
use yak_irc::connection::try_send_common;
use yak_irc::connection::Connection;
use yak_irc::connection::ConnectionError;
use yak_irc::connection::ConnectionState;
use yak_irc::connection::ReceiveMessage;
use yak_irc::connection::SendMessage;
use yak_irc::irc::pong_from_ping;
use yak_irc::message::Message;
use yak_irc::message::MessageError;
use yak_irc::session::build;
use yak_irc::session::Session;
use yak_irc::thin::handle_message;
use yak_irc::thin::process_action;
use yak_irc::thin::process_mpsc_queue;
use yak_irc::thin::process_session_event;
use yak_irc::thin::process_writable;
use yak_irc::thin::EventContextId;
use yak_irc::thin::Readiness;
use yak_irc::thin::SessionEntry;
use yak_irc::thin::ThinClient;

/// A codec for tests: any byte sequence is a message; the command token is
/// the first space-separated word, except that a line starting with 0xFF is
/// rejected as malformed.
#[derive(Clone, Debug, PartialEq)]
struct TestMsg {
    bytes: Vec<u8>,
}

impl TestMsg {
    fn of(s: &str) -> TestMsg {
        TestMsg { bytes: s.as_bytes().to_vec() }
    }
}

impl Message for TestMsg {
    fn try_from(bytes: Vec<u8>) -> Result<TestMsg, MessageError> {
        if bytes.first() == Some(&0xFF) {
            return Err(MessageError::Malformed);
        }
        Ok(TestMsg { bytes })
    }

    fn as_bytes(&self) -> &[u8] {
        &self.bytes
    }

    fn command_bytes(&self) -> &[u8] {
        let end = self.bytes.iter().position(|&b| b == b' ').unwrap_or(self.bytes.len());
        &self.bytes[..end]
    }

    fn dup(&self) -> TestMsg {
        self.clone()
    }
}

/// How one send attempt on a [`TestConn`] behaves.
enum SendBehavior {
    Accept,
    Transient,
    Fatal,
}

/// An in-memory transport: sends follow a script (accepting once the script
/// runs out) and receives pop prepared lines.
struct TestConn {
    script: VecDeque<SendBehavior>,
    sent: Vec<Vec<u8>>,
    inbox: VecDeque<Vec<u8>>,
}

impl TestConn {
    fn new() -> TestConn {
        TestConn { script: VecDeque::new(), sent: Vec::new(), inbox: VecDeque::new() }
    }
}

impl ConnectionState for TestConn {}

impl SendMessage for TestConn {
    fn try_send<Msg: Message>(&mut self, msg: &Msg) -> Result<(), ConnectionError> {
        match self.script.pop_front().unwrap_or(SendBehavior::Accept) {
            SendBehavior::Accept => {
                self.sent.push(msg.as_bytes().to_vec());
                Ok(())
            }
            SendBehavior::Transient => Err(ConnectionError::Transient),
            SendBehavior::Fatal => Err(ConnectionError::Fatal),
        }
    }
}

impl ReceiveMessage for TestConn {
    fn recv<Msg: Message>(&mut self) -> Result<Option<Msg>, ConnectionError> {
        match self.inbox.pop_front() {
            None => Ok(None),
            Some(line) => match Msg::try_from(line) {
                Ok(m) => Ok(Some(m)),
                Err(e) => Err(ConnectionError::Decode(e)),
            },
        }
    }
}

impl Connection for TestConn {}

fn entry_with(conn: TestConn) -> SessionEntry<TestConn, TestMsg> {
    SessionEntry {
        inner: Session {
            connection: conn,
            nickname: b"nick".to_vec(),
            username: b"nick".to_vec(),
            realname: b"real".to_vec(),
        },
        output_queue: Vec::new(),
        is_writable: false,
    }
}

fn no_handler(_ctx: &MessageContext<TestMsg>, _msg: Result<TestMsg, ClientError>) -> Reaction<TestMsg> {
    panic!("the user handler must not be consulted here");
}

#[test]
fn token_of_control_channel_is_zero() {
    let ctx = EventContextId::MpscQueue;
    let token = ctx.as_mio_token().unwrap();
    assert_eq!(token, mio::Token(0));
}

#[test]
fn token_of_session_is_biased_index() {
    let id = SessionId { index: 4, client_uuid: 9 };
    let token = EventContextId::Session(id).as_mio_token().unwrap();
    assert_eq!(token, mio::Token(5));
}

#[test]
fn token_round_trip_through_context() {
    let client: ThinClient<TestConn, TestMsg> = ThinClient::new();
    for n in [0usize, 1, 2, 77, 4096] {
        let ctx = client.mk_event_ctx_id_from_mio_token(mio::Token(n));
        assert_eq!(ctx.as_mio_token().unwrap(), mio::Token(n));
    }
}

#[test]
fn control_and_session_tokens_distinct() {
    let uuid = 3u128;
    let t0 = EventContextId::MpscQueue.as_mio_token().unwrap();
    let mut seen = vec![t0];
    for index in [0usize, 1, 2, 3, 100] {
        let t = EventContextId::Session(SessionId { index, client_uuid: uuid })
            .as_mio_token()
            .unwrap();
        assert!(!seen.contains(&t));
        seen.push(t);
    }
}

#[test]
fn unconvertible_session_index_fails() {
    let uuid = 3u128;
    let sentinel = EventContextId::Session(SessionId { index: usize::MAX - 1, client_uuid: uuid });
    assert!(matches!(sentinel.as_mio_token(), Err(ClientError::TooManySessions)));
    let overflow = EventContextId::Session(SessionId { index: usize::MAX, client_uuid: uuid });
    assert!(matches!(overflow.as_mio_token(), Err(ClientError::TooManySessions)));
}

#[test]
fn session_id_space_exhaustion_reported() {
    let client: ThinClient<TestConn, TestMsg> = ThinClient::new();
    assert!(matches!(
        client.mk_session_id(usize::MAX - 1),
        Err(ClientError::TooManySessions)
    ));
    let id = client.mk_session_id(7).unwrap();
    assert_eq!(id, SessionId { index: 7, client_uuid: client.uuid });
}

#[test]
fn frame_appends_line_terminator() {
    let msg = TestMsg::of("PRIVMSG #chan :hello");
    let wire = try_send_common(&msg).unwrap();
    assert_eq!(wire, b"PRIVMSG #chan :hello\r\n".to_vec());
}

#[test]
fn frame_rejects_overlong_message() {
    let msg = TestMsg { bytes: vec![b'a'; 1023] };
    match try_send_common(&msg) {
        Err(ConnectionError::MessageTooLong(b)) => assert_eq!(b, vec![b'a'; 1023]),
        other => panic!("expected the too-long rejection, got {:?}", other.map(|_| ())),
    }
    let just_fits = TestMsg { bytes: vec![b'a'; 1022] };
    assert_eq!(try_send_common(&just_fits).unwrap().len(), 1024);
}

#[test]
fn split_first_line_examples() {
    let (line, rest) = split_first_line(b"PING :x\r\nNEXT".to_vec());
    assert_eq!(line.unwrap(), b"PING :x\r\n".to_vec());
    assert_eq!(rest, b"NEXT".to_vec());

    let (no_line, rest) = split_first_line(b"PARTIAL".to_vec());
    assert!(no_line.is_none());
    assert_eq!(rest, b"PARTIAL".to_vec());

    let (bare, rest) = split_first_line(b"\nA".to_vec());
    assert_eq!(bare.unwrap(), b"\n".to_vec());
    assert_eq!(rest, b"A".to_vec());
}

#[test]
fn recv_strips_terminators() {
    let got: Option<TestMsg> = recv_common(b"PING :x\r\n".to_vec()).unwrap();
    assert_eq!(got.unwrap(), TestMsg::of("PING :x"));
    let bare: Option<TestMsg> = recv_common(b"abc\n\r\n".to_vec()).unwrap();
    assert_eq!(bare.unwrap(), TestMsg::of("abc"));
}

#[test]
fn recv_empty_read_is_no_message() {
    let got: Result<Option<TestMsg>, ConnectionError> = recv_common(Vec::new());
    assert!(matches!(got, Ok(None)));
}

#[test]
fn recv_surfaces_decode_failure() {
    let got: Result<Option<TestMsg>, ConnectionError> = recv_common(vec![0xFF, b'x', b'\n']);
    assert!(matches!(
        got,
        Err(ConnectionError::Decode(MessageError::Malformed))
    ));
}

#[test]
fn text_views_of_a_message() {
    let msg = TestMsg::of("PING :x");
    assert_eq!(msg.as_str(), None);
    assert_eq!(msg.to_str().unwrap(), "PING :x");
    assert_eq!(msg.to_str_lossy(), "PING :x");
    let bad = TestMsg { bytes: vec![b'a', 0xC0, b'b'] };
    assert!(matches!(bad.to_str(), Err(MessageError::NotUtf8)));
    assert_eq!(bad.to_str_lossy(), "a\u{FFFD}b");
}

#[test]
fn pong_rewrites_only_the_command() {
    let pong = pong_from_ping(TestMsg::of("PING :server")).unwrap();
    assert_eq!(pong, TestMsg::of("PONG :server"));
}

#[test]
fn ping_answered_without_handler() {
    let client: ThinClient<TestConn, TestMsg> = ThinClient::new();
    let ctx = MessageContext {
        client_handle: client.handle(),
        session_id: SessionId { index: 0, client_uuid: client.uuid },
    };
    let reaction = handle_message(&no_handler, &ctx, Ok(TestMsg::of("PING :server")));
    match reaction {
        Reaction::RawMsg(m) => assert_eq!(m, TestMsg::of("PONG :server")),
        _ => panic!("expected a direct reply"),
    }
}

#[test]
fn non_ping_goes_to_handler() {
    let client: ThinClient<TestConn, TestMsg> = ThinClient::new();
    let ctx = MessageContext {
        client_handle: client.handle(),
        session_id: SessionId { index: 0, client_uuid: client.uuid },
    };
    let calls = Cell::new(0usize);
    let handler = |_ctx: &MessageContext<TestMsg>, msg: Result<TestMsg, ClientError>| {
        calls.set(calls.get() + 1);
        assert_eq!(msg.unwrap(), TestMsg::of("PINGX"));
        Reaction::Nothing
    };
    let reaction = handle_message(&handler, &ctx, Ok(TestMsg::of("PINGX")));
    assert!(matches!(reaction, Reaction::Nothing));
    assert_eq!(calls.get(), 1);
}

#[test]
fn queued_messages_flush_in_order() {
    let mut conn = TestConn::new();
    conn.script.push_back(SendBehavior::Transient);
    conn.script.push_back(SendBehavior::Transient);
    conn.script.push_back(SendBehavior::Transient);
    let mut entry = entry_with(conn);
    let id = SessionId { index: 0, client_uuid: 1 };
    let a = TestMsg::of("a");
    let b = TestMsg::of("b");
    let c = TestMsg::of("c");
    assert!(entry.send(id, &a).is_err());
    assert!(entry.send(id, &b).is_err());
    assert!(entry.send(id, &c).is_err());
    assert!(!entry.is_writable);
    assert_eq!(entry.output_queue.len(), 3);
    assert_eq!(entry.inner.connection.sent.len(), 0);

    let client: ThinClient<TestConn, TestMsg> = ThinClient::new();
    let handle = client.handle();
    entry.is_writable = true;
    process_writable(&mut entry, id, &no_handler, &handle);
    assert_eq!(
        entry.inner.connection.sent,
        vec![b"a".to_vec(), b"b".to_vec(), b"c".to_vec()]
    );
    assert_eq!(entry.output_queue.len(), 0);
    assert!(entry.is_writable);
}

#[test]
fn flush_of_empty_queue_is_a_no_op() {
    let mut entry = entry_with(TestConn::new());
    entry.is_writable = true;
    let id = SessionId { index: 0, client_uuid: 1 };
    let client: ThinClient<TestConn, TestMsg> = ThinClient::new();
    let handle = client.handle();
    process_writable(&mut entry, id, &no_handler, &handle);
    assert_eq!(entry.inner.connection.sent.len(), 0);
    assert!(entry.is_writable);
}

#[test]
fn flush_pauses_at_transient_and_keeps_order() {
    let mut conn = TestConn::new();
    conn.script.push_back(SendBehavior::Accept);
    conn.script.push_back(SendBehavior::Transient);
    let mut entry = entry_with(conn);
    entry.output_queue = vec![TestMsg::of("a"), TestMsg::of("b"), TestMsg::of("c")];
    entry.is_writable = true;
    let id = SessionId { index: 0, client_uuid: 1 };
    let client: ThinClient<TestConn, TestMsg> = ThinClient::new();
    let handle = client.handle();
    process_writable(&mut entry, id, &no_handler, &handle);
    assert_eq!(entry.inner.connection.sent, vec![b"a".to_vec()]);
    assert_eq!(
        entry.output_queue,
        vec![TestMsg::of("b"), TestMsg::of("c")]
    );
    assert!(!entry.is_writable);
}

#[test]
fn flush_drops_fatally_failed_message_and_continues() {
    let mut conn = TestConn::new();
    conn.script.push_back(SendBehavior::Accept);
    conn.script.push_back(SendBehavior::Fatal);
    let mut entry = entry_with(conn);
    entry.output_queue = vec![TestMsg::of("a"), TestMsg::of("b"), TestMsg::of("c")];
    entry.is_writable = true;
    let id = SessionId { index: 0, client_uuid: 1 };
    let client: ThinClient<TestConn, TestMsg> = ThinClient::new();
    let handle = client.handle();
    process_writable(&mut entry, id, &no_handler, &handle);
    assert_eq!(
        entry.inner.connection.sent,
        vec![b"a".to_vec(), b"c".to_vec()]
    );
    assert_eq!(entry.output_queue.len(), 0);
    assert!(entry.is_writable);
}

#[test]
fn send_outcomes() {
    let id = SessionId { index: 0, client_uuid: 1 };
    let mut entry = entry_with(TestConn::new());
    assert!(entry.send(id, &TestMsg::of("ok")).is_ok());
    assert_eq!(entry.inner.connection.sent, vec![b"ok".to_vec()]);
    assert_eq!(entry.output_queue.len(), 0);

    let mut conn = TestConn::new();
    conn.script.push_back(SendBehavior::Fatal);
    let mut entry = entry_with(conn);
    assert!(matches!(
        entry.send(id, &TestMsg::of("gone")),
        Err(ConnectionError::Fatal)
    ));
    assert_eq!(entry.inner.connection.sent.len(), 0);
    assert_eq!(entry.output_queue.len(), 0);
}

#[test]
fn readable_intercepts_ping_and_dispatches_rest() {
    let mut conn = TestConn::new();
    conn.inbox.push_back(b"PING :irc.example".to_vec());
    conn.inbox.push_back(b"PRIVMSG #chan :hi".to_vec());
    let mut entry = entry_with(conn);
    entry.is_writable = true;
    let id = SessionId { index: 0, client_uuid: 1 };
    let client: ThinClient<TestConn, TestMsg> = ThinClient::new();
    let handle = client.handle();
    let handled = Cell::new(0usize);
    let handler = |_ctx: &MessageContext<TestMsg>, msg: Result<TestMsg, ClientError>| {
        handled.set(handled.get() + 1);
        assert_eq!(msg.unwrap(), TestMsg::of("PRIVMSG #chan :hi"));
        Reaction::RawMsg(TestMsg::of("NOTICE #chan :hello"))
    };
    process_session_event(
        Readiness { readable: true, writable: false },
        &mut entry,
        id,
        &handler,
        &handle,
    );
    assert_eq!(handled.get(), 1);
    assert_eq!(
        entry.inner.connection.sent,
        vec![b"PONG :irc.example".to_vec(), b"NOTICE #chan :hello".to_vec()]
    );
}

#[test]
fn decode_failure_surfaces_to_handler() {
    let mut conn = TestConn::new();
    conn.inbox.push_back(vec![0xFF, b'?']);
    conn.inbox.push_back(b"PING :x".to_vec());
    let mut entry = entry_with(conn);
    entry.is_writable = true;
    let id = SessionId { index: 0, client_uuid: 1 };
    let client: ThinClient<TestConn, TestMsg> = ThinClient::new();
    let handle = client.handle();
    let failures = Cell::new(0usize);
    let handler = |_ctx: &MessageContext<TestMsg>, msg: Result<TestMsg, ClientError>| {
        assert!(matches!(
            msg,
            Err(ClientError::Connection(ConnectionError::Decode(MessageError::Malformed)))
        ));
        failures.set(failures.get() + 1);
        Reaction::Nothing
    };
    process_session_event(
        Readiness { readable: true, writable: false },
        &mut entry,
        id,
        &handler,
        &handle,
    );
    assert_eq!(failures.get(), 1);
    // The bad line was consumed; the ping after it was still answered.
    assert_eq!(entry.inner.connection.sent, vec![b"PONG :x".to_vec()]);
}

#[test]
fn compound_reactions_apply_in_order() {
    let mut conn = TestConn::new();
    conn.inbox.push_back(b"HELLO".to_vec());
    let mut entry = entry_with(conn);
    entry.is_writable = true;
    let id = SessionId { index: 0, client_uuid: 1 };
    let client: ThinClient<TestConn, TestMsg> = ThinClient::new();
    let handle = client.handle();
    let handler = |_ctx: &MessageContext<TestMsg>, _msg: Result<TestMsg, ClientError>| {
        Reaction::Multi(vec![
            Reaction::RawMsg(TestMsg::of("one")),
            Reaction::Nothing,
            Reaction::Multi(vec![Reaction::RawMsg(TestMsg::of("two"))]),
            Reaction::RawMsg(TestMsg::of("three")),
        ])
    };
    process_session_event(
        Readiness { readable: true, writable: false },
        &mut entry,
        id,
        &handler,
        &handle,
    );
    assert_eq!(
        entry.inner.connection.sent,
        vec![b"one".to_vec(), b"two".to_vec(), b"three".to_vec()]
    );
}

#[test]
fn try_send_from_wrong_client_fails_and_leaves_queues_alone() {
    let mut client_a: ThinClient<TestConn, TestMsg> = ThinClient::new();
    let mut client_b: ThinClient<TestConn, TestMsg> = ThinClient::new();
    let id_b = client_b
        .add_session(Session {
            connection: TestConn::new(),
            nickname: b"n".to_vec(),
            username: b"n".to_vec(),
            realname: b"r".to_vec(),
        })
        .unwrap();
    let mut handle_a = client_a.handle();
    match handle_a.try_send(id_b, TestMsg::of("misdirected")) {
        Err(ClientError::SessionIdFromWrongClient(s)) => assert_eq!(s, id_b),
        other => panic!("expected the identity-mismatch error, got {:?}", other),
    }
    // Nothing was queued on either reactor.
    process_mpsc_queue(&mut client_a);
    process_mpsc_queue(&mut client_b);
    assert_eq!(client_b.sessions[0].output_queue.len(), 0);
    assert_eq!(client_b.sessions[0].inner.connection.sent.len(), 0);
}

#[test]
fn try_send_to_own_client_delivers() {
    let mut client: ThinClient<TestConn, TestMsg> = ThinClient::new();
    let id = client
        .add_session(Session {
            connection: TestConn::new(),
            nickname: b"n".to_vec(),
            username: b"n".to_vec(),
            realname: b"r".to_vec(),
        })
        .unwrap();
    let mut handle = client.handle();
    handle.try_send(id, TestMsg::of("hi there")).unwrap();
    process_mpsc_queue(&mut client);
    assert_eq!(
        client.sessions[0].inner.connection.sent,
        vec![b"hi there".to_vec()]
    );
}

#[test]
fn action_for_unknown_session_is_ignored() {
    let mut client: ThinClient<TestConn, TestMsg> = ThinClient::new();
    let uuid = client.uuid;
    process_action(
        &mut client,
        Action::RawMsg {
            session_id: SessionId { index: 3, client_uuid: uuid },
            message: TestMsg::of("nowhere"),
        },
    );
    assert_eq!(client.sessions.len(), 0);
}

#[test]
fn add_session_issues_stable_indices() {
    let mut client: ThinClient<TestConn, TestMsg> = ThinClient::new();
    let first = client
        .add_session(Session {
            connection: TestConn::new(),
            nickname: b"a".to_vec(),
            username: b"a".to_vec(),
            realname: b"r".to_vec(),
        })
        .unwrap();
    let second = client
        .add_session(Session {
            connection: TestConn::new(),
            nickname: b"b".to_vec(),
            username: b"b".to_vec(),
            realname: b"r".to_vec(),
        })
        .unwrap();
    assert_eq!(first.index, 0);
    assert_eq!(second.index, 1);
    assert_eq!(first.client_uuid, client.uuid);
    assert_eq!(client.sessions.len(), 2);
}

#[test]
fn builder_runs_handshake_in_order() {
    let session = build()
        .connection(TestConn::new())
        .nickname("spudly")
        .start::<TestMsg>()
        .unwrap();
    assert_eq!(session.nickname, b"spudly".to_vec());
    assert_eq!(session.username, b"spudly".to_vec());
    assert_eq!(session.realname, b"yak_irc user".to_vec());
    assert_eq!(
        session.connection.sent,
        vec![b"NICK spudly".to_vec(), b"USER spudly 8 * :yak_irc user".to_vec()]
    );
}

#[test]
fn builder_honours_explicit_identity() {
    let session = build()
        .connection(TestConn::new())
        .nickname("n")
        .username("u")
        .realname("Real Name")
        .start::<TestMsg>()
        .unwrap();
    assert_eq!(
        session.connection.sent,
        vec![b"NICK n".to_vec(), b"USER u 8 * :Real Name".to_vec()]
    );
}

#[test]
fn builder_missing_fields_rejected() {
    let no_nick = build::<TestConn>().connection(TestConn::new()).start::<TestMsg>();
    assert!(matches!(no_nick, Err(ClientError::IncompleteSessionBuilder)));
    let no_conn = build::<TestConn>().nickname("n").start::<TestMsg>();
    assert!(matches!(no_conn, Err(ClientError::IncompleteSessionBuilder)));
}

#[test]
fn builder_aborts_when_handshake_send_fails() {
    let mut conn = TestConn::new();
    conn.script.push_back(SendBehavior::Fatal);
    let r = build().connection(conn).nickname("n").start::<TestMsg>();
    assert!(matches!(
        r,
        Err(ClientError::Connection(ConnectionError::Fatal))
    ));
}

#[test]
fn context_reports_its_session() {
    let client: ThinClient<TestConn, TestMsg> = ThinClient::new();
    let id = SessionId { index: 2, client_uuid: client.uuid };
    let ctx = MessageContext { client_handle: client.handle(), session_id: id };
    assert_eq!(ctx.session_id(), id);
    assert_eq!(ctx.client_handle().client_uuid, client.uuid);
}

/// A codec that cannot encode the reply to a ping: it rejects any byte
/// sequence containing an upper-case O.
#[derive(Clone, Debug, PartialEq)]
struct PickyMsg {
    bytes: Vec<u8>,
}

impl Message for PickyMsg {
    fn try_from(bytes: Vec<u8>) -> Result<PickyMsg, MessageError> {
        if bytes.contains(&b'O') {
            return Err(MessageError::Malformed);
        }
        Ok(PickyMsg { bytes })
    }

    fn as_bytes(&self) -> &[u8] {
        &self.bytes
    }

    fn command_bytes(&self) -> &[u8] {
        let end = self.bytes.iter().position(|&b| b == b' ').unwrap_or(self.bytes.len());
        &self.bytes[..end]
    }

    fn dup(&self) -> PickyMsg {
        self.clone()
    }
}

#[test]
fn ping_with_unencodable_pong_goes_to_handler() {
    let client: ThinClient<TestConn, PickyMsg> = ThinClient::new();
    let ctx = MessageContext {
        client_handle: client.handle(),
        session_id: SessionId { index: 0, client_uuid: client.uuid },
    };
    let failures = Cell::new(0usize);
    let handler = |_ctx: &MessageContext<PickyMsg>, msg: Result<PickyMsg, ClientError>| {
        assert!(matches!(
            msg,
            Err(ClientError::Message(MessageError::Malformed))
        ));
        failures.set(failures.get() + 1);
        Reaction::Nothing
    };
    let ping = PickyMsg { bytes: b"PING :x".to_vec() };
    let reaction = handle_message(&handler, &ctx, Ok(ping));
    assert!(matches!(reaction, Reaction::Nothing));
    assert_eq!(failures.get(), 1);
}

#[test]
fn full_queue_reported_as_failure() {
    let mut client: ThinClient<TestConn, TestMsg> = ThinClient::new();
    let id = client
        .add_session(Session {
            connection: TestConn::new(),
            nickname: b"n".to_vec(),
            username: b"n".to_vec(),
            realname: b"r".to_vec(),
        })
        .unwrap();
    let mut handle = client.handle();
    for _ in 0..1024 {
        handle.try_send(id, TestMsg::of("fill")).unwrap();
    }
    assert!(matches!(
        handle.try_send(id, TestMsg::of("overflow")),
        Err(ClientError::QueueFull)
    ));
}

#[test]
fn disconnected_queue_reported_as_failure() {
    let client: ThinClient<TestConn, TestMsg> = ThinClient::new();
    let uuid = client.uuid;
    let mut handle = client.handle();
    drop(client);
    let id = SessionId { index: 0, client_uuid: uuid };
    assert!(matches!(
        handle.try_send(id, TestMsg::of("late")),
        Err(ClientError::QueueDisconnected)
    ));
}

#[test]
fn session_event_routed_by_token() {
    let mut client: ThinClient<TestConn, TestMsg> = ThinClient::new();
    let mut conn = TestConn::new();
    conn.inbox.push_back(b"PING :srv".to_vec());
    let id = client
        .add_session(Session {
            connection: conn,
            nickname: b"n".to_vec(),
            username: b"n".to_vec(),
            realname: b"r".to_vec(),
        })
        .unwrap();
    let token = EventContextId::Session(id).as_mio_token().unwrap();
    let handler = |_ctx: &MessageContext<TestMsg>, _msg: Result<TestMsg, ClientError>| Reaction::Nothing;
    client.process_mio_event(
        token,
        Readiness { readable: true, writable: true },
        &handler,
    );
    assert_eq!(
        client.sessions[0].inner.connection.sent,
        vec![b"PONG :srv".to_vec()]
    );
    assert!(client.sessions[0].is_writable);
}

#[test]
fn control_event_drains_queue_via_token() {
    let mut client: ThinClient<TestConn, TestMsg> = ThinClient::new();
    let id = client
        .add_session(Session {
            connection: TestConn::new(),
            nickname: b"n".to_vec(),
            username: b"n".to_vec(),
            realname: b"r".to_vec(),
        })
        .unwrap();
    let mut handle = client.handle();
    handle.try_send(id, TestMsg::of("routed")).unwrap();
    let handler = |_ctx: &MessageContext<TestMsg>, _msg: Result<TestMsg, ClientError>| Reaction::Nothing;
    client.process_mio_event(
        mio::Token(0),
        Readiness { readable: true, writable: false },
        &handler,
    );
    assert_eq!(
        client.sessions[0].inner.connection.sent,
        vec![b"routed".to_vec()]
    );
}
