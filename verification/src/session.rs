//! Sessions: a connection paired with its protocol handshake identity.

use vstd::prelude::*;
use vstd::string::StrSliceExecFns;
use vstd::string::StringSliceAdditionalSpecFns;

use crate::client::ClientError;
use crate::connection::Connection;
use crate::connection::ConnectionState;
use crate::connection::ReceiveMessage;
use crate::connection::SendMessage;
use crate::connection::ConnectionError;
use crate::message::Message;

verus! {

/// The realname used when the builder is not given one.
pub const DEFAULT_REALNAME: &'static str = "yak_irc user";

/// The first handshake line: the NICK command naming the nickname.
pub open spec fn nick_line_bytes(nick: Seq<u8>) -> Seq<u8> {
    "NICK ".spec_bytes() + nick
}

/// The second handshake line: the USER command naming the username and
/// realname.
pub open spec fn user_line_bytes(user: Seq<u8>, realname: Seq<u8>) -> Seq<u8> {
    "USER ".spec_bytes() + user + " 8 * :".spec_bytes() + realname
}

/// One logical protocol connection plus its handshake identity.
pub struct Session<Conn: Connection> {
    /// The transport this session talks over.
    pub connection: Conn,
    /// The nickname sent in the handshake.
    pub nickname: Vec<u8>,
    /// The username sent in the handshake.
    pub username: Vec<u8>,
    /// The realname sent in the handshake.
    pub realname: Vec<u8>,
}

impl<Conn: Connection> Session<Conn> {
    /// One receive attempt on the session's connection.
    pub fn recv<Msg: Message>(&mut self) -> (r: Result<Option<Msg>, ConnectionError>)
        ensures
            final (self).connection.sent() == old(self).connection.sent(),
            final (self).connection.send_failures() == old(self).connection.send_failures(),
            final (self).nickname@ == old(self).nickname@,
            final (self).username@ == old(self).username@,
            final (self).realname@ == old(self).realname@,
            match r {
                Ok(opt) => match opt {
                    Some(m) => old(self).connection.inbox().len() > 0
                        && m.bytes() == old(self).connection.inbox()[0]
                        && Msg::decodable(old(self).connection.inbox()[0])
                        && final (self).connection.inbox() == old(self).connection.inbox().skip(1)
                        && final (self).connection.recv_failures()
                        == old(self).connection.recv_failures(),
                    None => old(self).connection.inbox().len() == 0
                        && final (self).connection.inbox() == old(self).connection.inbox()
                        && final (self).connection.recv_failures()
                        == old(self).connection.recv_failures(),
                },
                Err(e) => match e {
                    ConnectionError::Decode(_) => old(self).connection.inbox().len() > 0
                        && !Msg::decodable(old(self).connection.inbox()[0])
                        && final (self).connection.inbox() == old(self).connection.inbox().skip(1)
                        && final (self).connection.recv_failures()
                        == old(self).connection.recv_failures(),
                    ConnectionError::Transient => final (self).connection.inbox()
                        == old(self).connection.inbox() && final (self).connection.recv_failures()
                        == old(self).connection.recv_failures(),
                    _ => final (self).connection.inbox() == old(self).connection.inbox()
                        && final (self).connection.recv_failures()
                        == old(self).connection.recv_failures() + 1,
                },
            },
    {
        self.connection.recv()
    }

    /// One send attempt on the session's connection.
    pub fn try_send<Msg: Message>(&mut self, msg: &Msg) -> (r: Result<(), ConnectionError>)
        ensures
            final (self).connection.inbox() == old(self).connection.inbox(),
            final (self).connection.recv_failures() == old(self).connection.recv_failures(),
            final (self).nickname@ == old(self).nickname@,
            final (self).username@ == old(self).username@,
            final (self).realname@ == old(self).realname@,
            match r {
                Ok(()) => final (self).connection.sent() == old(self).connection.sent().push(
                    msg.bytes(),
                ) && final (self).connection.send_failures()
                    == old(self).connection.send_failures(),
                Err(e) => final (self).connection.sent() == old(self).connection.sent()
                    && final (self).connection.send_failures()
                    == old(self).connection.send_failures().push((msg.bytes(), e is Transient)),
            },
    {
        self.connection.try_send(msg)
    }
}

/// A runtime-checked builder for [`Session`].
///
/// A connection and a nickname are required; the username defaults to the
/// nickname and the realname to [`DEFAULT_REALNAME`].
pub struct SessionBuilder<Conn: Connection> {
    /// The transport the session will talk over.
    pub connection: Option<Conn>,
    /// The nickname to announce.
    pub nickname: Option<Vec<u8>>,
    /// The username to announce; defaults to the nickname.
    pub username: Option<Vec<u8>>,
    /// The realname to announce; defaults to [`DEFAULT_REALNAME`].
    pub realname: Option<Vec<u8>>,
}

/// An empty session builder.
pub fn build<Conn: Connection>() -> (r: SessionBuilder<Conn>)
    ensures
        r.connection is None,
        r.nickname is None,
        r.username is None,
        r.realname is None,
{
    SessionBuilder { connection: None, nickname: None, username: None, realname: None }
}

impl<Conn: Connection> SessionBuilder<Conn> {
    /// Sets the connection the session will talk over.
    pub fn connection(self, value: Conn) -> (r: SessionBuilder<Conn>)
        ensures
            r.connection matches Some(c) && c == value,
            r.nickname == self.nickname,
            r.username == self.username,
            r.realname == self.realname,
    {
        SessionBuilder {
            connection: Some(value),
            nickname: self.nickname,
            username: self.username,
            realname: self.realname,
        }
    }

    /// Sets the nickname to announce.
    pub fn nickname(self, value: &str) -> (r: SessionBuilder<Conn>)
        ensures
            r.nickname matches Some(n) && n@ == value.spec_bytes(),
            r.connection == self.connection,
            r.username == self.username,
            r.realname == self.realname,
    {
        SessionBuilder {
            connection: self.connection,
            nickname: Some(value.as_bytes_vec()),
            username: self.username,
            realname: self.realname,
        }
    }

    /// Sets the username to announce.
    pub fn username(self, value: &str) -> (r: SessionBuilder<Conn>)
        ensures
            r.username matches Some(n) && n@ == value.spec_bytes(),
            r.connection == self.connection,
            r.nickname == self.nickname,
            r.realname == self.realname,
    {
        SessionBuilder {
            connection: self.connection,
            nickname: self.nickname,
            username: Some(value.as_bytes_vec()),
            realname: self.realname,
        }
    }

    /// Sets the realname to announce.
    pub fn realname(self, value: &str) -> (r: SessionBuilder<Conn>)
        ensures
            r.realname matches Some(n) && n@ == value.spec_bytes(),
            r.connection == self.connection,
            r.nickname == self.nickname,
            r.username == self.username,
    {
        SessionBuilder {
            connection: self.connection,
            nickname: self.nickname,
            username: self.username,
            realname: Some(value.as_bytes_vec()),
        }
    }

    /// Performs the login handshake and yields the ready session.
    ///
    /// The two handshake messages are accepted into the connection's send
    /// path in order, the NICK line first; failure to encode or to send
    /// either aborts construction with that failure. A builder still
    /// missing its connection or nickname is rejected outright.
    pub fn start<Msg: Message>(self) -> (r: Result<Session<Conn>, ClientError>)
        ensures
            (self.connection is None || self.nickname is None) <==> (r matches Err(
                ClientError::IncompleteSessionBuilder,
            )),
            match r {
                Ok(s) => {
                    &&& self.connection matches Some(c) && s.connection.inbox() == c.inbox()
                        && s.connection.send_failures() == c.send_failures()
                        && s.connection.recv_failures() == c.recv_failures()
                        && s.connection.sent() == c.sent().push(
                        nick_line_bytes(s.nickname@),
                    ).push(user_line_bytes(s.username@, s.realname@))
                    &&& self.nickname matches Some(n) && s.nickname@ == n@
                    &&& match self.username {
                        Some(u) => s.username@ == u@,
                        None => s.username@ == s.nickname@,
                    }
                    &&& match self.realname {
                        Some(re) => s.realname@ == re@,
                        None => s.realname@ == DEFAULT_REALNAME.spec_bytes(),
                    }
                },
                Err(e) => e matches ClientError::IncompleteSessionBuilder || e matches
                    ClientError::Message(_) || e matches ClientError::Connection(_),
            },
    {
        let SessionBuilder { connection, nickname, username, realname } = self;
        let mut connection = match connection {
            Some(c) => c,
            None => {
                return Err(ClientError::IncompleteSessionBuilder);
            },
        };
        let nickname = match nickname {
            Some(n) => n,
            None => {
                return Err(ClientError::IncompleteSessionBuilder);
            },
        };
        let username = match username {
            Some(u) => u,
            None => nickname.clone(),
        };
        let realname = match realname {
            Some(re) => re,
            None => DEFAULT_REALNAME.as_bytes_vec(),
        };

        let mut nick_line: Vec<u8> = "NICK ".as_bytes_vec();
        nick_line.extend_from_slice(nickname.as_slice());
        assert(nick_line@ =~= nick_line_bytes(nickname@));
        let nick_msg = match Msg::try_from(nick_line) {
            Ok(m) => m,
            Err(e) => {
                return Err(ClientError::Message(e));
            },
        };
        match connection.try_send(&nick_msg) {
            Ok(()) => {},
            Err(e) => {
                return Err(ClientError::Connection(e));
            },
        }

        let mut user_line: Vec<u8> = "USER ".as_bytes_vec();
        user_line.extend_from_slice(username.as_slice());
        user_line.extend_from_slice(" 8 * :".as_bytes());
        user_line.extend_from_slice(realname.as_slice());
        assert(user_line@ =~= user_line_bytes(username@, realname@));
        let user_msg = match Msg::try_from(user_line) {
            Ok(m) => m,
            Err(e) => {
                return Err(ClientError::Message(e));
            },
        };
        match connection.try_send(&user_msg) {
            Ok(()) => {},
            Err(e) => {
                return Err(ClientError::Connection(e));
            },
        }

        Ok(Session { connection, nickname, username, realname })
    }
}

/// Anything that can become a ready [`Session`]: a session itself, or a
/// complete builder whose handshake has yet to run.
pub trait TryIntoSession<Conn: Connection>: Sized {
    /// Whether this conversion is guaranteed to succeed: a ready session
    /// converts by identity, while a builder's handshake may fail.
    open spec fn conversion_total(&self) -> bool {
        false
    }

    /// Yields a ready session, running the handshake if it has not run yet.
    ///
    /// A total conversion succeeds. The capacity error belongs to the
    /// reactor alone: a failed conversion never reports `TooManySessions`,
    /// so that error always means what it says.
    fn try_into_session<Msg: Message>(self) -> (r: Result<Session<Conn>, ClientError>)
        ensures
            self.conversion_total() ==> r is Ok,
            r matches Err(e) ==> !(e matches ClientError::TooManySessions),
    ;
}

impl<Conn: Connection> TryIntoSession<Conn> for Session<Conn> {
    open spec fn conversion_total(&self) -> bool {
        true
    }

    fn try_into_session<Msg: Message>(self) -> (r: Result<Session<Conn>, ClientError>)
        ensures
            r matches Ok(s) && s == self,
    {
        Ok(self)
    }
}

impl<Conn: Connection> TryIntoSession<Conn> for SessionBuilder<Conn> {
    fn try_into_session<Msg: Message>(self) -> Result<Session<Conn>, ClientError> {
        self.start::<Msg>()
    }
}

} // verus!
