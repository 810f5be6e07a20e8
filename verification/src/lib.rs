//! An embeddable IRC-client engine.
//!
//! A single-threaded reactor multiplexes one or more line-oriented protocol
//! sessions while accepting outgoing messages asynchronously from other
//! threads through a cloneable handle. The wire-message codec and the
//! transports are pluggable; the reactor's dispatch logic, its token space,
//! and the per-session output buffering carry verified contracts.

pub mod buffer;
pub mod client;
pub mod connection;
pub mod control;
pub mod irc;
pub mod message;
pub mod session;
pub mod thin;

pub use crate::message::Message;
