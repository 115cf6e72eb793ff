//! Wire protocol and session logic of a line-oriented chat client.
//!
//! A client keeps at most one connection to a chat server. It sends chat
//! lines and name registrations, and shows what the server sends. On the
//! wire every message is one frame: a four-byte big-endian length followed
//! by that many bytes of UTF-8 text, `<Tag>|<payload>`.
//!
//! The library holds the rules and leaves the outside world to its caller:
//!
//! - [`byte_order`]: the four-byte big-endian form of a length;
//! - [`message`]: the messages and their canonical text;
//! - [`frame`]: writing frames to a stream of bytes;
//! - [`decoder`]: reading frames, read by read or from bytes in memory;
//! - [`command`]: the commands that a line of input denotes;
//! - [`session`]: what the session does on a command or on the answer to a
//!   connection attempt;
//! - [`receiver`]: what the receive loop does with each outcome;
//! - [`error`]: the ways to fail;
//! - [`encoding`]: facts about UTF-8 that the proofs rest on;
//! - [`laws`]: what holds of encoding and decoding taken together.

pub mod byte_order;
pub mod command;
pub mod decoder;
pub mod encoding;
pub mod error;
pub mod frame;
pub mod laws;
pub mod message;
pub mod receiver;
pub mod session;
