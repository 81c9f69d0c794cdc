//! A point-to-point message channel over one byte stream: the framing of
//! UTF-8 messages, the slot that holds the live connection, the dispatch of
//! received messages to a handler, and the decisions of the client and server
//! connection loops.

pub mod channel;
pub mod dispatch;
pub mod driver;
pub mod wire;
