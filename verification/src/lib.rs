//! Client-side codec and handshake logic for the Source engine `A2S_INFO`
//! server query.
//!
//! The crate holds the wire format (request encoding, datagram decoding,
//! the server-info record) and the challenge handshake as a transport-free
//! state machine. Moving bytes over a socket is left to the caller.
pub mod error;
pub mod parse;
pub mod packet;
pub mod info;
pub mod query;
