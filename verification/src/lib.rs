//! A client-side engine for ONC RPC over a byte stream.
//!
//! The crate holds the XDR codec, the record-marking layer that frames
//! messages on a stream, the call and reply envelopes, the portmapper
//! bootstrap and the session that sequences one call at a time. Every
//! function is pure: it turns values into bytes and bytes into values, and
//! leaves the sockets to its caller.


pub mod client;
pub mod error;
pub mod idl;
pub mod message;
pub mod portmap;
pub mod record;
pub mod universal;
pub mod xdr;
