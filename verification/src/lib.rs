//! Framing and version negotiation for a length-prefixed binary
//! request/response protocol.

pub mod bigendian;
pub mod connection;
pub mod error;
pub mod frame;
pub mod header;
pub mod laws;
pub mod negotiator;
pub mod readers;
pub mod registry;
pub mod response;
