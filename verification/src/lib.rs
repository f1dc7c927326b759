//! A tunnel that carries HTTP/1.1 traffic from a public server to a
//! machine behind NAT over one WebSocket: the handshake, the stream
//! multiplexer's rules, header hygiene and configuration checks.
use vstd::prelude::*;

pub mod config;
pub mod frame;
pub mod handshake;
pub mod headers;
pub mod mux;
pub mod stream;
pub mod text;
pub mod web;

pub use frame::{Frame, StreamId};
pub use handshake::{Hello, HelloAck, HelloError, PROTOCOL_VERSION};
pub use mux::Role;

verus! {

} // verus!
