//! The multiplexer's frames.
use vstd::prelude::*;

verus! {

/// Identifier of a multiplexed stream. The initiator allocates them.
pub type StreamId = u32;

/// One multiplexer frame. After the handshake every binary WebSocket
/// message carries exactly one frame.
#[derive(Debug, Clone)]
pub enum Frame {
    /// The initiator opens a new stream; the acceptor starts serving it.
    Open { stream_id: StreamId },
    /// Bytes of a stream, in either direction.
    Data { stream_id: StreamId, payload: Vec<u8> },
    /// No more bytes will come in this direction; the reader sees the end.
    Fin { stream_id: StreamId },
    /// Hard reset: both directions of the stream are torn down.
    Reset { stream_id: StreamId },
    /// Liveness probe, answered by a `Pong` with the same token.
    Ping { token: u32 },
    /// Answer to a `Ping`.
    Pong { token: u32 },
}

} // verus!
