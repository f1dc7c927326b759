# houdini

A tunnel that exposes an HTTP service on a machine behind NAT through a
server that is only reachable over HTTP(S). The client dials the server's
WebSocket control endpoint, authenticates with a shared token, and the two
ends run a small stream multiplexer over that one WebSocket: the server
opens a stream per public request, the client forwards each stream to its
local target.

## Layout

- `src/` — the verified library (Verus):
  - `handshake.rs` — `Hello` / `HelloAck`, constant-time token check, the
    server's answer to a client (version, then token, then "one client at a
    time"), and the client's reading of the answer.
  - `frame.rs` — the multiplexer's frames.
  - `mux.rs` — stream id allocation per role, the table of open streams,
    the plan for every inbound frame and the I/O loop's decisions.
  - `stream.rs` — one stream's read buffer, end-of-stream and reset
    handling, write chunking, shutdown and drop.
  - `headers.rs` — hop-by-hop header stripping and `x-forwarded-for`.
  - `config.rs` — configuration defaults and checks, reconnect backoff.
  - `web.rs` — public error replies, tunnel selection, the rewrite of a
    forwarded request (upstream URI and `Host`),
    WebSocket message classification.
  - `text.rs` — white space, decimal rendering, text helpers.
- `app/` — the async runtime around it: the postcard codec, the
  multiplexer's tasks and channels, the axum server and the
  tokio-tungstenite/hyper client. `server::main` and `client::main` are
  the two programs.
- `tests/` — tests of the library on concrete values.
