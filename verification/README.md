# stream-ws

A layer over WebSocket that carries a byte stream: binary messages carry the
bytes, a close message or a normal close ends the stream, other messages are
ignored.

- `src/` is the verified library.
  - `kind.rs`: how messages and errors are classified (`WsMessageKind`,
    `WsErrorKind`) and the `WsMessageHandle` trait that classifies them.
  - `state.rs`: the state of a byte stream and every decision it takes:
    what an item of the underlying stream does to the reader, reads,
    buffered reads, and what writes, flushes and closes report.
  - `laws.rs`: what holds across operations (reads give back the payloads
    of the binary messages received, across messages, exactly and in order;
    a read gives nothing only at the end; buffered reads agree with reads;
    the end of the stream is final; a normal close is no error).
  - `tungstenite.rs`, `gloo.rs`: the handlers for the messages and errors of
    those WebSocket libraries, and the law that what is written as
    messages is read back.
- `app/` is the asynchronous plumbing: `WsByteStream` polls the WebSocket
  `Stream`/`Sink` and implements `AsyncRead`, `AsyncBufRead` and `AsyncWrite`
  of `futures` and `tokio`, and the handlers for `tungstenite` and `gloo-net`
  values.
- `tests/` runs the library on concrete values.
