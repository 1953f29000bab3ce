//! A layer over WebSocket that carries a byte stream.
//!
//! Binary messages carry the payload; a close message or a normal close of
//! the connection ends the stream; other messages are ignored.
//! [`state::State`] holds the decisions of the byte stream: what a message or
//! an error of the underlying WebSocket does to it, and what a read, a
//! buffered read, a write, a flush or a close gives back.
//! [`tungstenite`] and [`gloo`] classify the messages and errors of those
//! WebSocket libraries.

pub mod kind;
pub mod state;
pub mod laws;
pub mod tungstenite;
pub mod gloo;

pub use kind::{WsErrorKind, WsMessageHandle, WsMessageKind};
