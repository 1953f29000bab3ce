use std::io;

use stream_ws::gloo::{
    CloseEvent, JsError, Message as GlooMessage, WebSocketError as GlooError,
    WsMessageHandler as GlooHandler,
};
use stream_ws::state::{FillStep, ReadStep, State};
use stream_ws::tungstenite::{
    CloseFrame, Message, WebSocketError, WsMessageHandler as TungsteniteHandler,
};
use stream_ws::{WsErrorKind, WsMessageHandle, WsMessageKind};

#[test]
fn tungstenite_binary_carries_bytes() {
    let k = TungsteniteHandler::message_into_kind(Message::Binary(vec![1, 2, 3]));
    assert_eq!(k, WsMessageKind::Bytes(vec![1, 2, 3]));
}

#[test]
fn tungstenite_close_ends() {
    assert_eq!(TungsteniteHandler::message_into_kind(Message::Close(None)), WsMessageKind::Close);
    let frame = CloseFrame { code: 1000, reason: "bye".to_string() };
    assert_eq!(
        TungsteniteHandler::message_into_kind(Message::Close(Some(frame))),
        WsMessageKind::Close
    );
}

#[test]
fn tungstenite_other_messages_are_ignored() {
    for m in [
        Message::Text("hi".to_string()),
        Message::Ping(vec![1]),
        Message::Pong(vec![2]),
        Message::Frame(tungstenite::protocol::frame::Frame::ping(vec![3])),
    ] {
        assert_eq!(TungsteniteHandler::message_into_kind(m), WsMessageKind::Other);
    }
}

#[test]
fn tungstenite_errors_are_classified() {
    assert!(matches!(
        TungsteniteHandler::error_into_kind(WebSocketError::ConnectionClosed),
        WsErrorKind::Closed
    ));
    assert!(matches!(
        TungsteniteHandler::error_into_kind(WebSocketError::AlreadyClosed),
        WsErrorKind::AlreadyClosed
    ));
    let io = io::Error::new(io::ErrorKind::ConnectionReset, "reset");
    match TungsteniteHandler::error_into_kind(WebSocketError::Io(io)) {
        WsErrorKind::Io(e) => assert_eq!(e.kind(), io::ErrorKind::ConnectionReset),
        other => panic!("unexpected {:?}", other),
    }
    match TungsteniteHandler::error_into_kind(WebSocketError::Other(tungstenite::Error::Utf8)) {
        WsErrorKind::Other(WebSocketError::Other(tungstenite::Error::Utf8)) => {}
        other => panic!("unexpected {:?}", other),
    }
}

#[test]
fn tungstenite_message_from_bytes_is_binary() {
    match TungsteniteHandler::message_from_bytes(&b"abc"[..]) {
        Message::Binary(v) => assert_eq!(v, b"abc".to_vec()),
        other => panic!("unexpected {:?}", other),
    }
    match TungsteniteHandler::message_from_bytes(vec![9u8, 8]) {
        Message::Binary(v) => assert_eq!(v, vec![9u8, 8]),
        other => panic!("unexpected {:?}", other),
    }
}

#[test]
fn tungstenite_sent_bytes_are_read_back() {
    let msg = TungsteniteHandler::message_from_bytes(&b"round trip"[..]);
    let kind = TungsteniteHandler::message_into_kind(msg);
    let mut s = State::new();
    assert!(matches!(s.receive::<WebSocketError>(Some(Ok(kind))), FillStep::Filled));
    let mut out = Vec::new();
    let mut dst = [0u8; 3];
    while let ReadStep::Read(n) = s.read(&mut dst) {
        out.extend_from_slice(&dst[..n]);
    }
    assert_eq!(out, b"round trip".to_vec());
}

#[test]
fn gloo_bytes_carry_bytes_and_text_is_ignored() {
    assert_eq!(
        GlooHandler::message_into_kind(GlooMessage::Bytes(vec![4, 5])),
        WsMessageKind::Bytes(vec![4, 5])
    );
    assert_eq!(
        GlooHandler::message_into_kind(GlooMessage::Text("t".to_string())),
        WsMessageKind::Other
    );
}

#[test]
fn gloo_clean_close_is_a_normal_close() {
    let clean = CloseEvent { code: 1000, reason: String::new(), was_clean: true };
    assert!(matches!(
        GlooHandler::error_into_kind(GlooError::ConnectionClose(clean)),
        WsErrorKind::Closed
    ));
}

#[test]
fn gloo_other_errors_are_passed_on() {
    let unclean = CloseEvent { code: 1006, reason: "gone".to_string(), was_clean: false };
    match GlooHandler::error_into_kind(GlooError::ConnectionClose(unclean)) {
        WsErrorKind::Other(GlooError::ConnectionClose(e)) => {
            assert_eq!(e.code, 1006);
            assert!(!e.was_clean);
        }
        other => panic!("unexpected {:?}", other),
    }
    assert!(matches!(
        GlooHandler::error_into_kind(GlooError::ConnectionError),
        WsErrorKind::Other(GlooError::ConnectionError)
    ));
    let js = JsError { name: "Error".to_string(), message: "m".to_string() };
    match GlooHandler::error_into_kind(GlooError::MessageSendError(js)) {
        WsErrorKind::Other(GlooError::MessageSendError(e)) => assert_eq!(e.message, "m"),
        other => panic!("unexpected {:?}", other),
    }
}

#[test]
fn gloo_sent_bytes_are_read_back() {
    let msg = GlooHandler::message_from_bytes(vec![1u8, 2, 3, 4, 5]);
    assert_eq!(msg, GlooMessage::Bytes(vec![1, 2, 3, 4, 5]));
    let mut s = State::new();
    s.receive::<GlooError>(Some(Ok(GlooHandler::message_into_kind(msg))));
    let mut out = Vec::new();
    let mut dst = [0u8; 2];
    while let ReadStep::Read(n) = s.read(&mut dst) {
        out.extend_from_slice(&dst[..n]);
    }
    assert_eq!(out, vec![1, 2, 3, 4, 5]);
}

#[test]
fn tungstenite_written_bytes_are_read_back_in_order() {
    let writes: Vec<Vec<u8>> = vec![b"first ".to_vec(), Vec::new(), b"second".to_vec(), b"!".to_vec()];
    let mut received: Vec<WsMessageKind> = writes
        .iter()
        .map(|w| TungsteniteHandler::message_into_kind(TungsteniteHandler::message_from_bytes(w.clone())))
        .collect();
    received.reverse();
    let mut s = State::new();
    let mut out = Vec::new();
    let mut dst = [0u8; 4];
    loop {
        match s.read(&mut dst) {
            ReadStep::Read(n) => out.extend_from_slice(&dst[..n]),
            ReadStep::NeedMessage => match received.pop() {
                Some(kind) => {
                    s.receive::<WebSocketError>(Some(Ok(kind)));
                }
                None => break,
            },
        }
    }
    assert_eq!(out, b"first second!".to_vec());
}

#[test]
fn state_write_sent_counts_the_buffer() {
    let s = State::new();
    assert_eq!(s.write_sent(5), 5);
}

#[test]
fn written_slices_are_read_back_with_any_read_sizes() {
    let writes: [&[u8]; 3] = [b"alpha", b"", b"beta-gamma"];
    let mut received: Vec<WsMessageKind> = writes
        .iter()
        .map(|w| GlooHandler::message_into_kind(GlooHandler::message_from_bytes(*w)))
        .collect();
    received.reverse();
    let mut s = State::new();
    let mut out = Vec::new();
    let mut dst = vec![0u8; 64];
    loop {
        match s.read(&mut dst) {
            ReadStep::Read(n) => out.extend_from_slice(&dst[..n]),
            ReadStep::NeedMessage => match received.pop() {
                Some(kind) => {
                    s.receive::<GlooError>(Some(Ok(kind)));
                }
                None => break,
            },
        }
    }
    assert_eq!(out, b"alphabeta-gamma".to_vec());
}
