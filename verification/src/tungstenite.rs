//! Handler for the message and error types of `tungstenite`.
use vstd::prelude::*;

use crate::kind::{WsErrorKind, WsMessageHandle, WsMessageKind};
use crate::laws::{
    lemma_reads_give_the_stream_in_order, lemma_stream_carries_bytes, payloads, run,
};
use crate::state::{receive_spec, Item, ReadView};

verus! {

/// A raw frame of `tungstenite`, carried through unread.
#[verifier::external_type_specification]
#[verifier::external_body]
pub struct ExFrame(::tungstenite::protocol::frame::Frame);

/// An error of `tungstenite`, carried through unread.
#[verifier::external_type_specification]
#[verifier::external_body]
pub struct ExError(::tungstenite::Error);

/// The close frame of a close message: a status code and a reason.
#[derive(Debug, PartialEq, Eq)]
pub struct CloseFrame {
    pub code: u16,
    pub reason: String,
}

/// A message of `tungstenite`, as the byte stream reads it.
#[derive(Debug)]
pub enum Message {
    Text(String),
    Binary(Vec<u8>),
    Ping(Vec<u8>),
    Pong(Vec<u8>),
    Close(Option<CloseFrame>),
    Frame(::tungstenite::protocol::frame::Frame),
}

/// An error of `tungstenite`, as the byte stream tells errors apart.
#[derive(Debug)]
pub enum WebSocketError {
    /// The connection was closed normally.
    ConnectionClosed,
    /// The connection was used after it was closed.
    AlreadyClosed,
    /// An I/O error of the underlying connection.
    Io(std::io::Error),
    /// Any other error of `tungstenite`, as it came.
    Other(::tungstenite::Error),
}

/// What the byte stream makes of a message of `tungstenite`: binary
/// messages carry bytes, close messages end the stream, the rest is ignored.
pub open spec fn message_kind(msg: Message) -> WsMessageKind {
    match msg {
        Message::Binary(v) => WsMessageKind::Bytes(v),
        Message::Close(_) => WsMessageKind::Close,
        _ => WsMessageKind::Other,
    }
}

/// What the byte stream makes of an error of `tungstenite`.
pub open spec fn error_kind(e: WebSocketError) -> WsErrorKind<WebSocketError> {
    match e {
        WebSocketError::ConnectionClosed => WsErrorKind::Closed,
        WebSocketError::AlreadyClosed => WsErrorKind::AlreadyClosed,
        WebSocketError::Io(x) => WsErrorKind::Io(x),
        WebSocketError::Other(t) => WsErrorKind::Other(WebSocketError::Other(t)),
    }
}

/// Only binary messages carry bytes, and they carry exactly their payload;
/// only close messages end the stream; text, ping, pong and raw frames are
/// ignored, whatever they hold.
pub proof fn lemma_message_classification(m: Message)
    ensures
        message_kind(m) is Bytes <==> m is Binary,
        m matches Message::Binary(v) ==> message_kind(m) == WsMessageKind::Bytes(v),
        message_kind(m) is Close <==> m is Close,
        (m is Text || m is Ping || m is Pong || m is Frame) ==> message_kind(m)
            == WsMessageKind::Other,
{
}

/// Only a normal close of the connection is a normal close, only an
/// "already closed" is one, an I/O error is passed on as the I/O error it
/// holds, and every other error of `tungstenite` is passed on as it came.
pub proof fn lemma_error_classification(e: WebSocketError)
    ensures
        error_kind(e) is Closed <==> e is ConnectionClosed,
        error_kind(e) is AlreadyClosed <==> e is AlreadyClosed,
        error_kind(e) is Io <==> e is Io,
        e matches WebSocketError::Io(x) ==> error_kind(e) == WsErrorKind::<WebSocketError>::Io(x),
        error_kind(e) is Other <==> e is Other,
        e is Other ==> error_kind(e) == WsErrorKind::Other(e),
{
}

/// Classifies the messages and errors of `tungstenite`.
pub struct WsMessageHandler;

impl WsMessageHandle<Message, WebSocketError> for WsMessageHandler {
    fn message_into_kind(msg: Message) -> (kind: WsMessageKind)
        ensures
            kind == message_kind(msg),
    {
        match msg {
            Message::Binary(msg) => WsMessageKind::Bytes(msg),
            Message::Close(_) => WsMessageKind::Close,
            _ => WsMessageKind::Other,
        }
    }

    fn error_into_kind(e: WebSocketError) -> (kind: WsErrorKind<WebSocketError>)
        ensures
            kind == error_kind(e),
    {
        match e {
            WebSocketError::ConnectionClosed => WsErrorKind::Closed,
            WebSocketError::AlreadyClosed => WsErrorKind::AlreadyClosed,
            WebSocketError::Io(e) => WsErrorKind::Io(e),
            e => WsErrorKind::Other(e),
        }
    }

    fn message_from_bytes<T: Into<Vec<u8>>>(bytes: T) -> (msg: Message)
        ensures
            msg is Binary,
            call_ensures(<T as Into<Vec<u8>>>::into, (bytes,), msg->Binary_0),
    {
        Message::Binary(bytes.into())
    }
}

/// The items that a sequence of messages gives the byte stream.
pub open spec fn items_of(msgs: Seq<Message>) -> Seq<Item<WebSocketError>> {
    msgs.map_values(|m: Message| Some(Ok(message_kind(m))))
}

/// What `message_from_bytes` makes of a byte slice, the way a write sends
/// it: a message that carries exactly the bytes of the slice.
pub proof fn lemma_message_from_slice_keeps_bytes(bytes: &[u8], msg: Message)
    requires
        msg is Binary,
        call_ensures(<&[u8] as Into<Vec<u8>>>::into, (bytes,), msg->Binary_0),
    ensures
        msg->Binary_0@ == bytes@,
{
    let v = msg->Binary_0;
    assert forall|i: int| 0 <= i < bytes@.len() implies v@[i] == bytes@[i] by {
        assert(cloned::<u8>(bytes@[i], v@[i]));
    }
    assert(v@ =~= bytes@);
}

/// What one end writes, the other end reads back. The messages that
/// `message_from_bytes` made of the written byte slices arrive in order,
/// followed by any other items (no errors). Whatever the sizes of the
/// reads, the bytes they give are the first of the written bytes followed
/// by the payloads of the later items: the written bytes come first, none
/// lost, repeated or reordered. Once the reads reach the end of the stream,
/// or are into non-empty destinations at least as many as there are bytes,
/// they give all of them.
pub proof fn lemma_written_bytes_read_back(
    ws: Seq<&[u8]>,
    msgs: Seq<Message>,
    more: Seq<Item<WebSocketError>>,
    caps: Seq<nat>,
)
    requires
        msgs.len() == ws.len(),
        forall|i: int|
            0 <= i < ws.len() ==> #[trigger] msgs[i] is Binary && call_ensures(
                <&[u8] as Into<Vec<u8>>>::into,
                (ws[i],),
                msgs[i]->Binary_0,
            ),
        forall|i: int| 0 <= i < more.len() ==> !(#[trigger] receive_spec(more[i]).1 is Failed),
    ensures
        ({
            let all = ws.map_values(|w: &[u8]| w@).flatten() + payloads(more);
            let out = run(ReadView::Pending, items_of(msgs) + more, caps);
            &&& out.1.len() <= all.len()
            &&& out.1 == all.take(out.1.len() as int)
            &&& out.0 is Terminated ==> out.1 == all
            &&& (forall|i: int| 0 <= i < caps.len() ==> #[trigger] caps[i] > 0) && caps.len()
                >= all.len() ==> out.1 == all
        }),
{
    let items = items_of(msgs) + more;
    let all = ws.map_values(|w: &[u8]| w@).flatten() + payloads(more);
    lemma_written_payloads(ws, msgs, more);
    assert forall|i: int| 0 <= i < items.len() implies !(#[trigger] receive_spec(
        items[i],
    ).1 is Failed) by {
        if i < msgs.len() {
            assert(msgs[i] is Binary);
            assert(items[i] == Some(Ok::<WsMessageKind, WsErrorKind<WebSocketError>>(message_kind(msgs[i]))));
        } else {
            assert(items[i] == more[i - msgs.len()]);
        }
    }
    assert(ReadView::Pending.remaining() + payloads(items) =~= all);
    lemma_reads_give_the_stream_in_order(ReadView::Pending, items, caps);
    if (forall|i: int| 0 <= i < caps.len() ==> #[trigger] caps[i] > 0) && caps.len() >= all.len() {
        lemma_stream_carries_bytes(ReadView::Pending, items, caps);
    }
}

/// The payloads of the messages made of the written byte slices, followed
/// by other items, are the written bytes followed by the payloads of those.
proof fn lemma_written_payloads(ws: Seq<&[u8]>, msgs: Seq<Message>, more: Seq<Item<WebSocketError>>)
    requires
        msgs.len() == ws.len(),
        forall|i: int|
            0 <= i < ws.len() ==> #[trigger] msgs[i] is Binary && call_ensures(
                <&[u8] as Into<Vec<u8>>>::into,
                (ws[i],),
                msgs[i]->Binary_0,
            ),
    ensures
        payloads(items_of(msgs) + more) == ws.map_values(|w: &[u8]| w@).flatten() + payloads(
            more,
        ),
    decreases ws.len(),
{
    let vs = ws.map_values(|w: &[u8]| w@);
    if ws.len() > 0 {
        assert(msgs[0] is Binary);
        lemma_message_from_slice_keeps_bytes(ws[0], msgs[0]);
        let ws1 = ws.drop_first();
        let msgs1 = msgs.drop_first();
        assert forall|i: int|
            0 <= i < ws1.len() implies #[trigger] msgs1[i] is Binary && call_ensures(
                <&[u8] as Into<Vec<u8>>>::into,
                (ws1[i],),
                msgs1[i]->Binary_0,
            ) by {
            assert(msgs1[i] == msgs[i + 1]);
            assert(ws1[i] == ws[i + 1]);
            assert(msgs[i + 1] is Binary);
        }
        lemma_written_payloads(ws1, msgs1, more);
        let items = items_of(msgs) + more;
        assert(items[0] == Some(Ok::<WsMessageKind, WsErrorKind<WebSocketError>>(WsMessageKind::Bytes(msgs[0]->Binary_0))));
        assert(items.drop_first() =~= items_of(msgs1) + more);
        assert(vs.drop_first() =~= ws1.map_values(|w: &[u8]| w@));
        assert(vs.flatten() == vs[0] + vs.drop_first().flatten());
        assert(payloads(items) == msgs[0]->Binary_0@ + payloads(items.drop_first()));
        assert(vs.flatten() + payloads(more) =~= vs[0] + (vs.drop_first().flatten() + payloads(more)));
    } else {
        assert(vs =~= Seq::<Seq<u8>>::empty());
        assert(items_of(msgs) + more =~= more);
        assert(vs.flatten() + payloads(more) =~= payloads(more));
    }
}

} // verus!
