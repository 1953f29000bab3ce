use vstd::prelude::*;

use crate::kind::{WsErrorKind, WsMessageKind};

verus! {

/// The error that an operation of the byte stream reports.
#[derive(Debug)]
pub enum StreamError<E> {
    /// An I/O error of the underlying connection, passed on as it came.
    Io(std::io::Error),
    /// The connection was already closed: reported as `NotConnected`, "Already closed".
    NotConnected,
    /// Any other error of the WebSocket library: reported as an error of kind `Other`.
    Other(E),
}

/// What an item of the underlying stream does to the reading side.
#[derive(Debug)]
pub enum FillStep<E> {
    /// The bytes of a binary message now stand ready to be read.
    Filled,
    /// The message is ignored: the next item is to be polled.
    Ignored,
    /// The stream has ended: reads give nothing from now on.
    Ended,
    /// The error to report.
    Failed(StreamError<E>),
}

/// What a read gives.
#[derive(Debug, PartialEq, Eq)]
pub enum ReadStep {
    /// Nothing is buffered: the next message is to be received first.
    NeedMessage,
    /// This many bytes were copied into the destination: `0` only for an
    /// empty destination or at the end of the stream.
    Read(usize),
}

impl ReadStep {
    /// The count of bytes read, `None` when a message is needed first.
    pub open spec fn count(self) -> Option<nat> {
        match self {
            ReadStep::NeedMessage => None,
            ReadStep::Read(n) => Some(n as nat),
        }
    }
}

enum ReadState {
    /// Nothing is buffered: ready to read the next message.
    Pending,
    /// The bytes of a message, of which the first `amt_read` have been read.
    Ready { buf: Vec<u8>, amt_read: usize },
    /// The connection was shut down.
    Terminated,
}

enum WriteState {
    Ready,
    Closed,
}

/// The reading side, as a value.
pub enum ReadView {
    Pending,
    /// A message `buf`, read up to `pos`.
    Ready { buf: Seq<u8>, pos: nat },
    Terminated,
}

impl ReadView {
    pub open spec fn wf(self) -> bool {
        self matches ReadView::Ready { buf, pos } ==> pos < buf.len()
    }

    /// The bytes still to be read of the current message.
    pub open spec fn remaining(self) -> Seq<u8> {
        match self {
            ReadView::Ready { buf, pos } => buf.skip(pos as int),
            _ => Seq::empty(),
        }
    }
}

/// The state of a byte stream over WebSocket, as a value.
pub struct StateView {
    pub read: ReadView,
    pub write_closed: bool,
}

impl StateView {
    pub open spec fn wf(self) -> bool {
        self.read.wf()
    }
}

/// The state of a byte stream over WebSocket: what is left of the message
/// being read, and whether the writing side is closed.
pub struct State {
    read: ReadState,
    write: WriteState,
}

spec fn read_view(r: ReadState) -> ReadView {
    match r {
        ReadState::Pending => ReadView::Pending,
        ReadState::Ready { buf, amt_read } => ReadView::Ready { buf: buf@, pos: amt_read as nat },
        ReadState::Terminated => ReadView::Terminated,
    }
}

impl View for State {
    type V = StateView;

    closed spec fn view(&self) -> StateView {
        StateView { read: read_view(self.read), write_closed: self.write is Closed }
    }
}

/// An item of the underlying stream: a message, an error, or `None` at its end.
pub type Item<E> = Option<Result<WsMessageKind, WsErrorKind<E>>>;

/// What an item of the underlying stream makes of a reading side that waits
/// for a message, and the step it gives. A binary message without bytes
/// carries nothing and is ignored like any other message.
pub open spec fn receive_spec<E>(item: Item<E>) -> (ReadView, FillStep<E>) {
    match item {
        None => (ReadView::Terminated, FillStep::Ended),
        Some(Ok(WsMessageKind::Bytes(v))) => if v@.len() == 0 {
            (ReadView::Pending, FillStep::Ignored)
        } else {
            (ReadView::Ready { buf: v@, pos: 0 }, FillStep::Filled)
        },
        Some(Ok(WsMessageKind::Close)) => (ReadView::Terminated, FillStep::Ended),
        Some(Ok(WsMessageKind::Other)) => (ReadView::Pending, FillStep::Ignored),
        Some(Err(WsErrorKind::Io(e))) => (ReadView::Pending, FillStep::Failed(StreamError::Io(e))),
        Some(Err(WsErrorKind::Closed)) => (ReadView::Terminated, FillStep::Ended),
        Some(Err(WsErrorKind::AlreadyClosed)) => (
            ReadView::Terminated,
            FillStep::Failed(StreamError::NotConnected),
        ),
        Some(Err(WsErrorKind::Other(e))) => (
            ReadView::Pending,
            FillStep::Failed(StreamError::Other(e)),
        ),
    }
}

/// How many bytes a read into a destination of `cap` bytes copies.
pub open spec fn read_len(r: ReadView, cap: nat) -> nat {
    let avail = r.remaining().len();
    if cap < avail { cap } else { avail }
}

/// The bytes that a read into a destination of `cap` bytes copies.
pub open spec fn read_bytes(r: ReadView, cap: nat) -> Seq<u8> {
    r.remaining().take(read_len(r, cap) as int)
}

/// The reading side after a read into a destination of `cap` bytes, and the
/// count it gives (`None`: a message is needed first).
pub open spec fn read_spec(r: ReadView, cap: nat) -> (ReadView, Option<nat>) {
    match r {
        ReadView::Pending => (ReadView::Pending, None),
        ReadView::Terminated => (ReadView::Terminated, Some(0)),
        ReadView::Ready { buf, pos } => {
            let n = read_len(r, cap);
            if pos + n >= buf.len() {
                (ReadView::Pending, Some(n))
            } else {
                (ReadView::Ready { buf, pos: pos + n }, Some(n))
            }
        },
    }
}

/// What a buffered read shows: `None` when a message is needed first.
pub open spec fn buffered(r: ReadView) -> Option<Seq<u8>> {
    match r {
        ReadView::Pending => None,
        _ => Some(r.remaining()),
    }
}

/// The reading side after `amt` buffered bytes are consumed.
pub open spec fn consume_spec(r: ReadView, amt: nat) -> ReadView {
    match r {
        ReadView::Ready { buf, pos } => {
            let p = if pos + amt < buf.len() { pos + amt } else { buf.len() };
            if p == buf.len() {
                ReadView::Pending
            } else {
                ReadView::Ready { buf, pos: p }
            }
        },
        _ => r,
    }
}

/// What an error of the underlying sink does: whether it closes the
/// writing side, and the outcome (`Ok` for a normal close).
pub open spec fn sink_error_spec<E>(e: WsErrorKind<E>) -> (bool, Result<(), StreamError<E>>) {
    match e {
        WsErrorKind::Io(x) => (false, Err(StreamError::Io(x))),
        WsErrorKind::Closed => (true, Ok(())),
        WsErrorKind::AlreadyClosed => (true, Err(StreamError::NotConnected)),
        WsErrorKind::Other(x) => (false, Err(StreamError::Other(x))),
    }
}

impl ReadState {
    /// Moves the read position within the message being read.
    fn set_pos(&mut self, p: usize)
        requires
            *old(self) matches ReadState::Ready { buf, .. } ==> p < buf.len(),
        ensures
            read_view(*final(self)) == match read_view(*old(self)) {
                ReadView::Ready { buf, .. } => ReadView::Ready { buf, pos: p as nat },
                r => r,
            },
            *final(self) matches ReadState::Ready { buf, amt_read } ==> amt_read < buf.len(),
        no_unwind
    {
        if let ReadState::Ready { amt_read, .. } = self {
            *amt_read = p;
        }
    }
}

impl State {
    #[verifier::type_invariant]
    spec fn inv(self) -> bool {
        self.read matches ReadState::Ready { buf, amt_read } ==> amt_read < buf.len()
    }

    /// A fresh byte stream: nothing buffered, writing open.
    pub fn new() -> (s: State)
        ensures
            s@ == (StateView { read: ReadView::Pending, write_closed: false }),
    {
        State { read: ReadState::Pending, write: WriteState::Ready }
    }

    /// Takes the next item of the underlying stream (a message or an error,
    /// or `None` when the stream is fused) while the reading side waits for a
    /// message, that is while `fill_buf` shows `None`.
    pub fn receive<E>(&mut self, item: Item<E>) -> (step: FillStep<E>)
        requires
            old(self)@.read is Pending,
        ensures
            (final(self)@.read, step) == receive_spec(item),
            final(self)@.write_closed == old(self)@.write_closed,
            final(self)@.wf(),
    {
        proof { use_type_invariant(&*self); }
        match item {
            None => {
                self.read = ReadState::Terminated;
                FillStep::Ended
            },
            Some(Ok(msg)) => match msg {
                WsMessageKind::Bytes(msg) => {
                    if msg.len() == 0 {
                        FillStep::Ignored
                    } else {
                        self.read = ReadState::Ready { buf: msg, amt_read: 0 };
                        FillStep::Filled
                    }
                },
                WsMessageKind::Close => {
                    self.read = ReadState::Terminated;
                    FillStep::Ended
                },
                WsMessageKind::Other => FillStep::Ignored,
            },
            Some(Err(e)) => match e {
                WsErrorKind::Io(e) => FillStep::Failed(StreamError::Io(e)),
                WsErrorKind::Closed => {
                    self.read = ReadState::Terminated;
                    FillStep::Ended
                },
                WsErrorKind::AlreadyClosed => {
                    self.read = ReadState::Terminated;
                    FillStep::Failed(StreamError::NotConnected)
                },
                WsErrorKind::Other(e) => FillStep::Failed(StreamError::Other(e)),
            },
        }
    }
    /// Reads buffered bytes into `dst`: as many as fit, from the message
    /// being read. It reads nothing only into an empty `dst` or at the end
    /// of the stream.
    pub fn read(&mut self, dst: &mut [u8]) -> (step: ReadStep)
        ensures
            (final(self)@.read, step.count()) == read_spec(old(self)@.read, old(dst)@.len()),
            final(dst)@ == read_bytes(old(self)@.read, old(dst)@.len()) + old(dst)@.skip(
                read_len(old(self)@.read, old(dst)@.len()) as int,
            ),
            final(self)@.write_closed == old(self)@.write_closed,
            final(self)@.wf(),
    {
        proof { use_type_invariant(&*self); }
        let ghost r = self@.read;
        let ghost d = dst@;
        let n: usize;
        let next: Option<usize>;
        match &self.read {
            ReadState::Pending => {
                return ReadStep::NeedMessage;
            },
            ReadState::Terminated => {
                assert(dst@ =~= read_bytes(r, d.len()) + d.skip(0));
                return ReadStep::Read(0);
            },
            ReadState::Ready { buf, amt_read } => {
                let start = *amt_read;
                let avail = buf.len() - start;
                n = if dst.len() < avail { dst.len() } else { avail };
                let mut i: usize = 0;
                while i < n
                    invariant
                        n <= dst@.len(),
                        start + n <= buf.len(),
                        dst@.len() == d.len(),
                        0 <= i <= n,
                        forall|j: int| 0 <= j < i ==> dst@[j] == buf@[start + j],
                        forall|j: int| i <= j < d.len() ==> dst@[j] == d[j],
                    decreases n - i,
                {
                    dst[i] = buf[start + i];
                    i = i + 1;
                }
                assert(dst@ =~= read_bytes(r, d.len()) + d.skip(n as int));
                next = if n == avail { None } else { Some(start + n) };
            },
        }
        match next {
            None => {
                self.read = ReadState::Pending;
            },
            Some(p) => {
                self.read.set_pos(p);
            },
        }
        ReadStep::Read(n)
    }

    /// The bytes buffered for reading: `None` when a message is to be received
    /// first, and nothing at the end of the stream.
    pub fn fill_buf(&self) -> (out: Option<&[u8]>)
        ensures
            self@.wf(),
            match out {
                None => buffered(self@.read) is None,
                Some(s) => buffered(self@.read) == Some(s@),
            },
    {
        proof { use_type_invariant(self); }
        match &self.read {
            ReadState::Pending => None,
            ReadState::Ready { buf, amt_read } => {
                let s = vstd::slice::slice_subrange(buf.as_slice(), *amt_read, buf.len());
                assert(s@ =~= buf@.skip(*amt_read as int));
                Some(s)
            },
            ReadState::Terminated => {
                let empty: &[u8] = &[];
                assert(empty@ =~= Seq::<u8>::empty());
                Some(empty)
            },
        }
    }

    /// Marks `amt` buffered bytes as read. Past the end of the message, the
    /// whole message is read.
    pub fn consume(&mut self, amt: usize)
        ensures
            final(self)@.read == consume_spec(old(self)@.read, amt as nat),
            final(self)@.write_closed == old(self)@.write_closed,
            final(self)@.wf(),
    {
        proof { use_type_invariant(&*self); }
        let next: Option<usize>;
        match &self.read {
            ReadState::Ready { buf, amt_read } => {
                let len = buf.len();
                let p = if amt < len - *amt_read { *amt_read + amt } else { len };
                next = if p == len { None } else { Some(p) };
            },
            _ => {
                return;
            },
        }
        match next {
            None => {
                self.read = ReadState::Pending;
            },
            Some(p) => {
                self.read.set_pos(p);
            },
        }
    }
    /// Whether a write may go ahead: once the writing side is closed, every
    /// write fails with `NotConnected`.
    pub fn check_writable<E>(&self) -> (r: Result<(), StreamError<E>>)
        ensures
            self@.wf(),
            r == if self@.write_closed {
                Err::<(), StreamError<E>>(StreamError::NotConnected)
            } else {
                Ok(())
            },
    {
        proof { use_type_invariant(self); }
        match self.write {
            WriteState::Ready => Ok(()),
            WriteState::Closed => Err(StreamError::NotConnected),
        }
    }

    /// Takes an error of the underlying sink: a normal close or an
    /// "already closed" closes the writing side.
    fn sink_error<E>(&mut self, e: WsErrorKind<E>) -> (r: Result<(), StreamError<E>>)
        ensures
            final(self)@.read == old(self)@.read,
            final(self)@.write_closed == (old(self)@.write_closed || sink_error_spec(e).0),
            r == sink_error_spec(e).1,
            final(self)@.wf(),
    {
        proof { use_type_invariant(&*self); }
        match e {
            WsErrorKind::Io(e) => Err(StreamError::Io(e)),
            WsErrorKind::Other(e) => Err(StreamError::Other(e)),
            WsErrorKind::Closed => {
                self.write = WriteState::Closed;
                Ok(())
            },
            WsErrorKind::AlreadyClosed => {
                self.write = WriteState::Closed;
                Err(StreamError::NotConnected)
            },
        }
    }

    /// Takes an error of the underlying sink while getting ready for, or
    /// starting, a send. A normal close writes nothing (`Ok(0)`).
    pub fn write_failed<E>(&mut self, e: WsErrorKind<E>) -> (r: Result<usize, StreamError<E>>)
        ensures
            final(self)@.read == old(self)@.read,
            final(self)@.write_closed == (old(self)@.write_closed || sink_error_spec(e).0),
            r == match sink_error_spec(e).1 {
                Ok(()) => Ok(0usize),
                Err(x) => Err(x),
            },
            final(self)@.wf(),
    {
        match self.sink_error(e) {
            Ok(()) => Ok(0),
            Err(x) => Err(x),
        }
    }

    /// A send was started: the write counts the whole buffer of `len` bytes,
    /// carried by one message.
    pub fn write_sent(&self, len: usize) -> (n: usize)
        ensures
            self@.wf(),
            n == len,
    {
        proof { use_type_invariant(self); }
        len
    }

    /// Takes an error of the underlying sink while flushing. A normal close
    /// flushes successfully.
    pub fn flush_failed<E>(&mut self, e: WsErrorKind<E>) -> (r: Result<(), StreamError<E>>)
        ensures
            final(self)@.read == old(self)@.read,
            final(self)@.write_closed == (old(self)@.write_closed || sink_error_spec(e).0),
            r == sink_error_spec(e).1,
            final(self)@.wf(),
    {
        self.sink_error(e)
    }

    /// Closes the writing side; done before the underlying sink is closed.
    pub fn close(&mut self)
        ensures
            final(self)@ == (StateView { write_closed: true, ..old(self)@ }),
            final(self)@.wf(),
    {
        proof { use_type_invariant(&*self); }
        self.write = WriteState::Closed;
    }

    /// Takes an error of the underlying sink while closing it. A normal
    /// close closes successfully.
    pub fn close_failed<E>(&mut self, e: WsErrorKind<E>) -> (r: Result<(), StreamError<E>>)
        ensures
            final(self)@ == old(self)@,
            r == sink_error_spec(e).1,
            final(self)@.wf(),
    {
        proof { use_type_invariant(&*self); }
        match e {
            WsErrorKind::Io(e) => Err(StreamError::Io(e)),
            WsErrorKind::Other(e) => Err(StreamError::Other(e)),
            WsErrorKind::Closed => Ok(()),
            WsErrorKind::AlreadyClosed => Err(StreamError::NotConnected),
        }
    }
}

} // verus!
