//! What holds of the byte stream across operations.
use vstd::prelude::*;

use crate::kind::{WsErrorKind, WsMessageKind};
use crate::state::{
    buffered, consume_spec, read_bytes, read_len, read_spec, receive_spec, sink_error_spec,
    FillStep, Item, ReadView, StreamError,
};

verus! {

/// The reading side after reads into destinations of sizes `caps`, one after
/// the other, and the bytes they give, concatenated.
pub open spec fn drain(r: ReadView, caps: Seq<nat>) -> (ReadView, Seq<u8>)
    decreases caps.len(),
{
    if caps.len() == 0 {
        (r, Seq::empty())
    } else {
        let next = drain(read_spec(r, caps[0]).0, caps.drop_first());
        (next.0, read_bytes(r, caps[0]) + next.1)
    }
}

/// One read gives the first bytes still to be read, and leaves the rest.
pub proof fn lemma_read_takes_a_prefix(r: ReadView, cap: nat)
    requires
        r.wf(),
    ensures
        read_bytes(r, cap) + read_spec(r, cap).0.remaining() == r.remaining(),
        read_bytes(r, cap).len() == read_len(r, cap),
        read_len(r, cap) <= cap,
        read_len(r, cap) <= r.remaining().len(),
        read_len(r, cap) == cap || read_len(r, cap) == r.remaining().len(),
        read_spec(r, cap).0.wf(),
{
    if let ReadView::Ready { buf, pos } = r {
        let n = read_len(r, cap);
        assert(buf.skip(pos as int).skip(n as int) =~= buf.skip((pos + n) as int));
        assert(r.remaining().take(n as int) + r.remaining().skip(n as int) =~= r.remaining());
        if pos + n >= buf.len() {
            assert(read_spec(r, cap).0.remaining() =~= r.remaining().skip(n as int));
        }
    } else {
        assert(read_bytes(r, cap) =~= Seq::<u8>::empty());
        assert(read_bytes(r, cap) + Seq::<u8>::empty() =~= Seq::<u8>::empty());
    }
}

/// Reads neither lose, repeat nor reorder bytes: whatever reads follow one
/// another, the bytes they give, followed by the bytes still to be read, are
/// the bytes that were to be read before them.
pub proof fn lemma_reads_keep_bytes_in_order(r: ReadView, caps: Seq<nat>)
    requires
        r.wf(),
    ensures
        drain(r, caps).1 + drain(r, caps).0.remaining() == r.remaining(),
        drain(r, caps).0.wf(),
    decreases caps.len(),
{
    if caps.len() > 0 {
        let r1 = read_spec(r, caps[0]).0;
        lemma_read_takes_a_prefix(r, caps[0]);
        lemma_reads_keep_bytes_in_order(r1, caps.drop_first());
        let d = drain(r1, caps.drop_first());
        assert(read_bytes(r, caps[0]) + d.1 + d.0.remaining() =~= read_bytes(r, caps[0]) + (d.1
            + d.0.remaining()));
    }
}

/// Reads into non-empty destinations, at least as many as there are bytes
/// still to be read, give back exactly those bytes, in order.
pub proof fn lemma_reads_give_back_the_message(r: ReadView, caps: Seq<nat>)
    requires
        r.wf(),
        forall|i: int| 0 <= i < caps.len() ==> caps[i] > 0,
        caps.len() >= r.remaining().len(),
    ensures
        drain(r, caps).1 == r.remaining(),
        drain(r, caps).0.remaining().len() == 0,
    decreases caps.len(),
{
    lemma_reads_keep_bytes_in_order(r, caps);
    if caps.len() > 0 {
        let r1 = read_spec(r, caps[0]).0;
        lemma_read_takes_a_prefix(r, caps[0]);
        if r.remaining().len() > 0 {
            assert(read_len(r, caps[0]) >= 1);
        }
        let rest = caps.drop_first();
        assert forall|i: int| 0 <= i < rest.len() implies rest[i] > 0 by {
            assert(rest[i] == caps[i + 1]);
        }
        lemma_reads_give_back_the_message(r1, rest);
        assert(drain(r, caps).1 + drain(r, caps).0.remaining() == r.remaining());
        assert(drain(r, caps).1 + Seq::<u8>::empty() =~= drain(r, caps).1);
        assert(drain(r, caps).0.remaining() =~= Seq::<u8>::empty());
    } else {
        assert(r.remaining() =~= Seq::<u8>::empty());
    }
}

/// A buffered read agrees with a direct read: the bytes a read of `cap`
/// bytes copies are the first bytes that the buffer shows, and consuming
/// that many leaves the reading side as the read does. Both need a message
/// in the same states.
pub proof fn lemma_buffered_read_agrees_with_read(r: ReadView, cap: nat)
    requires
        r.wf(),
    ensures
        buffered(r) is None <==> read_spec(r, cap).1 is None,
        buffered(r) is None <==> r is Pending,
        buffered(r) matches Some(s) ==> s == r.remaining(),
        buffered(r) matches Some(s) ==> s.take(read_len(r, cap) as int) == read_bytes(r, cap),
        buffered(r) is Some ==> read_spec(r, cap).1 == Some(read_len(r, cap)),
        consume_spec(r, read_len(r, cap)) == read_spec(r, cap).0,
{
}

/// Once the stream has ended, reads give nothing and leave it ended, the
/// buffer shows nothing, and consuming changes nothing.
pub proof fn lemma_end_of_stream_is_final(cap: nat, amt: nat)
    ensures
        read_spec(ReadView::Terminated, cap) == (ReadView::Terminated, Some(0nat)),
        read_bytes(ReadView::Terminated, cap) == Seq::<u8>::empty(),
        buffered(ReadView::Terminated) == Some(Seq::<u8>::empty()),
        consume_spec(ReadView::Terminated, amt) == ReadView::Terminated,
{
    assert(read_bytes(ReadView::Terminated, cap) =~= Seq::<u8>::empty());
}

/// Before the end of the stream, a read into a non-empty destination gives
/// at least one byte, and the buffer never shows nothing: a read gives 0,
/// and the buffer shows nothing, exactly at the end of the stream.
pub proof fn lemma_nothing_read_only_at_the_end(r: ReadView, cap: nat)
    requires
        r.wf(),
        cap > 0,
    ensures
        read_spec(r, cap).1 == Some(0nat) <==> r is Terminated,
        buffered(r) == Some(Seq::<u8>::empty()) <==> r is Terminated,
{
    if let ReadView::Ready { buf, pos } = r {
        assert(r.remaining().len() > 0);
        if buffered(r) == Some(Seq::<u8>::empty()) {
            assert(r.remaining().len() == 0);
        }
    }
}

/// A normal close is no error: a close message or a normal close of the
/// connection ends the reading side without error, and on the writing side
/// it closes the stream and the write, flush or close succeeds.
pub proof fn lemma_normal_close_is_no_error<E>()
    ensures
        receive_spec::<E>(Some(Ok(WsMessageKind::Close))) == (
            ReadView::Terminated,
            FillStep::<E>::Ended,
        ),
        receive_spec::<E>(Some(Err(WsErrorKind::Closed))) == (
            ReadView::Terminated,
            FillStep::<E>::Ended,
        ),
        receive_spec::<E>(None) == (ReadView::Terminated, FillStep::<E>::Ended),
        sink_error_spec::<E>(WsErrorKind::Closed) == (true, Ok::<(), StreamError<E>>(())),
{
}

/// On the reading side, the stream ends without error exactly on its end, a
/// close message or a normal close; it is left ended exactly then or on an
/// "already closed"; a message is buffered exactly when it is binary and
/// carries bytes; every other item leaves the reader waiting.
pub proof fn lemma_what_ends_reading<E>(item: Item<E>)
    ensures
        receive_spec(item).1 is Ended <==> (item is None || item == Some(
            Ok::<WsMessageKind, WsErrorKind<E>>(WsMessageKind::Close),
        ) || item matches Some(Err(WsErrorKind::Closed))),
        receive_spec(item).0 is Terminated <==> (receive_spec(item).1 is Ended
            || receive_spec(item) matches (_, FillStep::Failed(StreamError::NotConnected))),
        receive_spec(item).1 is Filled <==> (item matches Some(Ok(WsMessageKind::Bytes(v)))
            && v@.len() > 0),
        receive_spec(item).1 is Filled ==> receive_spec(item).0.remaining().len() > 0,
        item matches Some(Ok(WsMessageKind::Bytes(v))) ==> (v@.len() > 0 ==> receive_spec(
            item,
        ).0.remaining() == v@),
        item matches Some(Ok(_)) ==> !(receive_spec(item).1 is Failed),
        !(receive_spec(item).0 is Terminated) && !(receive_spec(item).1 is Filled)
            ==> receive_spec(item).0 is Pending,
{
    if let Some(Ok(WsMessageKind::Bytes(v))) = item {
        assert(v@.skip(0) =~= v@);
    }
}

/// Consuming drops the first `amt` buffered bytes, or all of them when
/// there are no more; a message consumed to its end is done, and the reader
/// waits for the next one. Without a message buffered, nothing changes.
pub proof fn lemma_consume_drops_bytes(r: ReadView, amt: nat)
    requires
        r.wf(),
    ensures
        consume_spec(r, amt).wf(),
        r is Ready && amt < r.remaining().len() ==> consume_spec(r, amt) is Ready
            && consume_spec(r, amt).remaining() == r.remaining().skip(amt as int),
        r is Ready && amt >= r.remaining().len() ==> consume_spec(r, amt) is Pending,
        !(r is Ready) ==> consume_spec(r, amt) == r,
{
    if let ReadView::Ready { buf, pos } = r {
        if amt < r.remaining().len() {
            assert(buf.skip(pos as int).skip(amt as int) =~= buf.skip((pos + amt) as int));
        }
    }
}

/// An error of the WebSocket is reported alike while reading and while
/// writing: the same error, and it ends the reading side exactly when it
/// closes the writing side. An I/O error and any other error are passed on
/// as they came; an "already closed" is reported as not connected.
pub proof fn lemma_errors_alike_on_both_sides<E>(k: WsErrorKind<E>)
    ensures
        sink_error_spec(k).1 matches Err(x) ==> receive_spec(Some(Err(k))).1 == FillStep::Failed(x),
        sink_error_spec(k).1 is Ok ==> receive_spec(Some(Err(k))).1 is Ended,
        sink_error_spec(k).0 <==> receive_spec(Some(Err(k))).0 is Terminated,
        k matches WsErrorKind::Io(x) ==> sink_error_spec(k).1 == Err::<(), StreamError<E>>(
            StreamError::Io(x),
        ),
        k matches WsErrorKind::Other(x) ==> sink_error_spec(k).1 == Err::<(), StreamError<E>>(
            StreamError::Other(x),
        ),
        k is AlreadyClosed ==> sink_error_spec(k).1 == Err::<(), StreamError<E>>(
            StreamError::NotConnected,
        ),
{
}

/// On the writing side, only a normal close is no error, and only a normal
/// close or an "already closed" closes the writing side.
pub proof fn lemma_what_closes_writing<E>(e: WsErrorKind<E>)
    ensures
        sink_error_spec(e).1 is Ok <==> e is Closed,
        sink_error_spec(e).0 <==> (e is Closed || e is AlreadyClosed),
{
}

/// The bytes that the items of the underlying stream carry, in order, up to
/// the end of the stream (or an error): the payloads of the binary messages.
pub open spec fn payloads<E>(items: Seq<Item<E>>) -> Seq<u8>
    decreases items.len(),
{
    if items.len() == 0 {
        Seq::empty()
    } else {
        match items[0] {
            Some(Ok(WsMessageKind::Bytes(v))) => v@ + payloads(items.drop_first()),
            Some(Ok(WsMessageKind::Other)) => payloads(items.drop_first()),
            _ => Seq::empty(),
        }
    }
}

/// Reads into destinations of sizes `caps`, one after the other, from the
/// reading side `r`, where a reader that waits for a message takes the next
/// of `items` first, as the byte stream reads, up to the first error: the
/// reading side they leave, and the bytes they give.
pub open spec fn run<E>(r: ReadView, items: Seq<Item<E>>, caps: Seq<nat>) -> (ReadView, Seq<u8>)
    decreases items.len() + caps.len(),
{
    if caps.len() == 0 {
        (r, Seq::empty())
    } else if r is Pending {
        if items.len() == 0 {
            (r, Seq::empty())
        } else if receive_spec(items[0]).1 is Failed {
            (receive_spec(items[0]).0, Seq::empty())
        } else {
            run(receive_spec(items[0]).0, items.drop_first(), caps)
        }
    } else {
        let next = run(read_spec(r, caps[0]).0, items, caps.drop_first());
        (next.0, read_bytes(r, caps[0]) + next.1)
    }
}

/// The bytes that the byte stream has yet to give from the reading side
/// `r` and the items still to come.
pub open spec fn to_come<E>(r: ReadView, items: Seq<Item<E>>) -> Seq<u8> {
    if r is Terminated {
        Seq::empty()
    } else {
        r.remaining() + payloads(items)
    }
}

/// Whatever the sizes of the reads, the byte stream gives the bytes still
/// buffered followed by the payloads of the binary messages received, in
/// order: the bytes that reads give are the first of those, none lost,
/// repeated or reordered, and all of them once the reads have reached the
/// end of the stream. Once the stream has ended, reads give nothing and
/// leave it ended.
pub proof fn lemma_reads_give_the_stream_in_order<E>(
    r: ReadView,
    items: Seq<Item<E>>,
    caps: Seq<nat>,
)
    requires
        r.wf(),
        forall|i: int| 0 <= i < items.len() ==> !(#[trigger] receive_spec(items[i]).1 is Failed),
    ensures
        run(r, items, caps).1.len() <= to_come(r, items).len(),
        run(r, items, caps).1 == to_come(r, items).take(run(r, items, caps).1.len() as int),
        run(r, items, caps).0 is Terminated ==> run(r, items, caps).1 == to_come(r, items),
        r is Terminated ==> run(r, items, caps) == (ReadView::Terminated, Seq::<u8>::empty()),
        run(r, items, caps).0.wf(),
    decreases items.len() + caps.len(),
{
    let out = run(r, items, caps).1;
    let total = to_come(r, items);
    if caps.len() == 0 {
        assert(out =~= total.take(0));
    } else if r is Pending {
        if items.len() == 0 {
            assert(out =~= total.take(0));
        } else {
            let rest = items.drop_first();
            assert(!(receive_spec(items[0]).1 is Failed));
            assert forall|i: int| 0 <= i < rest.len() implies !(#[trigger] receive_spec(
                rest[i],
            ).1 is Failed) by {
                assert(rest[i] == items[i + 1]);
                assert(!(receive_spec(items[i + 1]).1 is Failed));
            }
            let r1 = receive_spec(items[0]).0;
            lemma_what_ends_reading(items[0]);
            lemma_reads_give_the_stream_in_order(r1, rest, caps);
            match items[0] {
                Some(Ok(WsMessageKind::Bytes(v))) => {
                    assert(payloads(items) == v@ + payloads(rest));
                    if v@.len() == 0 {
                        assert(total =~= to_come(r1, rest));
                    } else {
                        assert(r1.remaining() =~= v@);
                        assert(total =~= to_come(r1, rest));
                    }
                },
                Some(Ok(WsMessageKind::Other)) => {
                    assert(payloads(items) == payloads(rest));
                    assert(total =~= to_come(r1, rest));
                },
                _ => {
                    assert(r1 is Terminated);
                    assert(total =~= Seq::<u8>::empty());
                },
            }
        }
    } else {
        let r1 = read_spec(r, caps[0]).0;
        let caps1 = caps.drop_first();
        let rb = read_bytes(r, caps[0]);
        lemma_read_takes_a_prefix(r, caps[0]);
        lemma_reads_give_the_stream_in_order(r1, items, caps1);
        let out1 = run(r1, items, caps1).1;
        if r is Ready {
            assert(!(r1 is Terminated));
            assert(total =~= rb + to_come(r1, items));
            assert(out =~= rb + out1);
            assert(total.take(out.len() as int) =~= rb + to_come(r1, items).take(
                out1.len() as int,
            ));
        } else {
            assert(rb =~= Seq::<u8>::empty());
            assert(out =~= Seq::<u8>::empty());
        }
    }
}

/// Reads into non-empty destinations, at least as many as there are bytes
/// to come, give all of them: the bytes still buffered followed by the
/// payloads of the binary messages received up to the end of the stream.
pub proof fn lemma_stream_carries_bytes<E>(r: ReadView, items: Seq<Item<E>>, caps: Seq<nat>)
    requires
        r.wf(),
        forall|i: int| 0 <= i < items.len() ==> !(#[trigger] receive_spec(items[i]).1 is Failed),
        forall|i: int| 0 <= i < caps.len() ==> #[trigger] caps[i] > 0,
        caps.len() >= to_come(r, items).len(),
    ensures
        run(r, items, caps).1 == to_come(r, items),
    decreases items.len() + caps.len(),
{
    lemma_reads_give_the_stream_in_order(r, items, caps);
    if caps.len() == 0 {
        assert(to_come(r, items) =~= Seq::<u8>::empty());
    } else if r is Pending {
        if items.len() == 0 {
            assert(to_come(r, items) =~= Seq::<u8>::empty());
        } else {
            let rest = items.drop_first();
            assert(!(receive_spec(items[0]).1 is Failed));
            assert forall|i: int| 0 <= i < rest.len() implies !(#[trigger] receive_spec(
                rest[i],
            ).1 is Failed) by {
                assert(rest[i] == items[i + 1]);
                assert(!(receive_spec(items[i + 1]).1 is Failed));
            }
            let r1 = receive_spec(items[0]).0;
            lemma_what_ends_reading(items[0]);
            match items[0] {
                Some(Ok(WsMessageKind::Bytes(v))) => {
                    assert(payloads(items) == v@ + payloads(rest));
                    if v@.len() > 0 {
                        assert(r1.remaining() =~= v@);
                    }
                    assert(to_come(r, items) =~= to_come(r1, rest));
                },
                Some(Ok(WsMessageKind::Other)) => {
                    assert(payloads(items) == payloads(rest));
                    assert(to_come(r, items) =~= to_come(r1, rest));
                },
                _ => {
                    assert(r1 is Terminated);
                    assert(to_come(r, items) =~= Seq::<u8>::empty());
                },
            }
            lemma_stream_carries_bytes(r1, rest, caps);
        }
    } else {
        let r1 = read_spec(r, caps[0]).0;
        let caps1 = caps.drop_first();
        lemma_read_takes_a_prefix(r, caps[0]);
        assert(caps[0] > 0);
        if r is Ready {
            assert(r.remaining().len() > 0);
            assert(read_len(r, caps[0]) >= 1);
            assert(!(r1 is Terminated));
            assert(to_come(r, items) =~= read_bytes(r, caps[0]) + to_come(r1, items));
        }
        assert forall|i: int| 0 <= i < caps1.len() implies #[trigger] caps1[i] > 0 by {
            assert(caps1[i] == caps[i + 1]);
        }
        lemma_stream_carries_bytes(r1, items, caps1);
        if r is Terminated {
            assert(run(r, items, caps).1 =~= Seq::<u8>::empty());
        }
    }
}

} // verus!
