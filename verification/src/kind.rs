use vstd::prelude::*;

verus! {

/// `std::io::Error` is carried through the byte stream unchanged.
#[verifier::external_type_specification]
#[verifier::external_body]
pub struct ExIoError(std::io::Error);

/// std's `impl<T> From<T> for T`: converting a value into its own type gives
/// it back unchanged, as std documents ("returns the argument unchanged").
pub assume_specification<A>[ <A as std::convert::From<A>>::from ](a: A) -> (r: A)
    ensures
        r == a,
;

/// std's `impl<T: Clone> From<&[T]> for Vec<T>`: a new vector holding a
/// clone of each item of the slice, in order.
pub assume_specification<'a, A: Clone>[ <Vec<A> as std::convert::From<&'a [A]>>::from ](
    s: &[A],
) -> (r: Vec<A>)
    ensures
        r@.len() == s@.len(),
        forall|i: int| 0 <= i < s@.len() ==> cloned::<A>(s@[i], r@[i]),
;

/// How a WebSocket message is treated by the byte stream.
#[derive(Debug, PartialEq, Eq)]
pub enum WsMessageKind {
    /// Messages considered as payload carriers
    Bytes(Vec<u8>),
    Close,
    /// Messages that will be ignored
    Other,
}

/// How a WebSocket error is treated by the byte stream.
///
/// An error that falls in none of the first three classes is carried as it
/// came, in `Other`, and surfaces as an I/O error of kind `Other` wrapping it.
#[derive(Debug)]
pub enum WsErrorKind<E> {
    Io(std::io::Error),
    /// Normally closed. Won't be considered as an error.
    Closed,
    AlreadyClosed,
    Other(E),
}

/// Classify messages and errors of WebSocket.
pub trait WsMessageHandle<Msg, E> {
    fn message_into_kind(msg: Msg) -> WsMessageKind;

    fn error_into_kind(e: E) -> WsErrorKind<E>;

    /// These bytes will be carried by the `Msg` and sent by the underlying stream.
    fn message_from_bytes<T: Into<Vec<u8>>>(bytes: T) -> Msg;
}

} // verus!
