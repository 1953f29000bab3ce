use std::io;

use stream_ws::state::{FillStep, ReadStep, State, StreamError};
use stream_ws::{WsErrorKind, WsMessageKind};

fn bytes(v: &[u8]) -> Option<Result<WsMessageKind, WsErrorKind<String>>> {
    Some(Ok(WsMessageKind::Bytes(v.to_vec())))
}

#[test]
fn fresh_state_needs_a_message() {
    let mut s = State::new();
    let mut dst = [7u8; 4];
    assert_eq!(s.read(&mut dst), ReadStep::NeedMessage);
    assert_eq!(dst, [7u8; 4]);
    assert!(s.fill_buf().is_none());
    assert!(s.check_writable::<String>().is_ok());
}

#[test]
fn message_is_read_back_in_pieces() {
    let mut s = State::new();
    assert!(matches!(s.receive(bytes(b"hello world")), FillStep::Filled));
    let mut dst = [0u8; 4];
    assert_eq!(s.read(&mut dst), ReadStep::Read(4));
    assert_eq!(&dst, b"hell");
    assert_eq!(s.read(&mut dst), ReadStep::Read(4));
    assert_eq!(&dst, b"o wo");
    let mut big = [9u8; 8];
    assert_eq!(s.read(&mut big), ReadStep::Read(3));
    assert_eq!(&big, b"rld\x09\x09\x09\x09\x09");
    assert_eq!(s.read(&mut big), ReadStep::NeedMessage);
}

#[test]
fn reads_concatenate_to_the_message() {
    let msg: Vec<u8> = (0u8..=200).collect();
    let mut s = State::new();
    s.receive(bytes(&msg));
    let mut out = Vec::new();
    for cap in [1usize, 3, 7, 50, 2, 1000].iter().cycle() {
        let mut dst = vec![0u8; *cap];
        match s.read(&mut dst) {
            ReadStep::Read(n) => out.extend_from_slice(&dst[..n]),
            ReadStep::NeedMessage => break,
        }
    }
    assert_eq!(out, msg);
}

#[test]
fn empty_destination_reads_nothing() {
    let mut s = State::new();
    s.receive(bytes(b"ab"));
    let mut dst: [u8; 0] = [];
    assert_eq!(s.read(&mut dst), ReadStep::Read(0));
    assert_eq!(s.fill_buf(), Some(&b"ab"[..]));
    let mut one = [0u8; 1];
    assert_eq!(s.read(&mut one), ReadStep::Read(1));
}

#[test]
fn empty_message_is_ignored() {
    let mut s = State::new();
    assert!(matches!(s.receive(bytes(b"")), FillStep::Ignored));
    assert!(s.fill_buf().is_none());
    let mut dst = [0u8; 3];
    assert_eq!(s.read(&mut dst), ReadStep::NeedMessage);
    assert!(matches!(s.receive(bytes(b"z")), FillStep::Filled));
    assert_eq!(s.read(&mut dst), ReadStep::Read(1));
    assert_eq!(dst[0], b'z');
}

#[test]
fn several_messages_make_one_stream() {
    let items: Vec<Option<Result<WsMessageKind, WsErrorKind<String>>>> = vec![
        bytes(b"abc"),
        Some(Ok(WsMessageKind::Other)),
        bytes(b""),
        bytes(b"defgh"),
        bytes(b"i"),
        Some(Ok(WsMessageKind::Close)),
        bytes(b"never"),
    ];
    let mut items = items.into_iter();
    let mut s = State::new();
    let mut out = Vec::new();
    let mut dst = [0u8; 2];
    loop {
        match s.read(&mut dst) {
            ReadStep::Read(0) => break,
            ReadStep::Read(n) => out.extend_from_slice(&dst[..n]),
            ReadStep::NeedMessage => {
                s.receive(items.next().unwrap());
            }
        }
    }
    assert_eq!(out, b"abcdefghi".to_vec());
}

#[test]
fn close_message_ends_the_stream() {
    let mut s = State::new();
    assert!(matches!(s.receive::<String>(Some(Ok(WsMessageKind::Close))), FillStep::Ended));
    let mut dst = [5u8; 2];
    assert_eq!(s.read(&mut dst), ReadStep::Read(0));
    assert_eq!(dst, [5u8; 2]);
    assert_eq!(s.fill_buf(), Some(&b""[..]));
    s.consume(10);
    assert_eq!(s.read(&mut dst), ReadStep::Read(0));
}

#[test]
fn fused_stream_ends_the_stream() {
    let mut s = State::new();
    assert!(matches!(s.receive::<String>(None), FillStep::Ended));
    let mut dst = [0u8; 1];
    assert_eq!(s.read(&mut dst), ReadStep::Read(0));
}

#[test]
fn other_messages_are_ignored() {
    let mut fresh = State::new();
    assert!(matches!(fresh.receive::<String>(Some(Ok(WsMessageKind::Other))), FillStep::Ignored));
    assert!(fresh.fill_buf().is_none());
}

#[test]
fn io_error_is_passed_on() {
    let mut s = State::new();
    let e = io::Error::new(io::ErrorKind::BrokenPipe, "pipe");
    match s.receive::<String>(Some(Err(WsErrorKind::Io(e)))) {
        FillStep::Failed(StreamError::Io(e)) => assert_eq!(e.kind(), io::ErrorKind::BrokenPipe),
        other => panic!("unexpected {:?}", other),
    }
    assert!(s.fill_buf().is_none());
}

#[test]
fn normal_close_is_the_end_of_the_stream() {
    let mut s = State::new();
    assert!(matches!(s.receive::<String>(Some(Err(WsErrorKind::Closed))), FillStep::Ended));
    assert_eq!(s.fill_buf(), Some(&b""[..]));
}

#[test]
fn already_closed_ends_reading_with_an_error() {
    let mut s = State::new();
    assert!(matches!(
        s.receive::<String>(Some(Err(WsErrorKind::AlreadyClosed))),
        FillStep::Failed(StreamError::NotConnected)
    ));
    let mut dst = [0u8; 1];
    assert_eq!(s.read(&mut dst), ReadStep::Read(0));
}

#[test]
fn other_error_is_passed_on() {
    let mut s = State::new();
    match s.receive(Some(Err(WsErrorKind::Other("boom".to_string())))) {
        FillStep::Failed(StreamError::Other(e)) => assert_eq!(e, "boom"),
        other => panic!("unexpected {:?}", other),
    }
    assert!(s.fill_buf().is_none());
}

#[test]
fn consume_moves_through_the_message() {
    let mut s = State::new();
    s.receive(bytes(b"abcdef"));
    s.consume(2);
    assert_eq!(s.fill_buf(), Some(&b"cdef"[..]));
    s.consume(0);
    assert_eq!(s.fill_buf(), Some(&b"cdef"[..]));
    s.consume(4);
    assert!(s.fill_buf().is_none());
}

#[test]
fn consume_past_the_end_finishes_the_message() {
    let mut s = State::new();
    s.receive(bytes(b"abcdef"));
    s.consume(3);
    s.consume(usize::MAX);
    assert!(s.fill_buf().is_none());
    let mut p = State::new();
    p.consume(3);
    assert!(p.fill_buf().is_none());
}

#[test]
fn buffered_read_agrees_with_read() {
    let mut a = State::new();
    let mut b = State::new();
    a.receive(bytes(b"0123456789"));
    b.receive(bytes(b"0123456789"));
    for cap in [3usize, 4, 5] {
        let shown = a.fill_buf().unwrap().to_vec();
        let mut dst = vec![0u8; cap];
        let n = match b.read(&mut dst) {
            ReadStep::Read(n) => n,
            ReadStep::NeedMessage => panic!("need message"),
        };
        assert_eq!(&shown[..n], &dst[..n]);
        a.consume(n);
        assert_eq!(a.fill_buf(), b.fill_buf());
    }
    assert!(a.fill_buf().is_none());
}

#[test]
fn write_errors_are_classified() {
    let mut s = State::new();
    let e = io::Error::new(io::ErrorKind::TimedOut, "t");
    assert!(matches!(s.write_failed::<String>(WsErrorKind::Io(e)), Err(StreamError::Io(_))));
    assert!(s.check_writable::<String>().is_ok());
    assert!(matches!(
        s.write_failed(WsErrorKind::Other("x".to_string())),
        Err(StreamError::Other(ref m)) if m == "x"
    ));
    assert!(s.check_writable::<String>().is_ok());
    assert!(matches!(s.write_failed::<String>(WsErrorKind::Closed), Ok(0)));
    assert!(matches!(s.check_writable::<String>(), Err(StreamError::NotConnected)));
}

#[test]
fn write_already_closed_closes_with_an_error() {
    let mut s = State::new();
    assert!(matches!(
        s.write_failed::<String>(WsErrorKind::AlreadyClosed),
        Err(StreamError::NotConnected)
    ));
    assert!(matches!(s.check_writable::<String>(), Err(StreamError::NotConnected)));
}

#[test]
fn flush_errors_are_classified() {
    let mut s = State::new();
    assert!(matches!(s.flush_failed::<String>(WsErrorKind::Closed), Ok(())));
    assert!(matches!(s.check_writable::<String>(), Err(StreamError::NotConnected)));
    let mut t = State::new();
    assert!(matches!(
        t.flush_failed::<String>(WsErrorKind::AlreadyClosed),
        Err(StreamError::NotConnected)
    ));
    let mut u = State::new();
    let e = io::Error::new(io::ErrorKind::Other, "o");
    assert!(matches!(u.flush_failed::<String>(WsErrorKind::Io(e)), Err(StreamError::Io(_))));
    assert!(u.check_writable::<String>().is_ok());
}

#[test]
fn close_closes_the_writing_side() {
    let mut s = State::new();
    s.receive(bytes(b"still readable"));
    s.close();
    assert!(matches!(s.check_writable::<String>(), Err(StreamError::NotConnected)));
    assert_eq!(s.fill_buf(), Some(&b"still readable"[..]));
    assert!(matches!(s.close_failed::<String>(WsErrorKind::Closed), Ok(())));
    assert!(matches!(
        s.close_failed::<String>(WsErrorKind::AlreadyClosed),
        Err(StreamError::NotConnected)
    ));
    assert!(matches!(
        s.close_failed(WsErrorKind::Other(3u8)),
        Err(StreamError::Other(3u8))
    ));
    assert!(matches!(s.check_writable::<String>(), Err(StreamError::NotConnected)));
}

#[test]
fn reading_leaves_writing_alone() {
    let mut s = State::new();
    s.close();
    s.receive(bytes(b"a"));
    let mut d = [0u8; 1];
    s.read(&mut d);
    assert!(matches!(s.check_writable::<String>(), Err(StreamError::NotConnected)));
    let mut t = State::new();
    t.receive::<String>(Some(Err(WsErrorKind::Closed)));
    assert!(t.check_writable::<String>().is_ok());
}

#[test]
fn large_reads_take_whole_messages() {
    let msg: Vec<u8> = (0..1000u32).map(|i| (i % 251) as u8).collect();
    let mut items = vec![bytes(&msg), bytes(b"tail"), None].into_iter();
    let mut s = State::new();
    let mut out = Vec::new();
    let mut dst = vec![0u8; 4096];
    let mut reads = 0;
    loop {
        match s.read(&mut dst) {
            ReadStep::Read(0) => break,
            ReadStep::Read(n) => {
                reads += 1;
                out.extend_from_slice(&dst[..n]);
            }
            ReadStep::NeedMessage => {
                s.receive(items.next().unwrap());
            }
        }
    }
    assert_eq!(reads, 2);
    let mut expected = msg.clone();
    expected.extend_from_slice(b"tail");
    assert_eq!(out, expected);
    assert_eq!(s.read(&mut dst), ReadStep::Read(0));
}
