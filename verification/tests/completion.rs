use aio::error::{AioError, Kind};
use aio::eventstream::{Event, EventStream, StreamOp};
use aio::future::{Future, Resolution};
use aio::net::on_accept;

#[test]
fn a_future_is_pending_until_it_is_resolved() {
    let mut cell: Future<u32> = Future::new();
    assert!(cell.is_pending());
    assert!(!cell.is_resolved());
    assert_eq!(cell.take(), None);
    assert!(cell.is_pending());
    cell.complete(7);
    assert!(cell.is_resolved());
    assert!(!cell.has_failed());
    assert_eq!(cell.take(), Some(Ok(7)));
    assert_eq!(cell.take(), None);
    assert!(cell.is_resolved());
}

#[test]
fn a_failed_future_gives_its_error_once() {
    let mut cell: Future<u32> = Future::new();
    cell.fail(AioError::from_kind(Kind::BrokenPipe));
    assert!(cell.has_failed());
    assert_eq!(cell.take(), Some(Err(AioError::from_kind(Kind::BrokenPipe))));
    assert!(!cell.has_failed());
    assert_eq!(cell.take(), None);
}

#[test]
fn the_first_terminal_event_wins() {
    let mut cell: Future<u32> = Future::new();
    assert!(cell.offer(Resolution::Complete(1)));
    assert!(!cell.offer(Resolution::Fail(AioError::from_kind(Kind::Other))));
    assert!(!cell.offer(Resolution::Complete(2)));
    assert_eq!(cell.take(), Some(Ok(1)));
    assert!(!cell.offer(Resolution::Complete(3)));
    assert_eq!(cell.take(), None);

    let mut cell: Future<u32> = Future::new();
    assert!(cell.offer(Resolution::Fail(AioError::from_kind(Kind::NotConnected))));
    assert!(!cell.offer(Resolution::Complete(2)));
    assert_eq!(cell.take(), Some(Err(AioError::from_kind(Kind::NotConnected))));
}

#[test]
fn a_resolved_cell_is_made_of_an_outcome() {
    let mut done: Future<u8> = Future::resolved(Ok(9));
    assert_eq!(done.take(), Some(Ok(9)));
    let mut failed: Future<u8> = Future::resolved(Err(AioError::from_kind(Kind::Eof)));
    assert!(failed.has_failed());
    assert_eq!(failed.take(), Some(Err(AioError::from_kind(Kind::Eof))));
}

#[test]
fn a_stream_gives_its_values_in_order_and_then_its_end() {
    let mut stream: EventStream<u32> = EventStream::new();
    assert!(stream.is_open());
    assert_eq!(stream.next(), None);
    stream.send(1);
    stream.send(2);
    assert_eq!(stream.next(), Some(Event::Value(1)));
    stream.send(3);
    stream.close();
    assert!(!stream.is_open());
    assert_eq!(stream.next(), Some(Event::Value(2)));
    assert_eq!(stream.next(), Some(Event::Value(3)));
    assert_eq!(stream.next(), Some(Event::Closed));
    assert_eq!(stream.next(), None);
    assert_eq!(stream.next(), None);
}

#[test]
fn a_failed_stream_gives_its_values_and_then_the_error() {
    let mut stream: EventStream<u32> = EventStream::new();
    stream.send(1);
    stream.fail(AioError::from_kind(Kind::ConnectionReset));
    assert_eq!(stream.next(), Some(Event::Value(1)));
    assert_eq!(stream.next(), Some(Event::Failed(AioError::from_kind(Kind::ConnectionReset))));
    assert_eq!(stream.next(), None);
}

#[test]
fn a_stream_that_has_ended_takes_nothing_more() {
    let mut stream: EventStream<u32> = EventStream::new();
    assert!(stream.offer(StreamOp::Send(1)));
    assert!(stream.offer(StreamOp::Close));
    assert!(!stream.offer(StreamOp::Send(2)));
    assert!(!stream.offer(StreamOp::Fail(AioError::from_kind(Kind::Other))));
    assert!(!stream.offer(StreamOp::Close));
    assert_eq!(stream.next(), Some(Event::Value(1)));
    assert_eq!(stream.next(), Some(Event::Closed));
    assert!(!stream.offer(StreamOp::Send(3)));
    assert_eq!(stream.next(), None);
}

#[test]
fn accepted_connections_go_down_the_stream() {
    let mut stream: EventStream<&'static str> = EventStream::new();
    assert_eq!(on_accept(Ok("first"), &mut stream), None);
    assert_eq!(on_accept(Ok("second"), &mut stream), None);
    // nothing more to accept for now: the callback stays, the stream is open
    assert_eq!(on_accept(Err(AioError::from_kind(Kind::WouldBlock)), &mut stream), Some(true));
    assert!(stream.is_open());
    assert_eq!(on_accept(Ok("third"), &mut stream), None);
    let denied = AioError::from_kind(Kind::PermissionDenied);
    assert_eq!(on_accept(Err(denied), &mut stream), Some(false));
    assert_eq!(on_accept(Ok("late"), &mut stream), Some(false));
    assert_eq!(on_accept(Err(AioError::from_kind(Kind::WouldBlock)), &mut stream), Some(true));
    assert_eq!(stream.next(), Some(Event::Value("first")));
    assert_eq!(stream.next(), Some(Event::Value("second")));
    assert_eq!(stream.next(), Some(Event::Value("third")));
    assert_eq!(stream.next(), Some(Event::Failed(denied)));
    assert_eq!(stream.next(), None);
}
