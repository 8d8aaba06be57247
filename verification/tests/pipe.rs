use aio::error::{AioError, Kind};
use aio::iostream::{Io, IoReadStream, IoWriteStream, Pipe};
use aio::register::ReadHint;
use aio::script::{ScriptedReader, ScriptedWriter};
use aio::util::MemReader;

#[test]
fn test_pipe() {
    let mut vec = vec![];
    let mut future = Io::new(MemReader::new("hello".to_string().into_bytes())).pipe(&mut vec, 16);
    assert_eq!(future.take(), Some(Ok(())));
    assert_eq!(&vec[..], "hello".as_bytes())
}

#[test]
fn pipe_test_pipe() {
    let mut vec = vec![];
    let mut future = MemReader::new("hello".to_string().into_bytes()).pipe(&mut vec, 1);
    let back = future.take().unwrap().unwrap();
    assert!(back.done());
    assert_eq!(&vec[..], b"hello");
    assert_eq!(back.into_inner(), b"hello".to_vec());
}

#[test]
fn capacity_one_still_delivers_hello() {
    let mut vec = vec![];
    let mut pipe = Pipe::new(Io::new(MemReader::new(b"hello".to_vec())), 1);
    assert!(pipe.run(&mut vec, 64));
    assert_eq!(pipe.take(), Some(Ok(())));
    assert_eq!(vec, b"hello".to_vec());
}

#[test]
fn capacity_one_moves_one_byte_per_round() {
    let mut vec = vec![];
    let mut pipe = Pipe::new(Io::new(MemReader::new(b"hello".to_vec())), 1);
    assert!(!pipe.run(&mut vec, 2));
    assert_eq!(vec, b"he".to_vec());
    assert_eq!(pipe.take(), None);
    assert!(pipe.run(&mut vec, 64));
    assert_eq!(vec, b"hello".to_vec());
}

#[test]
fn capacity_zero_moves_nothing() {
    let mut vec = vec![];
    let mut pipe = Pipe::new(Io::new(MemReader::new(b"hello".to_vec())), 0);
    assert!(!pipe.run(&mut vec, 8));
    assert!(pipe.is_pending());
    assert!(vec.is_empty());
}

#[test]
fn would_block_three_times_then_five_bytes() {
    let block = AioError::from_kind(Kind::WouldBlock);
    let source =
        ScriptedReader::new(vec![Err(block), Err(block), Err(block), Ok(b"12345".to_vec())]);
    let mut vec = vec![];
    let mut pipe = Pipe::new(Io::new(source), 8);
    assert!(pipe.run(&mut vec, 64));
    assert_eq!(pipe.take(), Some(Ok(())));
    assert_eq!(vec, b"12345".to_vec());
    let source = pipe.into_inner();
    assert_eq!(source.handed_out(), b"12345");
    // three suspensions, one read of data, one read that met the end
    assert_eq!(source.attempts(), 5);
}

#[test]
fn would_block_keeps_the_pipe_pending() {
    let block = AioError::from_kind(Kind::WouldBlock);
    let source = ScriptedReader::new(vec![Err(block), Err(block), Err(block), Ok(b"x".to_vec())]);
    let mut vec = vec![];
    let mut pipe = Pipe::new(Io::new(source), 8);
    assert!(pipe.readable(ReadHint::data()));
    assert!(pipe.readable(ReadHint::data()));
    assert!(pipe.readable(ReadHint::data()));
    assert!(pipe.is_pending());
    assert!(pipe.writable(&mut vec));
    assert!(vec.is_empty());
    // the data arrives, and the end of the stream right behind it
    assert!(!pipe.readable(ReadHint::data()));
    assert!(pipe.is_pending());
    assert!(!pipe.writable(&mut vec));
    assert_eq!(vec, b"x".to_vec());
    assert_eq!(pipe.take(), Some(Ok(())));
}

#[test]
fn broken_pipe_fails_the_future_and_stops_the_reads() {
    let source =
        ScriptedReader::new(vec![Ok(b"abcdefgh".to_vec()), Ok(b"ijklmnop".to_vec())]);
    let mut sink =
        Io::new(ScriptedWriter::new(vec![Ok(3), Err(AioError::from_kind(Kind::BrokenPipe))]));
    let mut pipe = Pipe::new(Io::new(source), 4);
    assert!(pipe.run(&mut sink, 64));
    // the failure is recorded: neither callback touches a resource again
    assert!(!pipe.readable(ReadHint::data()));
    assert!(!sink.on_write(&mut pipe));
    let mut sink = sink.into_inner();
    assert!(!pipe.writable(&mut sink));
    let outcome = pipe.take();
    assert_eq!(outcome, Some(Err(AioError::from_kind(Kind::BrokenPipe))));
    assert_eq!(outcome.unwrap().unwrap_err().kind, Kind::BrokenPipe);
    assert_eq!(pipe.take(), None);
    assert_eq!(sink.accepted(), b"abc");
    assert_eq!(sink.attempts(), 2);
    let source = pipe.into_inner();
    assert_eq!(source.attempts(), 1);
    assert_eq!(source.handed_out(), b"abcd");
}

#[test]
fn read_error_fails_the_future() {
    let source = ScriptedReader::new(vec![
        Ok(b"ab".to_vec()),
        Err(AioError::from_kind(Kind::ConnectionReset)),
    ]);
    let mut vec = vec![];
    let mut pipe = Pipe::new(Io::new(source), 16);
    assert!(pipe.run(&mut vec, 4));
    assert_eq!(pipe.take(), Some(Err(AioError::from_kind(Kind::ConnectionReset))));
}

#[test]
fn fragmented_reads_and_writes_keep_the_order() {
    let block = AioError::from_kind(Kind::WouldBlock);
    let source = ScriptedReader::new(vec![
        Ok(b"a".to_vec()),
        Err(block),
        Ok(b"bcd".to_vec()),
        Ok(vec![]),
        Ok(b"efghijk".to_vec()),
        Err(block),
        Ok(b"l".to_vec()),
    ]);
    let mut sink =
        Io::new(ScriptedWriter::new(vec![Ok(1), Ok(2), Err(block), Ok(0), Ok(5), Ok(1)]));
    let mut pipe = Pipe::new(Io::new(source), 3);
    assert!(pipe.run(&mut sink, 64));
    assert_eq!(pipe.take(), Some(Ok(())));
    assert_eq!(sink.into_inner().into_inner(), b"abcdefghijkl".to_vec());
}

#[test]
fn sink_that_closes_completes_the_pipe() {
    let source = ScriptedReader::new(vec![Ok(b"abcdef".to_vec())]);
    let mut sink =
        Io::new(ScriptedWriter::new(vec![Ok(2), Err(AioError::from_kind(Kind::Eof))]));
    let mut pipe = Pipe::new(Io::new(source), 4);
    assert!(pipe.run(&mut sink, 64));
    assert_eq!(pipe.take(), Some(Ok(())));
    assert_eq!(sink.into_inner().accepted(), b"ab");
}

#[test]
fn every_capacity_delivers_the_same_bytes() {
    for capacity in 1..12usize {
        let mut vec = vec![];
        let mut pipe = Pipe::new(Io::new(MemReader::new(b"hello, world".to_vec())), capacity);
        // more rounds than bytes: the pipe is complete whatever the capacity
        assert!(pipe.run(&mut vec, 13));
        assert_eq!(pipe.take(), Some(Ok(())));
        assert_eq!(vec, b"hello, world".to_vec());
    }
}

#[test]
fn blocks_and_bytes_are_used_up_one_round_at_a_time() {
    let block = AioError::from_kind(Kind::WouldBlock);
    let script = vec![Err(block), Err(block), Err(block), Ok(b"12345".to_vec())];
    let source = ScriptedReader::new(script);
    let mut vec = vec![];
    let mut pipe = Pipe::new(Io::new(source), 1);
    // three blocks and five bytes: not done after eight rounds, done after nine
    assert!(!pipe.run(&mut vec, 8));
    assert_eq!(vec, b"12345".to_vec());
    assert!(pipe.run(&mut vec, 1));
    assert_eq!(pipe.take(), Some(Ok(())));
    assert_eq!(vec, b"12345".to_vec());
}
