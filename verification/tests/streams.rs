use aio::error::{AioError, Kind};
use aio::iostream::{Io, IoReadStream, IoWriteStream};
use aio::script::{ScriptedReader, ScriptedWriter};
use aio::sys::rcmut::RcMut;
use aio::sys::{IoDesc, IoHandle, IoRead, IoWrite, Resource};
use aio::util::MemReader;

#[test]
fn a_mem_reader_hands_out_its_bytes_front_to_back() {
    let mut reader = MemReader::new(b"hello".to_vec());
    assert!(!reader.done());
    assert_eq!(reader.as_bytes(), b"hello");
    let mut buf = [0u8; 2];
    assert_eq!(reader.read(&mut buf), Ok(2));
    assert_eq!(&buf, b"he");
    assert_eq!(reader.as_bytes(), b"llo");
    reader.skip(1);
    assert_eq!(reader.as_bytes(), b"lo");
    let mut buf = [9u8; 4];
    assert_eq!(reader.read(&mut buf), Ok(2));
    assert_eq!(&buf, &[b'l', b'o', 9, 9]);
    assert!(reader.done());
    assert_eq!(reader.as_bytes(), b"");
    assert_eq!(reader.read(&mut buf), Err(AioError::from_kind(Kind::Eof)));
    assert_eq!(reader.into_inner(), b"hello".to_vec());
}

#[test]
fn skipping_past_the_end_stops_at_the_end() {
    let mut reader = MemReader::new(b"abc".to_vec());
    reader.skip(100);
    assert!(reader.done());
    assert_eq!(reader.as_bytes(), b"");
    assert_eq!(reader.into_inner(), b"abc".to_vec());
}

#[test]
fn an_empty_mem_reader_is_done_at_once() {
    let reader = MemReader::new(vec![]);
    assert!(reader.done());
    let mut sink = vec![];
    let mut future = reader.pipe(&mut sink, 1);
    assert!(future.take().unwrap().unwrap().done());
    assert!(sink.is_empty());
}

#[test]
fn a_mem_reader_given_no_opportunity_stays_pending() {
    let mut sink = vec![];
    let mut future = MemReader::new(b"abc".to_vec()).pipe(&mut sink, 0);
    assert!(future.is_pending());
    assert_eq!(future.take().map(|r| r.map(|m| m.into_inner())), None);
    assert!(sink.is_empty());
}

#[test]
fn a_mem_pipe_goes_on_where_the_writer_stopped() {
    let block = AioError::from_kind(Kind::WouldBlock);
    let mut sink = ScriptedWriter::new(vec![Ok(2), Err(block), Ok(0), Ok(1)]);
    let mut pipe = MemReader::new(b"hello".to_vec()).pipe_state();
    assert!(pipe.is_pending());
    // two bytes, then the writer would block
    assert!(pipe.on_write(&mut sink));
    assert_eq!(sink.accepted(), b"he");
    // a write of no bytes suspends as well
    assert!(pipe.on_write(&mut sink));
    assert_eq!(sink.accepted(), b"he");
    // one byte, and then the script is over and the writer takes the rest
    assert!(!pipe.on_write(&mut sink));
    assert_eq!(sink.accepted(), b"hello");
    assert!(!pipe.is_pending());
    assert!(!pipe.on_write(&mut sink));
    let back = pipe.take().unwrap().unwrap();
    assert!(back.done());
    assert_eq!(pipe.take().map(|r| r.is_ok()), None);
    assert_eq!(sink.attempts(), 5);
}

#[test]
fn a_mem_pipe_fails_with_the_error_of_the_writer() {
    let mut sink =
        ScriptedWriter::new(vec![Ok(1), Err(AioError::from_kind(Kind::ConnectionAborted))]);
    let mut future = MemReader::new(b"hello".to_vec()).pipe(&mut Io::new(sink), 4);
    assert!(future.has_failed());
    assert_eq!(
        future.take().map(|r| r.map(|m| m.into_inner())),
        Some(Err(AioError::from_kind(Kind::ConnectionAborted)))
    );
    sink = ScriptedWriter::new(vec![Ok(1), Err(AioError::from_kind(Kind::Eof))]);
    let mut pipe = MemReader::new(b"hello".to_vec()).pipe_state();
    assert!(!pipe.on_write(&mut sink));
    // a writer that closes completes the pipe with the source as far as it got
    let back = pipe.take().unwrap().unwrap();
    assert_eq!(back.as_bytes(), b"ello");
}

#[test]
fn an_aborted_mem_pipe_fails_once() {
    let mut pipe = MemReader::new(b"hello".to_vec()).pipe_state();
    pipe.abort(AioError::from_kind(Kind::Other));
    pipe.abort(AioError::from_kind(Kind::BrokenPipe));
    let mut sink = vec![];
    assert!(!pipe.on_write(&mut sink));
    assert!(sink.is_empty());
    assert_eq!(
        pipe.take().map(|r| r.map(|m| m.into_inner())),
        Some(Err(AioError::from_kind(Kind::Other)))
    );
}

#[test]
fn a_vector_pipes_into_a_vector_and_comes_back() {
    let mut sink = b"> ".to_vec();
    let mut future = b"hello".to_vec().pipe(&mut sink, 1);
    assert_eq!(future.take(), Some(Ok(b"hello".to_vec())));
    assert_eq!(sink, b"> hello".to_vec());
}

#[test]
fn a_string_pipes_into_a_vector_and_comes_back() {
    let mut sink = vec![];
    let mut future = "h\u{e9}llo \u{4e16}\u{754c}".to_string().pipe(&mut sink, 1);
    assert_eq!(future.take(), Some(Ok("h\u{e9}llo \u{4e16}\u{754c}".to_string())));
    assert_eq!(sink, "h\u{e9}llo \u{4e16}\u{754c}".as_bytes().to_vec());
}

#[test]
fn a_string_that_was_not_piped_out_stays_pending() {
    let mut sink = Io::new(ScriptedWriter::new(vec![Ok(1), Ok(0), Ok(0)]));
    let mut future = "hello".to_string().pipe(&mut sink, 2);
    assert!(future.is_pending());
    assert_eq!(future.take(), None);
    assert_eq!(sink.into_inner().accepted(), b"h");
}

#[test]
fn a_resource_pipes_into_a_resource() {
    let block = AioError::from_kind(Kind::WouldBlock);
    let source = Io::new(ScriptedReader::new(vec![
        Ok(b"ab".to_vec()),
        Err(block),
        Ok(b"cdefg".to_vec()),
    ]));
    let mut sink = Io::new(ScriptedWriter::new(vec![Ok(1), Err(block), Ok(3)]));
    let mut future = source.pipe(&mut sink, 16);
    assert_eq!(future.take(), Some(Ok(())));
    assert_eq!(sink.into_inner().into_inner(), b"abcdefg".to_vec());
}

#[test]
fn a_resource_that_fails_fails_the_pipe() {
    let source = Io::new(ScriptedReader::new(vec![
        Ok(b"ab".to_vec()),
        Err(AioError::from_kind(Kind::PermissionDenied)),
    ]));
    let mut sink: Vec<u8> = vec![];
    let mut future = source.pipe(&mut sink, 16);
    assert_eq!(future.take(), Some(Err(AioError::from_kind(Kind::PermissionDenied))));
}

#[test]
fn a_sink_hands_its_writer_to_the_listener_once_per_opportunity() {
    let mut sink = Io::new(ScriptedWriter::new(vec![Ok(2), Ok(0), Ok(1), Ok(0)]));
    let mut pipe = MemReader::new(b"hello".to_vec()).pipe_state();
    assert!(sink.on_write(&mut pipe));
    assert!(sink.on_write(&mut pipe));
    let sink = sink.into_inner();
    assert_eq!(sink.accepted(), b"hel");
    assert_eq!(sink.attempts(), 4);
}

#[test]
fn a_scripted_reader_follows_its_script() {
    let mut reader = ScriptedReader::new(vec![
        Ok(b"abc".to_vec()),
        Err(AioError::from_kind(Kind::WouldBlock)),
        Ok(vec![]),
        Ok(b"d".to_vec()),
    ]);
    assert!(!reader.is_exhausted());
    let mut buf = [0u8; 2];
    assert_eq!(reader.read(&mut buf), Ok(2));
    assert_eq!(&buf, b"ab");
    assert_eq!(reader.read(&mut buf), Ok(1));
    assert_eq!(&buf, b"cb");
    assert_eq!(reader.read(&mut buf), Err(AioError::from_kind(Kind::WouldBlock)));
    assert_eq!(reader.read(&mut buf), Ok(0));
    assert_eq!(reader.read(&mut buf), Ok(1));
    assert!(reader.is_exhausted());
    assert_eq!(reader.read(&mut buf), Err(AioError::from_kind(Kind::Eof)));
    assert_eq!(reader.read(&mut buf), Err(AioError::from_kind(Kind::Eof)));
    assert_eq!(reader.attempts(), 7);
    assert_eq!(reader.handed_out(), b"abcd");
}

#[test]
fn a_scripted_writer_follows_its_script() {
    let mut writer = ScriptedWriter::new(vec![
        Ok(2),
        Err(AioError::from_kind(Kind::WouldBlock)),
        Ok(0),
        Ok(100),
    ]);
    assert_eq!(writer.write(b"abc"), Ok(2));
    assert_eq!(writer.write(b"c"), Err(AioError::from_kind(Kind::WouldBlock)));
    assert_eq!(writer.write(b"c"), Ok(0));
    assert_eq!(writer.write(b"cd"), Ok(2));
    assert_eq!(writer.write(b"efgh"), Ok(4));
    assert_eq!(writer.attempts(), 5);
    assert_eq!(writer.accepted(), b"abcdefgh");
    assert_eq!(writer.into_inner(), b"abcdefgh".to_vec());
}

#[test]
fn a_vector_takes_every_byte() {
    let mut sink = b"ab".to_vec();
    assert_eq!(sink.write(b"cd"), Ok(2));
    assert_eq!(sink.write(b""), Ok(0));
    assert_eq!(sink, b"abcd".to_vec());
}

#[test]
fn the_shared_cell_has_one_owner_at_a_time() {
    let mut cell = RcMut::new(vec![1u8]);
    cell.borrow_mut().push(2);
    assert_eq!(cell.borrow(), &vec![1u8, 2]);
    cell.borrow_mut().push(3);
    assert_eq!(cell.into_inner(), vec![1u8, 2, 3]);
}

#[test]
fn a_resource_carries_its_descriptor() {
    let mut res = Resource::new(IoDesc { fd: 7 }, MemReader::new(b"xy".to_vec()));
    assert_eq!(res.desc(), &IoDesc { fd: 7 });
    let mut buf = [0u8; 4];
    assert_eq!(res.read(&mut buf), Ok(2));
    assert_eq!(&buf[..2], b"xy");
    assert!(res.into_inner().done());
    let mut out = Resource::new(IoDesc { fd: 8 }, Vec::<u8>::new());
    assert_eq!(out.write(b"abc"), Ok(3));
    assert_eq!(out.desc().fd, 8);
    assert_eq!(out.into_inner(), b"abc".to_vec());
}

#[test]
fn the_step_of_a_mem_pipe_decides_on_each_result() {
    let block = AioError::from_kind(Kind::WouldBlock);
    let mut pipe = MemReader::new(b"hello".to_vec()).pipe_state();
    assert_eq!(pipe.bytes(), Some(&b"hello"[..]));
    assert!(!pipe.finish_if_done());
    // a write of no bytes, and would-block, keep the callback and change nothing
    assert_eq!(pipe.take_write(Ok(0)), Some(true));
    assert_eq!(pipe.take_write(Err(block)), Some(true));
    assert_eq!(pipe.bytes(), Some(&b"hello"[..]));
    // a write of some bytes asks for another
    assert_eq!(pipe.take_write(Ok(2)), None);
    assert_eq!(pipe.bytes(), Some(&b"llo"[..]));
    assert!(pipe.is_pending());
    // a write of all that is left completes the pipe with the source
    assert_eq!(pipe.take_write(Ok(3)), Some(false));
    assert_eq!(pipe.bytes(), None);
    let back = pipe.take().unwrap().unwrap();
    assert!(back.done());
    assert_eq!(back.into_inner(), b"hello".to_vec());
}

#[test]
fn the_step_of_a_mem_pipe_ends_on_eof_and_fails_on_errors() {
    let mut pipe = MemReader::new(b"hello".to_vec()).pipe_state();
    assert_eq!(pipe.take_write(Ok(1)), None);
    assert_eq!(pipe.take_write(Err(AioError::from_kind(Kind::Eof))), Some(false));
    assert_eq!(pipe.take().unwrap().unwrap().as_bytes(), b"ello");

    let mut pipe = MemReader::new(b"hello".to_vec()).pipe_state();
    let broken = AioError::from_kind(Kind::BrokenPipe);
    assert_eq!(pipe.take_write(Err(broken)), Some(false));
    assert_eq!(pipe.bytes(), None);
    assert_eq!(pipe.take().map(|r| r.map(|m| m.into_inner())), Some(Err(broken)));

    // more than is left is all that is left
    let mut pipe = MemReader::new(b"hi".to_vec()).pipe_state();
    assert_eq!(pipe.take_write(Ok(9)), Some(false));
    assert!(pipe.take().unwrap().unwrap().done());
}

#[test]
fn a_drained_source_completes_its_pipe_without_a_write() {
    let mut pipe = MemReader::new(vec![]).pipe_state();
    assert_eq!(pipe.bytes(), Some(&b""[..]));
    assert!(pipe.finish_if_done());
    assert!(!pipe.is_pending());
    assert_eq!(pipe.bytes(), None);
    let mut sink = ScriptedWriter::new(vec![]);
    let mut empty = MemReader::new(vec![]).pipe_state();
    assert!(!empty.on_write(&mut sink));
    assert_eq!(sink.attempts(), 0);
    assert!(empty.take().unwrap().unwrap().done());
}
