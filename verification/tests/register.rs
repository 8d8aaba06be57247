use aio::error::{AioError, Kind, ReactorErrorKind};
use aio::iostream::transfer::Transfer;
use aio::iostream::{
    after_read, after_write, incorrect_readable, incorrect_writable, into_continue, read_to,
    settle, write_from, AsyncActionResult, Io, Pipe,
};
use aio::buf::RingBuf;
use aio::constants::BUFFER_SIZE;
use aio::event::ReadinessSet;
use aio::register::{Configured, Evented, Interest, PollOpt, ReadHint, Register, Registration};
use aio::script::{ScriptedReader, ScriptedWriter};
use aio::sys::register::{register, Action, Readiness};
use aio::sys::{IoDesc, IoHandle, Resource};
use aio::util::MemReader;

fn source(fd: i32, bytes: &[u8]) -> Resource<MemReader> {
    Resource::new(IoDesc { fd }, MemReader::new(bytes.to_vec()))
}

#[test]
fn hints_interests_and_options() {
    assert_eq!(ReadHint::data(), ReadHint { data: true, hup: false, error: false });
    assert_eq!(ReadHint::hup(), ReadHint { data: false, hup: true, error: false });
    assert_eq!(ReadHint::error(), ReadHint { data: false, hup: false, error: true });
    assert!(Interest::readable().is_readable());
    assert!(!Interest::readable().is_writable());
    assert!(Interest::writable().is_writable());
    assert!(!Interest::writable().is_readable());
    assert_eq!(Interest::all(), Interest { readable: true, writable: true });
    assert_eq!(PollOpt::edge(), PollOpt::Edge);
    assert_eq!(PollOpt::level(), PollOpt::Level);
    assert_eq!(BUFFER_SIZE, 65536);
}

#[test]
fn a_pipe_registers_for_readability_level_triggered() {
    let reg = Pipe::new(Io::new(source(3, b"hello")), 4).into_registration();
    assert_eq!(reg.cfg(), (Interest::readable(), PollOpt::Level));
    assert_eq!(reg.desc(), &IoDesc { fd: 3 });
    assert_eq!(reg.io().desc().fd, 3);
    let handler = reg.register().ok().unwrap();
    assert_eq!(handler.interest(), Some(Interest::readable()));
    assert_eq!(handler.opt(), Some(PollOpt::Level));
    assert_eq!(handler.desc().fd, 3);
}

#[test]
fn a_sink_registers_for_writability() {
    let sink = Io::new(Resource::new(IoDesc { fd: 4 }, Vec::<u8>::new()));
    let reg = sink.listen(MemReader::new(b"hello".to_vec()).pipe_state());
    assert_eq!(reg.cfg(), (Interest::writable(), PollOpt::Level));
    let mut handler = reg.register().ok().unwrap();
    // the listener writes all it has and is done
    assert_eq!(handler.dispatch(Readiness::Writable), Action::Deregister);
    let reg = handler.into_inner();
    assert_eq!(reg.io.into_inner(), b"hello".to_vec());
    let mut pipe = reg.shared;
    assert!(pipe.take().unwrap().unwrap().done());
}

#[test]
fn a_bad_descriptor_is_refused() {
    let reg = Pipe::new(Io::new(source(-1, b"hello")), 4).into_registration();
    let err = reg.register().err().unwrap();
    assert_eq!(err.error.kind, ReactorErrorKind::OtherError);
}

#[test]
fn a_registration_without_interest_is_refused() {
    let reg = Pipe::new(Io::new(source(5, b"hello")), 4).into_registration();
    let reg = Registration::with_opts(
        reg.io,
        reg.shared,
        reg.read,
        reg.write,
        Interest { readable: false, writable: false },
        PollOpt::edge(),
    );
    assert_eq!(reg.cfg(), (Interest { readable: false, writable: false }, PollOpt::Edge));
    assert!(reg.register().is_err());
}

#[test]
fn the_handler_runs_the_callbacks_of_the_registration() {
    let reg = Pipe::new(Io::new(source(3, b"hello")), 4).into_registration();
    let mut handler = register(reg);
    // four bytes fit, the buffer is full: the callback stays
    assert_eq!(handler.dispatch(Readiness::Readable(ReadHint::data())), Action::Reregister);
    assert!(handler.readable(ReadHint::data()));
    let mut reg = handler.into_inner();
    let mut sink = vec![];
    assert!(reg.shared.borrow_mut().on_write(&mut sink));
    assert_eq!(sink, b"hell".to_vec());
    // the last byte, and then the end of the source
    assert!(!reg.readable(ReadHint::hup()));
    assert!(!reg.shared.borrow_mut().on_write(&mut sink));
    assert_eq!(sink, b"hello".to_vec());
    assert_eq!(reg.shared.borrow_mut().take(), Some(Ok(())));
}

#[test]
fn a_writable_report_on_a_read_registration_aborts_the_transfer() {
    let reg = Pipe::new(Io::new(source(3, b"hello")), 4).into_registration();
    let mut handler = register(reg);
    assert_eq!(handler.dispatch(Readiness::Writable), Action::Deregister);
    assert!(!handler.writable());
    // nothing is read after the defect
    assert_eq!(handler.dispatch(Readiness::Readable(ReadHint::data())), Action::Deregister);
    let mut reg = handler.into_inner();
    let outcome = reg.shared.borrow_mut().take();
    assert_eq!(outcome, Some(Err(incorrect_writable())));
    assert_eq!(reg.io.into_inner().as_bytes(), b"hello");
}

#[test]
fn a_misdirected_pipe_fails_with_the_defect() {
    let mut pipe = Pipe::new(Io::new(MemReader::new(b"hello".to_vec())), 4);
    assert!(!pipe.misdirected());
    assert!(!pipe.is_pending());
    assert!(!pipe.readable(ReadHint::data()));
    let err = pipe.take().unwrap().unwrap_err();
    assert_eq!(err.kind, Kind::Other);
    assert_eq!(err.desc, "Received writable on a readable registration");
    assert_eq!(pipe.into_inner().as_bytes(), b"hello");
}

#[test]
fn a_readable_report_on_a_write_registration_aborts_the_transfer() {
    let sink = Io::new(Resource::new(IoDesc { fd: 4 }, Vec::<u8>::new()));
    let mut handler = register(sink.listen(MemReader::new(b"hello".to_vec()).pipe_state()));
    assert_eq!(handler.dispatch(Readiness::Readable(ReadHint::data())), Action::Deregister);
    assert_eq!(handler.dispatch(Readiness::Writable), Action::Deregister);
    let reg = handler.into_inner();
    assert!(reg.io.into_inner().is_empty());
    let mut pipe = reg.shared;
    let err = pipe.take().unwrap().map(|m| m.into_inner()).unwrap_err();
    assert_eq!(err, incorrect_readable());
    assert_eq!(err.desc, "Received readable on a writable registration");
    assert_eq!(err.kind, Kind::Other);
}

#[test]
fn an_aborted_pipe_keeps_its_first_outcome() {
    let mut pipe = Pipe::new(Io::new(MemReader::new(vec![])), 4);
    let mut sink = vec![];
    assert!(pipe.run(&mut sink, 4));
    pipe.abort(AioError::from_kind(Kind::Other));
    assert!(!pipe.misdirected());
    assert_eq!(pipe.into_future().take(), Some(Ok(())));
}

#[test]
fn errors_settle_into_answers() {
    assert_eq!(settle(AioError::from_kind(Kind::Eof)), Ok(AsyncActionResult::Done));
    assert_eq!(settle(AioError::from_kind(Kind::WouldBlock)), Ok(AsyncActionResult::MoreLater));
    assert_eq!(
        settle(AioError::from_kind(Kind::BrokenPipe)),
        Err(AioError::from_kind(Kind::BrokenPipe))
    );
    assert!(into_continue(Ok(AsyncActionResult::MoreLater)));
    assert!(!into_continue(Ok(AsyncActionResult::Done)));
    assert!(!into_continue(Err(AioError::from_kind(Kind::Other))));
}

#[test]
fn the_read_side_fills_until_the_buffer_is_full() {
    let mut buf = RingBuf::new(4);
    let mut source = ScriptedReader::new(vec![Ok(b"ab".to_vec()), Ok(b"cdef".to_vec())]);
    assert_eq!(read_to(&mut source, &mut buf), Ok(AsyncActionResult::MoreLater));
    assert_eq!(buf.remaining_to_read(), 4);
    assert_eq!(buf.bytes(), b"abcd");
    assert_eq!(source.attempts(), 2);
    // a full buffer is left alone, and the source with it
    assert_eq!(read_to(&mut source, &mut buf), Ok(AsyncActionResult::MoreLater));
    assert_eq!(source.attempts(), 2);
    buf.advance_reader(4);
    assert_eq!(read_to(&mut source, &mut buf), Ok(AsyncActionResult::Done));
    assert_eq!(buf.bytes(), b"ef");
}

#[test]
fn the_read_side_passes_failures_on() {
    let mut buf = RingBuf::new(8);
    let mut source = ScriptedReader::new(vec![
        Ok(b"ab".to_vec()),
        Ok(vec![]),
        Err(AioError::from_kind(Kind::NotConnected)),
    ]);
    // a read of no bytes suspends the side
    assert_eq!(read_to(&mut source, &mut buf), Ok(AsyncActionResult::MoreLater));
    assert_eq!(source.attempts(), 2);
    assert_eq!(read_to(&mut source, &mut buf), Err(AioError::from_kind(Kind::NotConnected)));
    assert_eq!(buf.bytes(), b"ab");
}

#[test]
fn the_write_side_drains_until_the_buffer_is_empty() {
    let mut buf = RingBuf::new(4);
    let mut source = MemReader::new(b"abcd".to_vec());
    read_to(&mut source, &mut buf).unwrap();
    let mut sink = ScriptedWriter::new(vec![Ok(1), Ok(2)]);
    assert_eq!(write_from(&mut buf, &mut sink), Ok(AsyncActionResult::MoreLater));
    assert_eq!(sink.accepted(), b"abcd");
    assert_eq!(sink.attempts(), 3);
    // an empty buffer is left alone, and the sink with it
    assert_eq!(write_from(&mut buf, &mut sink), Ok(AsyncActionResult::MoreLater));
    assert_eq!(sink.attempts(), 3);
}

#[test]
fn the_write_side_passes_failures_on() {
    let mut buf = RingBuf::new(4);
    let mut source = MemReader::new(b"abcd".to_vec());
    read_to(&mut source, &mut buf).unwrap();
    let mut sink = ScriptedWriter::new(vec![
        Ok(1),
        Ok(0),
        Err(AioError::from_kind(Kind::Eof)),
        Err(AioError::from_kind(Kind::BrokenPipe)),
    ]);
    assert_eq!(write_from(&mut buf, &mut sink), Ok(AsyncActionResult::MoreLater));
    assert_eq!(write_from(&mut buf, &mut sink), Ok(AsyncActionResult::Done));
    assert_eq!(write_from(&mut buf, &mut sink), Err(AioError::from_kind(Kind::BrokenPipe)));
    assert_eq!(sink.accepted(), b"a");
    assert_eq!(buf.bytes(), b"bcd");
}

#[test]
fn one_raw_read_at_a_time() {
    let mut buf = RingBuf::new(4);
    buf.mut_bytes()[..2].copy_from_slice(b"ab");
    assert_eq!(after_read(&mut buf, Ok(2)), None);
    assert_eq!(buf.bytes(), b"ab");
    assert_eq!(after_read(&mut buf, Ok(0)), Some(Ok(AsyncActionResult::MoreLater)));
    assert_eq!(
        after_read(&mut buf, Err(AioError::from_kind(Kind::Eof))),
        Some(Ok(AsyncActionResult::Done))
    );
    assert_eq!(after_read(&mut buf, Ok(2)), Some(Ok(AsyncActionResult::MoreLater)));
    assert!(buf.is_full());
    assert_eq!(after_write(&mut buf, Ok(1)), None);
    assert_eq!(after_write(&mut buf, Ok(0)), Some(Ok(AsyncActionResult::MoreLater)));
    assert_eq!(
        after_write(&mut buf, Err(AioError::from_kind(Kind::InvalidInput))),
        Some(Err(AioError::from_kind(Kind::InvalidInput)))
    );
    assert_eq!(after_write(&mut buf, Ok(9)), Some(Ok(AsyncActionResult::MoreLater)));
    assert!(buf.is_empty());
}

#[test]
fn a_transfer_driven_one_raw_call_at_a_time() {
    let mut transfer = Transfer::new(4);
    assert!(transfer.is_pending());
    assert_eq!(transfer.buffered(), 0);
    assert!(transfer.wants_read());
    assert!(!transfer.wants_write());
    assert_eq!(transfer.write_region(), b"");
    // the caller reads three bytes into the free region
    transfer.read_region()[..3].copy_from_slice(b"abc");
    assert_eq!(transfer.take_read(Ok(3)), None);
    assert_eq!(transfer.buffered(), 3);
    // the next read would block: the read callback stays
    assert_eq!(transfer.take_read(Err(AioError::from_kind(Kind::WouldBlock))), Some(true));
    // the caller writes two of them
    assert_eq!(transfer.write_region(), b"abc");
    assert_eq!(transfer.take_write(Ok(2)), None);
    assert_eq!(transfer.write_region(), b"c");
    assert_eq!(transfer.take_write(Err(AioError::from_kind(Kind::WouldBlock))), Some(true));
    // the source ends: the read callback goes, the pipe waits for the sink
    assert_eq!(transfer.take_read(Err(AioError::from_kind(Kind::Eof))), Some(false));
    assert!(transfer.is_pending());
    assert_eq!(transfer.take_read(Ok(1)), Some(false));
    assert_eq!(transfer.buffered(), 1);
    // the last byte goes out: the pipe is complete
    assert_eq!(transfer.take_write(Ok(1)), Some(false));
    assert!(!transfer.is_pending());
    assert_eq!(transfer.take_write(Ok(1)), Some(false));
    assert!(!transfer.wants_read());
    assert!(!transfer.wants_write());
    assert_eq!(transfer.take(), Some(Ok(())));
    assert_eq!(transfer.take(), None);
}

#[test]
fn a_transfer_records_how_each_side_ended() {
    let mut transfer = Transfer::new(4);
    assert!(transfer.finish_read(Ok(AsyncActionResult::MoreLater)));
    assert!(transfer.finish_write(Ok(AsyncActionResult::MoreLater)));
    assert!(!transfer.finish_read(Ok(AsyncActionResult::Done)));
    // nothing was in flight: the pipe completed at once
    assert!(!transfer.is_pending());
    assert!(!transfer.finish_write(Err(AioError::from_kind(Kind::BrokenPipe))));
    assert_eq!(transfer.into_future().take(), Some(Ok(())));

    let mut transfer = Transfer::new(4);
    assert!(!transfer.finish_write(Err(AioError::from_kind(Kind::BrokenPipe))));
    assert!(!transfer.finish_read(Ok(AsyncActionResult::Done)));
    transfer.abort(AioError::from_kind(Kind::Other));
    assert_eq!(transfer.take(), Some(Err(AioError::from_kind(Kind::BrokenPipe))));

    let mut transfer = Transfer::new(4);
    transfer.abort(AioError::from_kind(Kind::Other));
    assert_eq!(transfer.take_read(Ok(1)), Some(false));
    assert_eq!(transfer.take_write(Ok(1)), Some(false));
    assert_eq!(transfer.take(), Some(Err(AioError::from_kind(Kind::Other))));
}

#[test]
fn a_direction_of_a_descriptor_is_held_once() {
    let mut set = ReadinessSet::new();
    let fd = IoDesc { fd: 3 };
    assert_eq!(set.holds(&fd), Interest { readable: false, writable: false });
    assert!(set.watch(&fd, Interest::readable()).is_ok());
    // the read direction is taken, the write direction is free
    assert!(set.watch(&fd, Interest::readable()).is_err());
    assert!(set.watch(&fd, Interest::all()).is_err());
    assert_eq!(set.holds(&fd), Interest::readable());
    assert!(set.watch(&fd, Interest::writable()).is_ok());
    assert_eq!(set.holds(&fd), Interest::all());
    assert!(set.watch(&fd, Interest::writable()).is_err());
    // another descriptor is another matter
    assert!(set.watch(&IoDesc { fd: 4 }, Interest::all()).is_ok());
    set.unwatch(&fd, Interest::readable());
    assert_eq!(set.holds(&fd), Interest::writable());
    assert!(set.watch(&fd, Interest::readable()).is_ok());
    set.unwatch(&fd, Interest::all());
    assert_eq!(set.holds(&fd), Interest { readable: false, writable: false });
    assert_eq!(set.holds(&IoDesc { fd: 4 }), Interest::all());
}

#[test]
fn what_cannot_be_watched_is_refused() {
    let mut set = ReadinessSet::new();
    let err = set.watch(&IoDesc { fd: -1 }, Interest::readable()).unwrap_err();
    assert_eq!(err.error.kind, ReactorErrorKind::OtherError);
    let nothing = Interest { readable: false, writable: false };
    assert!(set.watch(&IoDesc { fd: 3 }, nothing).is_err());
    assert_eq!(set.holds(&IoDesc { fd: 3 }), nothing);
    set.unwatch(&IoDesc { fd: 9 }, Interest::all());
    assert_eq!(set.holds(&IoDesc { fd: 9 }), nothing);
}

#[test]
fn a_handler_is_watched_until_its_callback_is_finished() {
    let mut set = ReadinessSet::new();
    let reg = Pipe::new(Io::new(source(3, b"hello")), 8).into_registration();
    let mut handler = set.submit(reg).ok().unwrap();
    assert_eq!(set.holds(&IoDesc { fd: 3 }), Interest::readable());
    // a second pipe out of the same descriptor is a double registration
    let twice = Pipe::new(Io::new(source(3, b"again")), 8).into_registration();
    assert!(set.submit(twice).is_err());
    // a sink on the same descriptor is not
    let sink = Io::new(Resource::new(IoDesc { fd: 3 }, Vec::<u8>::new()));
    let listener = sink.listen(MemReader::new(b"x".to_vec()).pipe_state());
    assert!(set.submit(listener).is_ok());
    assert_eq!(set.holds(&IoDesc { fd: 3 }), Interest::all());
    // the source is read to its end: the callback is finished
    let action = handler.dispatch(Readiness::Readable(ReadHint::data()));
    assert_eq!(action, Action::Deregister);
    set.settle(&handler, action);
    assert_eq!(set.holds(&IoDesc { fd: 3 }), Interest::writable());
    set.settle(&handler, Action::Reregister);
    assert_eq!(set.holds(&IoDesc { fd: 3 }), Interest::writable());
}
