//! The pump: the two loops that carry bytes from a readable resource into
//! the ring buffer and from the ring buffer into a writable one.

pub mod memory;
pub mod transfer;

use vstd::prelude::*;
use crate::buf::{Layout, Ring, RingBuf};
use crate::constants::BUFFER_SIZE;
use crate::error::{is_signal, AioError, AioResult, Kind};
use crate::future::AioFuture;
use crate::iostream::transfer::{
    lemma_carried_chain, lemma_carried_nothing, lemma_carried_read, lemma_carried_write,
    lemma_rounds_none, lemma_rounds_push, Round, Transfer, TransferView,
};
use crate::register::{
    Evented, Interest, PollOpt, ReadCallback, ReadHint, Registration, WriteCallback,
};
use crate::sys::rcmut::RcMut;
use crate::sys::{IoRead, IoWrite};

verus! {

/// How one run of a side of the pump ended, when it did not fail.
#[derive(Copy, Clone, Debug, PartialEq, Eq, Structural)]
pub enum AsyncActionResult {
    /// The side is finished: the resource reported the end of the stream.
    Done,
    /// The side can do no more for now and asks to be called again.
    MoreLater,
}

/// What an error of a raw read or write means to the pump: `Eof` ends the
/// side cleanly, `WouldBlock` suspends it, every other kind is a failure of
/// the transfer and is passed on as it came.
pub open spec fn spec_settle(err: AioError) -> AioResult<AsyncActionResult> {
    match err.kind {
        Kind::Eof => Ok(AsyncActionResult::Done),
        Kind::WouldBlock => Ok(AsyncActionResult::MoreLater),
        _ => Err(err),
    }
}

/// Whether `res` is a way in which a run of a side of the pump can end: an
/// error that it returns is never one of the two signals.
pub open spec fn answers(res: AioResult<AsyncActionResult>) -> bool {
    res matches Err(e) ==> !is_signal(e.kind)
}

/// Turns an error of a raw read or write into the pump's answer.
pub fn settle(err: AioError) -> (res: AioResult<AsyncActionResult>)
    ensures
        res == spec_settle(err),
        res matches Err(e) ==> e == err && !is_signal(e.kind),
        res is Err <==> !is_signal(err.kind),
{
    match err.kind {
        Kind::Eof => Ok(AsyncActionResult::Done),
        Kind::WouldBlock => Ok(AsyncActionResult::MoreLater),
        _ => Err(err),
    }
}

/// What the read side does after one raw read that gave `res`, with the
/// cursors at `layout` before it: `None` stands for reading again.
pub open spec fn spec_after_read(layout: Layout, res: AioResult<usize>) -> Option<
    AioResult<AsyncActionResult>,
> {
    match res {
        Ok(n) => if n == 0 || layout.commit(n as nat).write_room() == 0 {
            Some(Ok(AsyncActionResult::MoreLater))
        } else {
            None
        },
        Err(err) => Some(spec_settle(err)),
    }
}

/// What the write side does after one raw write that gave `res`, with the
/// cursors at `layout` before it: `None` stands for writing again.
pub open spec fn spec_after_write(layout: Layout, res: AioResult<usize>) -> Option<
    AioResult<AsyncActionResult>,
> {
    match res {
        Ok(n) => if n == 0 || layout.consume(n as nat).len == 0 {
            Some(Ok(AsyncActionResult::MoreLater))
        } else {
            None
        },
        Err(err) => Some(spec_settle(err)),
    }
}

/// One raw read of a run of the read side: the resource as the read left
/// it, the free region of the buffer as the read left it, and the result.
pub struct ReadAnswer<I> {
    pub io: I,
    pub region: Seq<u8>,
    pub res: AioResult<usize>,
}

/// One raw write of a run of the write side: the resource as the write left
/// it, and the result.
pub struct WriteAnswer<W> {
    pub io: W,
    pub res: AioResult<usize>,
}

/// The buffer after the read side has taken the raw reads of `log`.
pub open spec fn read_ring<I>(start: Ring, log: Seq<ReadAnswer<I>>) -> Ring
    decreases log.len(),
{
    if log.len() == 0 {
        start
    } else {
        read_ring(start, log.drop_last()).filled(log.last().region, log.last().res)
    }
}

/// The resource after the raw reads of `log`.
pub open spec fn read_source<I>(io: I, log: Seq<ReadAnswer<I>>) -> I {
    if log.len() == 0 {
        io
    } else {
        log.last().io
    }
}

/// The buffer after the write side has taken the raw writes of `log`.
pub open spec fn write_ring<W>(start: Ring, log: Seq<WriteAnswer<W>>) -> Ring
    decreases log.len(),
{
    if log.len() == 0 {
        start
    } else {
        write_ring(start, log.drop_last()).drained(log.last().res)
    }
}

/// The resource after the raw writes of `log`.
pub open spec fn write_sink<W>(io: W, log: Seq<WriteAnswer<W>>) -> W {
    if log.len() == 0 {
        io
    } else {
        log.last().io
    }
}

/// That the `i`-th raw read of `log` was a read, by the resource as the read
/// before had left it, into the free region of the buffer as it stood then.
pub open spec fn read_made<I: IoRead>(io: I, start: Ring, log: Seq<ReadAnswer<I>>, i: int) -> bool {
    let ring = read_ring(start, log.take(i));
    &&& read_source(io, log.take(i)).reads(ring.write_area(), &log[i].io, log[i].region, log[i].res)
    &&& log[i].region.len() == ring.write_area().len()
}

/// That the `i`-th raw write of `log` was a write, to the resource as the
/// write before had left it, of the filled region of the buffer as it stood
/// then.
pub open spec fn write_made<W: IoWrite>(
    io: W,
    start: Ring,
    log: Seq<WriteAnswer<W>>,
    i: int,
) -> bool {
    write_sink(io, log.take(i)).writes(
        write_ring(start, log.take(i)).read_area(),
        &log[i].io,
        log[i].res,
    )
}

/// A run of the read side that is still going: every raw read so far was
/// made as `read_made` says, and asked for another.
#[verifier::opaque]
pub open spec fn read_going<I: IoRead>(io: I, start: Ring, log: Seq<ReadAnswer<I>>) -> bool {
    forall|i: int|
        0 <= i < log.len() ==> {
            &&& read_made(io, start, log, i)
            &&& spec_after_read(
                read_ring(start, log.take(i)).layout,
                (#[trigger] log[i]).res,
            ) is None
        }
}

/// A run of the write side that is still going; see `read_going`.
#[verifier::opaque]
pub open spec fn write_going<W: IoWrite>(io: W, start: Ring, log: Seq<WriteAnswer<W>>) -> bool {
    forall|i: int|
        0 <= i < log.len() ==> {
            &&& write_made(io, start, log, i)
            &&& spec_after_write(
                write_ring(start, log.take(i)).layout,
                (#[trigger] log[i]).res,
            ) is None
        }
}

/// One run of the read side, told by its raw reads: there was at least one;
/// each was a read by the resource itself, as `read_made` says; each but
/// the last asked for another; the last ended the run as `res`; and the
/// resource and the buffer are left as `io_after` and `after`.
pub open spec fn read_trace<I: IoRead>(
    io: I,
    start: Ring,
    log: Seq<ReadAnswer<I>>,
    io_after: I,
    after: Ring,
    res: AioResult<AsyncActionResult>,
) -> bool {
    &&& log.len() > 0
    &&& forall|i: int| 0 <= i < log.len() ==> #[trigger] read_made(io, start, log, i)
    &&& forall|i: int|
        0 <= i < log.len() - 1 ==> spec_after_read(
            read_ring(start, log.take(i)).layout,
            (#[trigger] log[i]).res,
        ) is None
    &&& spec_after_read(read_ring(start, log.drop_last()).layout, log.last().res) == Some(res)
    &&& io_after == log.last().io
    &&& after == read_ring(start, log)
}

/// One run of the write side, told by its raw writes; see `read_trace`.
pub open spec fn write_trace<W: IoWrite>(
    io: W,
    start: Ring,
    log: Seq<WriteAnswer<W>>,
    io_after: W,
    after: Ring,
    res: AioResult<AsyncActionResult>,
) -> bool {
    &&& log.len() > 0
    &&& forall|i: int| 0 <= i < log.len() ==> #[trigger] write_made(io, start, log, i)
    &&& forall|i: int|
        0 <= i < log.len() - 1 ==> spec_after_write(
            write_ring(start, log.take(i)).layout,
            (#[trigger] log[i]).res,
        ) is None
    &&& spec_after_write(write_ring(start, log.drop_last()).layout, log.last().res) == Some(res)
    &&& io_after == log.last().io
    &&& after == write_ring(start, log)
}

/// A run of the read side that has made no raw read is going.
pub proof fn lemma_read_going_none<I: IoRead>(io: I, start: Ring)
    ensures
        read_going(io, start, Seq::<ReadAnswer<I>>::empty()),
{
    reveal(read_going);
}

/// A run of the read side goes on by a raw read that asks for another.
pub proof fn lemma_read_going_push<I: IoRead>(
    io: I,
    start: Ring,
    log: Seq<ReadAnswer<I>>,
    entry: ReadAnswer<I>,
)
    requires
        read_going(io, start, log),
        read_source(io, log).reads(
            read_ring(start, log).write_area(),
            &entry.io,
            entry.region,
            entry.res,
        ),
        entry.region.len() == read_ring(start, log).write_area().len(),
        spec_after_read(read_ring(start, log).layout, entry.res) is None,
    ensures
        read_going(io, start, log.push(entry)),
        read_ring(start, log.push(entry)) == read_ring(start, log).filled(entry.region, entry.res),
        read_source(io, log.push(entry)) == entry.io,
{
    reveal(read_going);
    let now = log.push(entry);
    assert(now.drop_last() =~= log);
    assert(now.take(log.len() as int) =~= log);
    assert forall|i: int| 0 <= i < now.len() implies {
        &&& read_made(io, start, now, i)
        &&& spec_after_read(read_ring(start, now.take(i)).layout, (#[trigger] now[i]).res) is None
    } by {
        if i < log.len() {
            assert(now.take(i) =~= log.take(i));
            assert(now[i] == log[i]);
            assert(read_made(io, start, log, i));
        }
    }
}

/// A run of the read side ends by a raw read that asks for no other.
pub proof fn lemma_read_going_ends<I: IoRead>(
    io: I,
    start: Ring,
    log: Seq<ReadAnswer<I>>,
    entry: ReadAnswer<I>,
    res: AioResult<AsyncActionResult>,
)
    requires
        read_going(io, start, log),
        read_source(io, log).reads(
            read_ring(start, log).write_area(),
            &entry.io,
            entry.region,
            entry.res,
        ),
        entry.region.len() == read_ring(start, log).write_area().len(),
        spec_after_read(read_ring(start, log).layout, entry.res) == Some(res),
    ensures
        read_trace(
            io,
            start,
            log.push(entry),
            entry.io,
            read_ring(start, log).filled(entry.region, entry.res),
            res,
        ),
{
    reveal(read_going);
    let now = log.push(entry);
    assert(now.drop_last() =~= log);
    assert(now.take(log.len() as int) =~= log);
    assert forall|i: int| 0 <= i < now.len() implies #[trigger] read_made(io, start, now, i) by {
        if i < log.len() {
            assert(now.take(i) =~= log.take(i));
            assert(now[i] == log[i]);
            assert(read_made(io, start, log, i));
        }
    }
    assert forall|i: int| 0 <= i < now.len() - 1 implies spec_after_read(
        read_ring(start, now.take(i)).layout,
        (#[trigger] now[i]).res,
    ) is None by {
        assert(now.take(i) =~= log.take(i));
        assert(now[i] == log[i]);
    }
}

/// A run of the write side that has made no raw write is going.
pub proof fn lemma_write_going_none<W: IoWrite>(io: W, start: Ring)
    ensures
        write_going(io, start, Seq::<WriteAnswer<W>>::empty()),
{
    reveal(write_going);
}

/// A run of the write side goes on by a raw write that asks for another.
pub proof fn lemma_write_going_push<W: IoWrite>(
    io: W,
    start: Ring,
    log: Seq<WriteAnswer<W>>,
    entry: WriteAnswer<W>,
)
    requires
        write_going(io, start, log),
        write_sink(io, log).writes(write_ring(start, log).read_area(), &entry.io, entry.res),
        spec_after_write(write_ring(start, log).layout, entry.res) is None,
    ensures
        write_going(io, start, log.push(entry)),
        write_ring(start, log.push(entry)) == write_ring(start, log).drained(entry.res),
        write_sink(io, log.push(entry)) == entry.io,
{
    reveal(write_going);
    let now = log.push(entry);
    assert(now.drop_last() =~= log);
    assert(now.take(log.len() as int) =~= log);
    assert forall|i: int| 0 <= i < now.len() implies {
        &&& write_made(io, start, now, i)
        &&& spec_after_write(write_ring(start, now.take(i)).layout, (#[trigger] now[i]).res) is None
    } by {
        if i < log.len() {
            assert(now.take(i) =~= log.take(i));
            assert(now[i] == log[i]);
            assert(write_made(io, start, log, i));
        }
    }
}

/// A run of the write side ends by a raw write that asks for no other.
pub proof fn lemma_write_going_ends<W: IoWrite>(
    io: W,
    start: Ring,
    log: Seq<WriteAnswer<W>>,
    entry: WriteAnswer<W>,
    res: AioResult<AsyncActionResult>,
)
    requires
        write_going(io, start, log),
        write_sink(io, log).writes(write_ring(start, log).read_area(), &entry.io, entry.res),
        spec_after_write(write_ring(start, log).layout, entry.res) == Some(res),
    ensures
        write_trace(
            io,
            start,
            log.push(entry),
            entry.io,
            write_ring(start, log).drained(entry.res),
            res,
        ),
{
    reveal(write_going);
    let now = log.push(entry);
    assert(now.drop_last() =~= log);
    assert(now.take(log.len() as int) =~= log);
    assert forall|i: int| 0 <= i < now.len() implies #[trigger] write_made(io, start, now, i) by {
        if i < log.len() {
            assert(now.take(i) =~= log.take(i));
            assert(now[i] == log[i]);
            assert(write_made(io, start, log, i));
        }
    }
    assert forall|i: int| 0 <= i < now.len() - 1 implies spec_after_write(
        write_ring(start, now.take(i)).layout,
        (#[trigger] now[i]).res,
    ) is None by {
        assert(now.take(i) =~= log.take(i));
        assert(now[i] == log[i]);
    }
}

/// Takes the result of one raw read into the free region of the buffer: the
/// bytes read are committed, and the answer says whether the read side
/// returns, and with what, or reads again. It returns when the read gave no
/// bytes, when the buffer is full, and on every error.
pub fn after_read(buffer: &mut RingBuf, res: AioResult<usize>) -> (next: Option<
    AioResult<AsyncActionResult>,
>)
    requires
        old(buffer).wf(),
    ensures
        final(buffer).wf(),
        final(buffer).storage() == old(buffer).storage(),
        final(buffer).layout() == match res {
            Ok(n) => old(buffer).layout().commit(n as nat),
            Err(_) => old(buffer).layout(),
        },
        next == spec_after_read(old(buffer).layout(), res),
        final(buffer)@ == old(buffer)@ + old(buffer).write_area().subrange(
            0,
            (final(buffer)@.len() - old(buffer)@.len()) as int,
        ),
{
    match res {
        Ok(n) => {
            buffer.advance_writer(n);
            if n == 0 || !buffer.has_remaining_to_write() {
                Some(Ok(AsyncActionResult::MoreLater))
            } else {
                None
            }
        },
        Err(err) => {
            assert(old(buffer).write_area().subrange(0, 0) =~= Seq::<u8>::empty());
            assert(buffer@ =~= old(buffer)@ + Seq::<u8>::empty());
            Some(settle(err))
        },
    }
}

/// Takes the result of one raw write of the filled region of the buffer:
/// the bytes written are consumed, and the answer says whether the write
/// side returns, and with what, or writes again. It returns when the write
/// took no bytes, when the buffer is empty, and on every error.
pub fn after_write(buffer: &mut RingBuf, res: AioResult<usize>) -> (next: Option<
    AioResult<AsyncActionResult>,
>)
    requires
        old(buffer).wf(),
    ensures
        final(buffer).wf(),
        final(buffer).storage() == old(buffer).storage(),
        final(buffer).layout() == match res {
            Ok(n) => old(buffer).layout().consume(n as nat),
            Err(_) => old(buffer).layout(),
        },
        next == spec_after_write(old(buffer).layout(), res),
        final(buffer)@ == old(buffer)@.skip((old(buffer)@.len() - final(buffer)@.len()) as int),
{
    match res {
        Ok(n) => {
            buffer.advance_reader(n);
            if n == 0 || !buffer.has_remaining_to_read() {
                Some(Ok(AsyncActionResult::MoreLater))
            } else {
                None
            }
        },
        Err(err) => {
            assert(buffer@ =~= old(buffer)@.skip(0));
            Some(settle(err))
        },
    }
}

/// Fills the buffer from the resource until the buffer is full or the
/// resource has no more to give for now.
///
/// Every byte that the resource hands out during the call is appended to
/// the bytes that the buffer holds, in the order in which it was handed
/// out. A full buffer is left alone, and the resource with it. A read of no
/// bytes suspends the side, as `WouldBlock` does.
pub fn read_to<I: IoRead>(io: &mut I, buffer: &mut RingBuf) -> (res: AioResult<AsyncActionResult>)
    requires
        old(buffer).wf(),
    ensures
        final(buffer).wf(),
        final(buffer).layout().cap == old(buffer).layout().cap,
        old(io).consumed().is_prefix_of(final(io).consumed()),
        final(buffer)@ == old(buffer)@ + final(io).consumed().skip(
            old(io).consumed().len() as int,
        ),
        old(buffer).layout().write_room() == 0 ==> {
            &&& res == Ok::<AsyncActionResult, AioError>(AsyncActionResult::MoreLater)
            &&& *final(io) == *old(io)
            &&& final(buffer).ring() == old(buffer).ring()
        },
        old(buffer).layout().write_room() > 0 ==> exists|log: Seq<ReadAnswer<I>>| #[trigger]
            read_trace(*old(io), old(buffer).ring(), log, *final(io), final(buffer).ring(), res),
        res matches Err(e) ==> !is_signal(e.kind),
{
    let mut writer = buffer.writer();
    if !writer.has_remaining() {
        assert(final(io).consumed().skip(old(io).consumed().len() as int) =~= Seq::<u8>::empty());
        return Ok(AsyncActionResult::MoreLater);
    }
    let ghost start = old(buffer).ring();
    let ghost mut seen: Seq<ReadAnswer<I>> = Seq::empty();
    proof {
        lemma_read_going_none(*old(io), start);
    }
    loop
        invariant
            start == old(buffer).ring(),
            writer.ring.ring() == read_ring(start, seen),
            *io == read_source(*old(io), seen),
            read_going(*old(io), start, seen),
            writer.ring.wf(),
            writer.ring.layout().cap == old(buffer).layout().cap,
            writer.ring.layout().write_room() > 0,
            old(buffer).layout().write_room() > 0,
            old(io).consumed().is_prefix_of(io.consumed()),
            writer.ring@ == old(buffer)@ + io.consumed().skip(old(io).consumed().len() as int),
            *after_borrow(buffer) == *final(writer.ring),
        decreases writer.ring.layout().remaining_to_write(),
    {
        let ghost before = io.consumed();
        let ghost ring = writer.ring.ring();
        let res = io.read(writer.mut_bytes());
        let ghost entry = ReadAnswer { io: *io, region: writer.ring.write_area(), res: res };
        let next = after_read(writer.ring, res);
        proof {
            let base = old(io).consumed().len() as int;
            assert(io.consumed().skip(base) =~= before.skip(base) + (io.consumed().skip(
                before.len() as int,
            )));
            assert(writer.ring.ring() == ring.filled(entry.region, res));
        }
        match next {
            Some(out) => {
                proof {
                    lemma_read_going_ends(*old(io), start, seen, entry, out);
                }
                return out;
            },
            None => {
                proof {
                    lemma_read_going_push(*old(io), start, seen, entry);
                    seen = seen.push(entry);
                }
            },
        }
    }
}

/// Drains the buffer into the resource until the buffer is empty or the
/// resource takes no more for now.
///
/// The bytes that the resource accepts during the call are the oldest bytes
/// that the buffer held, in the order in which the buffer held them, and
/// they are held no longer. An empty buffer is left alone, and the resource
/// with it. A write of no bytes suspends the side, as `WouldBlock` does.
pub fn write_from<W: IoWrite>(from: &mut RingBuf, to: &mut W) -> (res: AioResult<
    AsyncActionResult,
>)
    requires
        old(from).wf(),
    ensures
        final(from).wf(),
        final(from).layout().cap == old(from).layout().cap,
        old(to).written().is_prefix_of(final(to).written()),
        old(from)@ == final(to).written().skip(old(to).written().len() as int) + final(from)@,
        old(from)@.len() == 0 ==> {
            &&& res == Ok::<AsyncActionResult, AioError>(AsyncActionResult::MoreLater)
            &&& *final(to) == *old(to)
            &&& final(from).ring() == old(from).ring()
        },
        old(from)@.len() > 0 ==> exists|log: Seq<WriteAnswer<W>>| #[trigger]
            write_trace(*old(to), old(from).ring(), log, *final(to), final(from).ring(), res),
        res matches Err(e) ==> !is_signal(e.kind),
{
    let mut reader = from.reader();
    let ghost start = old(from).ring();
    let ghost mut seen: Seq<WriteAnswer<W>> = Seq::empty();
    proof {
        lemma_write_going_none(*old(to), start);
    }
    loop
        invariant
            start == old(from).ring(),
            reader.ring.ring() == write_ring(start, seen),
            *to == write_sink(*old(to), seen),
            write_going(*old(to), start, seen),
            seen.len() == 0 ==> reader.ring@ == old(from)@,
            seen.len() > 0 ==> old(from)@.len() > 0 && reader.ring@.len() > 0,
            reader.ring.wf(),
            reader.ring.layout().cap == old(from).layout().cap,
            old(to).written().is_prefix_of(to.written()),
            old(from)@ == to.written().skip(old(to).written().len() as int) + reader.ring@,
            old(from)@.len() == 0 ==> to.written() == old(to).written(),
            *after_borrow(from) == *final(reader.ring),
        decreases reader.ring@.len(),
    {
        if !reader.has_remaining() {
            return Ok(AsyncActionResult::MoreLater);
        }
        let ghost before = to.written();
        let ghost held = reader.ring@;
        let ghost ring = reader.ring.ring();
        let res = to.write(reader.bytes());
        let ghost entry = WriteAnswer { io: *to, res: res };
        let next = after_write(reader.ring, res);
        proof {
            let base = old(to).written().len() as int;
            assert(to.written().skip(base) =~= before.skip(base) + (to.written().skip(
                before.len() as int,
            )));
            assert(held =~= to.written().skip(before.len() as int) + reader.ring@);
            assert(reader.ring.ring() == ring.drained(res));
        }
        match next {
            Some(out) => {
                proof {
                    lemma_write_going_ends(*old(to), start, seen, entry, out);
                }
                return out;
            },
            None => {
                proof {
                    lemma_write_going_push(*old(to), start, seen, entry);
                    seen = seen.push(entry);
                }
            },
        }
    }
}

/// Whether a side stays registered after a run that ended as `res`: it does
/// when it asked to be called again, and does not when it is finished or
/// has failed.
pub fn into_continue(res: AioResult<AsyncActionResult>) -> (keep: bool)
    ensures
        keep == (res == Ok::<AsyncActionResult, AioError>(AsyncActionResult::MoreLater)),
{
    match res {
        Ok(AsyncActionResult::Done) => false,
        Ok(AsyncActionResult::MoreLater) => true,
        Err(_) => false,
    }
}

/// The error that ends a transfer whose read registration was told that its
/// resource is writable.
pub open spec fn spec_incorrect_writable() -> AioError {
    AioError { desc: "Received writable on a readable registration", kind: Kind::Other }
}

/// The error that ends a transfer whose write registration was told that its
/// resource is readable.
pub open spec fn spec_incorrect_readable() -> AioError {
    AioError { desc: "Received readable on a writable registration", kind: Kind::Other }
}

/// The defect of a writable notification that reached a read registration:
/// the bookkeeping of interests is broken, and the transfer is aborted with
/// this error.
pub fn incorrect_writable() -> (err: AioError)
    ensures
        err == spec_incorrect_writable(),
{
    AioError::new("Received writable on a readable registration", Kind::Other)
}

/// The defect of a readable notification that reached a write registration:
/// the bookkeeping of interests is broken, and the transfer is aborted with
/// this error.
pub fn incorrect_readable() -> (err: AioError)
    ensures
        err == spec_incorrect_readable(),
{
    AioError::new("Received readable on a writable registration", Kind::Other)
}

/// What a sink calls when it can be written: the write side of a transfer.
///
/// `notified` says what one call does, on a writer that was `writer` before
/// the call and `writer_after` after it; the answer is `true` for "keep the
/// write registration alive". `aborted` says what becomes of the transfer
/// when a defect ends it.
pub trait WriteListener<W: IoWrite>: Sized {
    spec fn wf(&self) -> bool;

    spec fn notified(&self, writer: W, after: Self, writer_after: W, keep: bool) -> bool;

    spec fn aborted(&self, err: AioError, after: Self) -> bool;

    fn notify(&mut self, writer: &mut W) -> (keep: bool)
        requires
            old(self).wf(),
        ensures
            final(self).wf(),
            old(self).notified(*old(writer), *final(self), *final(writer), keep),
    ;

    fn abort(&mut self, err: AioError)
        requires
            old(self).wf(),
        ensures
            final(self).wf(),
            old(self).aborted(err, *final(self)),
    ;
}

/// The readable-stream role: something that can be piped into a sink.
pub trait IoReadStream: Sized {
    /// What a completed pipe gives back: nothing for a resource, the
    /// drained source for an in-memory source.
    type PipeResult;

    /// Pipes the stream into `write`, giving the sink at most `rounds`
    /// opportunities to write, and returns the completion cell as it stands
    /// then.
    fn pipe<W: IoWriteStream>(self, write: &mut W, rounds: usize) -> AioFuture<Self::PipeResult>;
}

/// The writable-stream role: something that hands its writer to a listener
/// when it can be written.
pub trait IoWriteStream: Sized {
    type Writer: IoWrite;

    /// The writer of the stream, as it stands.
    spec fn writer(&self) -> Self::Writer;

    /// One opportunity to write: the listener is called with the writer,
    /// once, and its answer is passed on.
    fn on_write<L: WriteListener<Self::Writer>>(&mut self, listener: &mut L) -> (keep: bool)
        requires
            old(listener).wf(),
        ensures
            final(listener).wf(),
            old(listener).notified(
                old(self).writer(),
                *final(listener),
                final(self).writer(),
                keep,
            ),
    ;
}

/// A stream in both roles.
pub trait IoDuplexStream: IoReadStream + IoWriteStream {

}

/// A unique stream over a resource.
pub struct Io<I> {
    io: I,
}

/// The read callback of a pipe out of a resource: fills the ring buffer.
pub struct PipeRead;

/// The write callback of a pipe out of a resource. The registration asked
/// for readability only, so a call is a defect and aborts the transfer.
pub struct IncorrectWritable;

/// The write callback of a sink: hands the resource to the listener.
pub struct Notify;

/// The read callback of a sink. The registration asked for writability
/// only, so a call is a defect and aborts the transfer.
pub struct IncorrectReadable;

/// A pipe out of a resource: the registration of the resource, with the
/// state that its read callback shares with the write side.
pub struct Pipe<I> {
    reg: Registration<I, RcMut<Transfer>, PipeRead, IncorrectWritable>,
}

impl<I: IoRead> ReadCallback<I, RcMut<Transfer>> for PipeRead {
    open spec fn fit(&self, io: I, shared: RcMut<Transfer>) -> bool {
        shared@.wf()
    }

    open spec fn reads(
        &self,
        io: I,
        shared: RcMut<Transfer>,
        hint: ReadHint,
        io_after: I,
        shared_after: RcMut<Transfer>,
        keep: bool,
    ) -> bool {
        shared@@.read_tied(
            io,
            shared@.ring(),
            shared_after@@,
            io_after,
            shared_after@.ring(),
            keep,
        )
    }

    fn call(&self, io: &mut I, shared: &mut RcMut<Transfer>, hint: ReadHint) -> (keep: bool) {
        shared.borrow_mut().on_read(io)
    }
}

impl<I> WriteCallback<I, RcMut<Transfer>> for IncorrectWritable {
    open spec fn fit(&self, io: I, shared: RcMut<Transfer>) -> bool {
        shared@.wf()
    }

    open spec fn writes(
        &self,
        io: I,
        shared: RcMut<Transfer>,
        io_after: I,
        shared_after: RcMut<Transfer>,
        keep: bool,
    ) -> bool {
        &&& io_after == io
        &&& shared_after@@ == shared@@.abort(spec_incorrect_writable())
        &&& shared_after@.ring() == shared@.ring()
        &&& !keep
    }

    fn call(&self, io: &mut I, shared: &mut RcMut<Transfer>) -> (keep: bool) {
        shared.borrow_mut().abort(incorrect_writable());
        false
    }
}

impl<I: IoWrite, L: WriteListener<I>> WriteCallback<I, L> for Notify {
    open spec fn fit(&self, io: I, shared: L) -> bool {
        shared.wf()
    }

    open spec fn writes(&self, io: I, shared: L, io_after: I, shared_after: L, keep: bool) -> bool {
        shared.notified(io, shared_after, io_after, keep)
    }

    fn call(&self, io: &mut I, shared: &mut L) -> (keep: bool) {
        shared.notify(io)
    }
}

impl<I: IoWrite, L: WriteListener<I>> ReadCallback<I, L> for IncorrectReadable {
    open spec fn fit(&self, io: I, shared: L) -> bool {
        shared.wf()
    }

    open spec fn reads(
        &self,
        io: I,
        shared: L,
        hint: ReadHint,
        io_after: I,
        shared_after: L,
        keep: bool,
    ) -> bool {
        &&& io_after == io
        &&& shared.aborted(spec_incorrect_readable(), shared_after)
        &&& !keep
    }

    fn call(&self, io: &mut I, shared: &mut L, hint: ReadHint) -> (keep: bool) {
        shared.abort(incorrect_readable());
        false
    }
}

impl<I> View for Io<I> {
    type V = I;

    closed spec fn view(&self) -> I {
        self.io
    }
}

impl<I> Io<I> {
    /// The stream over `io`.
    pub fn new(io: I) -> (stream: Io<I>)
        ensures
            stream@ == io,
    {
        Io { io: io }
    }

    /// Gives the resource back.
    pub fn into_inner(self) -> (io: I)
        ensures
            io == self@,
    {
        self.io
    }
}

impl<I: IoWrite> Io<I> {
    /// The registration of this stream as a sink: for writability,
    /// level-triggered, with a write callback that hands the resource to
    /// `listener` and a read callback that aborts the transfer.
    pub fn listen<L: WriteListener<I>>(self, listener: L) -> (reg: Registration<
        I,
        L,
        IncorrectReadable,
        Notify,
    >)
        requires
            listener.wf(),
        ensures
            reg.ready(),
            reg.io == self@,
            reg.shared == listener,
            reg.opts == (Interest { readable: false, writable: true }, PollOpt::Level),
    {
        Registration::with_opts(
            self.io,
            listener,
            IncorrectReadable,
            Notify,
            Interest::writable(),
            PollOpt::level(),
        )
    }
}

impl<I: IoWrite> IoWriteStream for Io<I> {
    type Writer = I;

    open spec fn writer(&self) -> I {
        self@
    }

    fn on_write<L: WriteListener<I>>(&mut self, listener: &mut L) -> (keep: bool) {
        listener.notify(&mut self.io)
    }
}

impl<I: IoRead> Pipe<I> {
    /// The resource that the pipe reads.
    pub closed spec fn source(&self) -> I {
        self.reg.io
    }

    /// The state that the two sides share.
    pub closed spec fn state(&self) -> TransferView {
        self.reg.shared@@
    }

    /// The ring buffer between the two sides: its storage and its cursors.
    pub closed spec fn ring(&self) -> Ring {
        self.reg.shared@.ring()
    }

    /// The pipe is valid: the shared state is, and the registration asks
    /// for readability, level-triggered.
    pub closed spec fn wf(&self) -> bool {
        &&& self.reg.shared@.wf()
        &&& self.reg.opts == (Interest { readable: true, writable: false }, PollOpt::Level)
    }

    /// A valid pipe satisfies what holds of every state, and what is shared
    /// and the ring buffer tell of the same buffer.
    pub proof fn lemma_wf_inv(&self)
        requires
            self.wf(),
        ensures
            self.state().inv(),
            self.state().agrees(self.ring()),
    {
        self.reg.shared@.lemma_wf_inv();
    }

    /// Starts a pipe out of `stream`, with a ring buffer of the given
    /// capacity: the completion cell is pending, nothing is in flight, and a
    /// registration for readability is made of the resource, the shared
    /// state and the two callbacks. The capacity decides how much moves per
    /// callback, never what arrives.
    pub fn new(stream: Io<I>, capacity: usize) -> (pipe: Pipe<I>)
        ensures
            pipe.wf(),
            pipe.source() == stream@,
            pipe.state() == Transfer::fresh(capacity as nat),
            pipe.ring() == Transfer::fresh_ring(capacity as nat),
    {
        Pipe {
            reg: Registration::new(
                stream.into_inner(),
                RcMut::new(Transfer::new(capacity)),
                PipeRead,
                IncorrectWritable,
            ),
        }
    }

    /// Gives the registration of the source, as it is handed to an event
    /// loop.
    pub fn into_registration(self) -> (reg: Registration<
        I,
        RcMut<Transfer>,
        PipeRead,
        IncorrectWritable,
    >)
        requires
            self.wf(),
        ensures
            reg.ready(),
            reg.io == self.source(),
            reg.shared@@ == self.state(),
            reg.shared@.ring() == self.ring(),
            reg.opts == (Interest { readable: true, writable: false }, PollOpt::Level),
    {
        self.reg
    }

    /// Whether the pipe is neither complete nor failed.
    pub fn is_pending(&self) -> (b: bool)
        ensures
            b == (self.state().future is Pending),
    {
        self.reg.shared.borrow().is_pending()
    }

    /// The consumer's side of the completion cell: the outcome of the pipe,
    /// once, when there is one.
    pub fn take(&mut self) -> (outcome: Option<AioResult<()>>)
        requires
            old(self).wf(),
        ensures
            final(self).wf(),
            final(self).source() == old(self).source(),
            outcome == old(self).state().future.outcome(),
            final(self).state() == (TransferView {
                future: old(self).state().future.taken(),
                ..old(self).state()
            }),
            final(self).ring() == old(self).ring(),
    {
        self.reg.shared.borrow_mut().take()
    }

    /// Gives the resource back.
    pub fn into_inner(self) -> (io: I)
        ensures
            io == self.source(),
    {
        self.reg.io
    }

    /// The source is readable: runs the read callback of the registration;
    /// see `TransferView::read_step`.
    pub fn readable(&mut self, hint: ReadHint) -> (keep: bool)
        requires
            old(self).wf(),
        ensures
            final(self).wf(),
            old(self).state().read_tied(
                old(self).source(),
                old(self).ring(),
                final(self).state(),
                final(self).source(),
                final(self).ring(),
                keep,
            ),
    {
        self.reg.readable(hint)
    }

    /// The source was reported writable, which the pipe never asked for:
    /// runs the write callback of the registration, which aborts the
    /// transfer. A pending pipe fails with `incorrect_writable`, a resolved
    /// one stays as it is, and the callback is dropped.
    pub fn misdirected(&mut self) -> (keep: bool)
        requires
            old(self).wf(),
        ensures
            final(self).wf(),
            !keep,
            final(self).source() == old(self).source(),
            final(self).state() == old(self).state().abort(spec_incorrect_writable()),
            final(self).ring() == old(self).ring(),
    {
        self.reg.writable()
    }

    /// The sink is writable: drains the ring buffer into `writer`; see
    /// `TransferView::write_step`.
    pub fn writable<W: IoWrite>(&mut self, writer: &mut W) -> (keep: bool)
        requires
            old(self).wf(),
        ensures
            final(self).wf(),
            final(self).source() == old(self).source(),
            old(self).state().write_tied(
                *old(writer),
                old(self).ring(),
                final(self).state(),
                *final(writer),
                final(self).ring(),
                keep,
            ),
    {
        self.reg.shared.borrow_mut().on_write(writer)
    }

    /// Drives both sides in turn, read side first, until the pipe is
    /// resolved or `rounds` rounds have passed: in each round the source is
    /// taken to be readable, and the sink gets one opportunity to write.
    /// Returns whether the pipe is resolved.
    ///
    /// Whatever the capacity and however the reads and writes were cut up:
    /// what was in flight before, followed by every byte that the source
    /// handed out during the call, is what the sink accepted during the
    /// call followed by what is in flight after it. So a pipe that is
    /// complete, with a sink that did not close, has delivered every byte
    /// in the order in which the source gave it.
    pub fn run<W: IoWriteStream>(&mut self, write: &mut W, rounds: usize) -> (resolved: bool)
        requires
            old(self).wf(),
        ensures
            final(self).wf(),
            resolved == !(final(self).state().future is Pending),
            old(self).state().carried(
                old(self).source().consumed(),
                old(write).writer().written(),
                final(self).state(),
                final(self).source().consumed(),
                final(write).writer().written(),
            ),
            exists|log: Seq<Round<I, W::Writer>>| #[trigger]
                old(self).state().ran(
                    old(self).source(),
                    old(self).ring(),
                    old(write).writer(),
                    log,
                    rounds as nat,
                    final(self).state(),
                    final(self).source(),
                    final(self).ring(),
                    final(write).writer(),
                ),
    {
        let mut round: usize = 0;
        let ghost first = self.state();
        let ghost io = self.source();
        let ghost ring = self.ring();
        let ghost sink = write.writer();
        let ghost c = io.consumed();
        let ghost w = sink.written();
        let ghost mut log: Seq<Round<I, W::Writer>> = Seq::empty();
        proof {
            lemma_carried_nothing(first, c, w);
            lemma_rounds_none(first, io, ring, sink);
        }
        while round < rounds && self.is_pending()
            invariant
                self.wf(),
                first == old(self).state(),
                io == old(self).source(),
                ring == old(self).ring(),
                sink == old(write).writer(),
                c == io.consumed(),
                w == sink.written(),
                round <= rounds,
                log.len() == round,
                first.carried(
                    c,
                    w,
                    self.state(),
                    self.source().consumed(),
                    write.writer().written(),
                ),
                first.rounds(io, ring, sink, log),
                if log.len() == 0 {
                    &&& self.state() == first
                    &&& self.source() == io
                    &&& self.ring() == ring
                    &&& write.writer() == sink
                } else {
                    &&& self.state() == log.last().wrote
                    &&& self.source() == log.last().io
                    &&& self.ring() == log.last().wrote_ring
                    &&& write.writer() == log.last().sink
                },
            decreases rounds - round,
        {
            let ghost s0 = self.state();
            let ghost r0 = self.source().consumed();
            let ghost w0 = write.writer().written();
            let kept = self.readable(ReadHint::data());
            let ghost s1 = self.state();
            let ghost i1 = self.source();
            let ghost g1 = self.ring();
            let ghost r1 = i1.consumed();
            let held = write.on_write(self);
            proof {
                let s2 = self.state();
                let w2 = write.writer().written();
                lemma_carried_read(s0, r0, w0, s1, r1, kept);
                lemma_carried_write(s1, r1, w0, s2, w2, held);
                lemma_carried_chain(first, c, w, s0, r0, w0, s1, r1, w0);
                lemma_carried_chain(first, c, w, s1, r1, w0, s2, r1, w2);
                let step = Round {
                    io: i1,
                    read: s1,
                    read_ring: g1,
                    kept: kept,
                    sink: write.writer(),
                    wrote: s2,
                    wrote_ring: self.ring(),
                    held: held,
                };
                lemma_rounds_push(first, io, ring, sink, log, step);
                log = log.push(step);
            }
            round = round + 1;
        }
        proof {
            assert(first.ran(
                io,
                ring,
                sink,
                log,
                rounds as nat,
                self.state(),
                self.source(),
                self.ring(),
                write.writer(),
            ));
        }
        !self.is_pending()
    }
}

impl<I: IoRead> Pipe<I> {
    /// Gives the completion cell away, as it stands, and lets go of the
    /// resource.
    pub fn into_future(self) -> (future: AioFuture<()>)
        requires
            self.wf(),
        ensures
            future@ == self.state().future,
    {
        self.reg.shared.into_inner().into_future()
    }

    /// Aborts the transfer with `err`: a pending pipe fails with it, a
    /// resolved one stays as it is.
    pub fn abort(&mut self, err: AioError)
        requires
            old(self).wf(),
        ensures
            final(self).wf(),
            final(self).source() == old(self).source(),
            final(self).state() == old(self).state().abort(err),
            final(self).ring() == old(self).ring(),
    {
        self.reg.shared.borrow_mut().abort(err);
    }
}

impl<I: IoRead, W: IoWrite> WriteListener<W> for Pipe<I> {
    open spec fn wf(&self) -> bool {
        Pipe::wf(self)
    }

    open spec fn notified(&self, writer: W, after: Pipe<I>, writer_after: W, keep: bool) -> bool {
        &&& after.source() == self.source()
        &&& self.state().write_tied(
            writer,
            self.ring(),
            after.state(),
            writer_after,
            after.ring(),
            keep,
        )
    }

    open spec fn aborted(&self, err: AioError, after: Pipe<I>) -> bool {
        &&& after.source() == self.source()
        &&& after.state() == self.state().abort(err)
        &&& after.ring() == self.ring()
    }

    fn notify(&mut self, writer: &mut W) -> (keep: bool) {
        self.writable(writer)
    }

    fn abort(&mut self, err: AioError) {
        Pipe::abort(self, err)
    }
}

impl<I: IoRead> IoReadStream for Io<I> {
    type PipeResult = ();

    /// Pipes the resource into `write` through a ring buffer of
    /// `BUFFER_SIZE` bytes: both sides run in turn, read side first, until
    /// the pipe is resolved or the sink has had `rounds` opportunities to
    /// write. The cell that is returned is the pipe's, as it stands then.
    ///
    /// What the sink accepted, followed by what was still in flight at the
    /// end, is what the resource handed out, in order.
    fn pipe<W: IoWriteStream>(self, write: &mut W, rounds: usize) -> (future: AioFuture<()>)
        ensures
            exists|source: I, state: TransferView, ring: Ring, log: Seq<Round<I, W::Writer>>|
                {
                    &&& #[trigger] Transfer::fresh(BUFFER_SIZE as nat).ran(
                        self@,
                        Transfer::fresh_ring(BUFFER_SIZE as nat),
                        old(write).writer(),
                        log,
                        rounds as nat,
                        state,
                        source,
                        ring,
                        final(write).writer(),
                    )
                    &&& Transfer::fresh(BUFFER_SIZE as nat).carried(
                        self@.consumed(),
                        old(write).writer().written(),
                        state,
                        source.consumed(),
                        final(write).writer().written(),
                    )
                    &&& state.inv()
                    &&& future@ == state.future
                },
    {
        let mut pipe = Pipe::new(self, BUFFER_SIZE);
        pipe.run(write, rounds);
        proof {
            pipe.lemma_wf_inv();
            let log = choose|log: Seq<Round<I, W::Writer>>| #[trigger]
                Transfer::fresh(BUFFER_SIZE as nat).ran(
                    self@,
                    Transfer::fresh_ring(BUFFER_SIZE as nat),
                    old(write).writer(),
                    log,
                    rounds as nat,
                    pipe.state(),
                    pipe.source(),
                    pipe.ring(),
                    write.writer(),
                );
            assert(Transfer::fresh(BUFFER_SIZE as nat).ran(
                self@,
                Transfer::fresh_ring(BUFFER_SIZE as nat),
                old(write).writer(),
                log,
                rounds as nat,
                pipe.state(),
                pipe.source(),
                pipe.ring(),
                write.writer(),
            ));
        }
        pipe.into_future()
    }
}

impl<I: IoRead + IoWrite> IoDuplexStream for Io<I> {

}

} // verus!
