//! Pipes into memory, through the ring buffer: that they complete, and
//! deliver every byte.
//!
//! A vector takes every byte. So a pipe into a vector is decided by the
//! source and the pump alone. Of a source that would block some number of
//! times, then hands out its bytes, and then meets its end, the pump makes
//! a completed pipe: each round either uses up one of the blocks or moves
//! at least one byte, whatever the capacity of the ring buffer, as long as
//! it is not zero, and the round after the last byte meets the end of the
//! source and completes the pipe. An in-memory source is such a source.

use vstd::prelude::*;
use crate::buf::{lemma_overcommit_is_clamped, Ring};
use crate::error::{AioError, AioResult, Kind};
use crate::future::FutureState;
use crate::iostream::transfer::{
    lemma_complete_pipe_preserves_order, Round, Transfer, TransferView,
};
use crate::iostream::{
    read_made, read_ring, read_source, read_trace, spec_after_read, spec_after_write,
    write_made, write_ring, write_trace, AsyncActionResult, ReadAnswer, WriteAnswer,
};
use crate::sys::{IoRead, IoWrite};
use crate::util::MemReader;

verus! {

/// A source that would block `blocks` times, then hands out `bytes`, in
/// order and at least one byte per read into a buffer with room, and then
/// meets its end.
#[verifier::opaque]
pub open spec fn serves<I: IoRead>(io: I, blocks: nat, bytes: Seq<u8>) -> bool
    decreases blocks, bytes.len(),
{
    forall|buf: Seq<u8>, after: I, buf_after: Seq<u8>, res: AioResult<usize>| #[trigger]
        io.reads(buf, &after, buf_after, res) ==> if blocks > 0 {
            &&& res matches Err(err)
            &&& err.kind == Kind::WouldBlock
            &&& after.consumed() == io.consumed()
            &&& serves(after, (blocks - 1) as nat, bytes)
        } else if bytes.len() == 0 {
            &&& res matches Err(err)
            &&& err.kind == Kind::Eof
            &&& after.consumed() == io.consumed()
        } else if buf.len() == 0 {
            true
        } else {
            &&& res matches Ok(n)
            &&& 1 <= n <= bytes.len()
            &&& n <= buf.len()
            &&& after.consumed() == io.consumed() + bytes.subrange(0, n as int)
            &&& serves(after, 0, bytes.skip(n as int))
        }
}

/// What one read of a source that serves `blocks` and `bytes` does.
pub open spec fn served<I: IoRead>(
    io: I,
    blocks: nat,
    bytes: Seq<u8>,
    buf: Seq<u8>,
    after: I,
    res: AioResult<usize>,
) -> bool {
    if blocks > 0 {
        &&& res matches Err(err)
        &&& err.kind == Kind::WouldBlock
        &&& after.consumed() == io.consumed()
        &&& serves(after, (blocks - 1) as nat, bytes)
    } else if bytes.len() == 0 {
        &&& res matches Err(err)
        &&& err.kind == Kind::Eof
        &&& after.consumed() == io.consumed()
    } else if buf.len() == 0 {
        true
    } else {
        &&& res matches Ok(n)
        &&& 1 <= n <= bytes.len()
        &&& n <= buf.len()
        &&& after.consumed() == io.consumed() + bytes.subrange(0, n as int)
        &&& serves(after, 0, bytes.skip(n as int))
    }
}

/// One read of a source that serves `blocks` and `bytes` does what `served`
/// says.
pub proof fn lemma_serves_step<I: IoRead>(
    io: I,
    blocks: nat,
    bytes: Seq<u8>,
    buf: Seq<u8>,
    after: I,
    buf_after: Seq<u8>,
    res: AioResult<usize>,
)
    requires
        serves(io, blocks, bytes),
        io.reads(buf, &after, buf_after, res),
    ensures
        served(io, blocks, bytes, buf, after, res),
{
    reveal(serves);
}

/// A ring buffer whose cursors and storage fit together.
pub open spec fn sound(ring: Ring) -> bool {
    &&& ring.layout.wf()
    &&& ring.storage.len() == ring.layout.cap
    &&& ring.layout.cap <= usize::MAX
}

/// What holds of a source that hands out `bytes` and of the ring buffer
/// after the first `k` raw reads of a run of the read side that began with
/// `io` and `start`: the buffer has its capacity and its read cursor, it
/// has taken as many bytes as the source has handed out, these are the
/// front of `bytes`, and the source goes on to hand out the rest.
pub open spec fn read_so_far<I: IoRead>(
    io: I,
    bytes: Seq<u8>,
    start: Ring,
    log: Seq<ReadAnswer<I>>,
    k: int,
) -> bool {
    let now = read_source(io, log.take(k));
    let ring = read_ring(start, log.take(k));
    let taken = ring.layout.len - start.layout.len;
    &&& sound(ring)
    &&& ring.layout.cap == start.layout.cap
    &&& ring.layout.pos == start.layout.pos
    &&& 0 <= taken <= bytes.len()
    &&& now.consumed() == io.consumed() + bytes.subrange(0, taken)
    &&& (k < log.len() ==> ring.layout.write_room() > 0)
    &&& (k > 0 && bytes.len() > 0 ==> taken > 0)
    &&& (k > 0 ==> !(log[k - 1].res matches Err(err) && err.kind != Kind::Eof))
    &&& if k > 0 && log[k - 1].res is Err {
        taken == bytes.len()
    } else {
        serves(now, 0, bytes.skip(taken))
    }
}

/// One raw read, into the free region of a ring buffer with room, out of a
/// source that goes on to hand out `rest`: at the end of the source nothing
/// is taken; else at least one byte and no more than fit are taken, they
/// are the front of `rest`, and the source goes on to hand out what is
/// left of it.
pub proof fn lemma_served_read<I: IoRead>(io: I, rest: Seq<u8>, ring: Ring, entry: ReadAnswer<I>)
    requires
        serves(io, 0, rest),
        sound(ring),
        ring.layout.write_room() > 0,
        io.reads(ring.write_area(), &entry.io, entry.region, entry.res),
        entry.region.len() == ring.write_area().len(),
    ensures
        ({
            let next = ring.filled(entry.region, entry.res);
            let n = next.layout.len - ring.layout.len;
            &&& sound(next)
            &&& next.layout.cap == ring.layout.cap
            &&& next.layout.pos == ring.layout.pos
            &&& 0 <= n <= rest.len()
            &&& entry.io.consumed() == io.consumed() + rest.subrange(0, n)
            &&& match entry.res {
                Ok(count) => count == n && n >= 1 && rest.len() > 0 && serves(
                    entry.io,
                    0,
                    rest.skip(n),
                ),
                Err(err) => err.kind == Kind::Eof && rest.len() == 0,
            }
        }),
{
    lemma_serves_step(io, 0, rest, ring.write_area(), entry.io, entry.region, entry.res);
    lemma_overcommit_is_clamped(
        ring.layout,
        match entry.res {
            Ok(n) => n as nat,
            Err(_) => 0,
        },
    );
    assert(io.consumed() + rest.subrange(0, 0) =~= io.consumed());
}

/// The raw reads of a run of the read side, without its end: each was made
/// by the resource itself, and each but the last asked for another.
#[verifier::opaque]
pub open spec fn reads_made<I: IoRead>(io: I, start: Ring, log: Seq<ReadAnswer<I>>) -> bool {
    forall|i: int|
        0 <= i < log.len() ==> {
            &&& #[trigger] read_made(io, start, log, i)
            &&& i < log.len() - 1 ==> spec_after_read(
                read_ring(start, log.take(i)).layout,
                log[i].res,
            ) is None
        }
}

/// A run of the read side is made of raw reads as `reads_made` says.
pub proof fn lemma_reads_made<I: IoRead>(
    io: I,
    start: Ring,
    log: Seq<ReadAnswer<I>>,
    io_after: I,
    after: Ring,
    res: AioResult<AsyncActionResult>,
)
    requires
        read_trace(io, start, log, io_after, after, res),
    ensures
        reads_made(io, start, log),
{
    reveal(reads_made);
}

/// The `i`-th raw read of a run of the read side.
pub proof fn lemma_read_made<I: IoRead>(io: I, start: Ring, log: Seq<ReadAnswer<I>>, i: int)
    requires
        reads_made(io, start, log),
        0 <= i < log.len(),
    ensures
        read_made(io, start, log, i),
        i < log.len() - 1 ==> spec_after_read(
            read_ring(start, log.take(i)).layout,
            log[i].res,
        ) is None,
{
    reveal(reads_made);
    assert(read_made(io, start, log, i));
}

/// The source and the ring buffer after `k` raw reads are what the `k`-th
/// made of them.
pub proof fn lemma_read_step<I>(io: I, start: Ring, log: Seq<ReadAnswer<I>>, k: int)
    requires
        0 < k <= log.len(),
    ensures
        read_ring(start, log.take(k)) == read_ring(start, log.take(k - 1)).filled(
            log[k - 1].region,
            log[k - 1].res,
        ),
        read_source(io, log.take(k)) == log[k - 1].io,
{
    assert(log.take(k).drop_last() =~= log.take(k - 1));
    assert(log.take(k).last() == log[k - 1]);
}

/// The front of a sequence, taken in two parts.
pub proof fn lemma_front_in_two(bytes: Seq<u8>, taken: int, n: int)
    requires
        0 <= taken,
        0 <= n,
        taken + n <= bytes.len(),
    ensures
        bytes.subrange(0, taken) + bytes.skip(taken).subrange(0, n) == bytes.subrange(
            0,
            taken + n,
        ),
        bytes.skip(taken).skip(n) == bytes.skip(taken + n),
{
    assert(bytes.subrange(0, taken) + bytes.skip(taken).subrange(0, n) =~= bytes.subrange(
        0,
        taken + n,
    ));
    assert(bytes.skip(taken).skip(n) =~= bytes.skip(taken + n));
}

/// The raw reads of a run of the read side out of a source that hands out
/// `bytes`, one after the other; see `read_so_far`.
pub proof fn lemma_served_reads<I: IoRead>(
    io: I,
    bytes: Seq<u8>,
    start: Ring,
    log: Seq<ReadAnswer<I>>,
    k: int,
)
    requires
        serves(io, 0, bytes),
        sound(start),
        start.layout.write_room() > 0,
        reads_made(io, start, log),
        0 <= k <= log.len(),
    ensures
        read_so_far(io, bytes, start, log, k),
    decreases k,
{
    if k == 0 {
        assert(log.take(0) =~= Seq::<ReadAnswer<I>>::empty());
        lemma_front_in_two(bytes, 0, 0);
        assert(bytes.skip(0) =~= bytes);
        assert(io.consumed() + bytes.subrange(0, 0) =~= io.consumed());
    } else {
        lemma_served_reads(io, bytes, start, log, k - 1);
        lemma_read_step(io, start, log, k);
        let entry = log[k - 1];
        let was = read_source(io, log.take(k - 1));
        let ring = read_ring(start, log.take(k - 1));
        let taken = ring.layout.len - start.layout.len;
        lemma_read_made(io, start, log, k - 1);
        if k - 1 > 0 {
            lemma_read_made(io, start, log, k - 2);
        }
        lemma_served_read(was, bytes.skip(taken), ring, entry);
        let n = ring.filled(entry.region, entry.res).layout.len - ring.layout.len;
        lemma_front_in_two(bytes, taken, n);
        assert(entry.io.consumed() =~= io.consumed() + bytes.subrange(0, taken + n)) by {
            assert((io.consumed() + bytes.subrange(0, taken)) + bytes.skip(taken).subrange(0, n)
                =~= io.consumed() + (bytes.subrange(0, taken) + bytes.skip(taken).subrange(
                0,
                n,
            )));
        }
    }
}

/// One run of the read side out of a source that hands out `bytes`, into a
/// ring buffer with room: it never fails; it ends at the end of the source
/// or with the buffer full; the buffer has taken exactly the bytes that the
/// source has handed out, which are the front of `bytes`; a source with
/// bytes left has handed out at least one; and unless it has met its end,
/// the source goes on to hand out the rest.
pub proof fn lemma_served_read_run<I: IoRead>(
    io: I,
    bytes: Seq<u8>,
    start: Ring,
    log: Seq<ReadAnswer<I>>,
    io_after: I,
    after: Ring,
    res: AioResult<AsyncActionResult>,
)
    requires
        serves(io, 0, bytes),
        sound(start),
        start.layout.write_room() > 0,
        read_trace(io, start, log, io_after, after, res),
    ensures
        sound(after),
        after.layout.cap == start.layout.cap,
        0 <= after.layout.len - start.layout.len <= bytes.len(),
        io_after.consumed() == io.consumed() + bytes.subrange(
            0,
            after.layout.len - start.layout.len,
        ),
        res == Ok::<AsyncActionResult, AioError>(AsyncActionResult::Done) || res == Ok::<
            AsyncActionResult,
            AioError,
        >(AsyncActionResult::MoreLater),
        res == Ok::<AsyncActionResult, AioError>(AsyncActionResult::Done) ==> after.layout.len
            - start.layout.len == bytes.len(),
        res == Ok::<AsyncActionResult, AioError>(AsyncActionResult::MoreLater) ==> serves(
            io_after,
            0,
            bytes.skip(after.layout.len - start.layout.len),
        ),
        bytes.len() == 0 ==> res == Ok::<AsyncActionResult, AioError>(AsyncActionResult::Done),
        bytes.len() > 0 ==> after.layout.len > start.layout.len,
{
    let last = log.len() - 1;
    lemma_reads_made(io, start, log, io_after, after, res);
    lemma_served_reads(io, bytes, start, log, last);
    lemma_served_reads(io, bytes, start, log, log.len() as int);
    assert(log.take(log.len() as int) =~= log);
    assert(log.take(last) =~= log.drop_last());
    lemma_read_made(io, start, log, last);
    if bytes.len() == 0 {
        lemma_served_reads(io, bytes, start, log, 0);
        assert(log.take(0) =~= Seq::<ReadAnswer<I>>::empty());
        lemma_read_made(io, start, log, 0);
        lemma_serves_step(io, 0, bytes, start.write_area(), log[0].io, log[0].region, log[0].res);
    }
}

/// What holds of the ring buffer after the first `k` raw writes of a run of
/// the write side into a vector: the buffer has its capacity, and bytes are
/// left as long as a write follows.
pub open spec fn written_so_far(start: Ring, log: Seq<WriteAnswer<Vec<u8>>>, k: int) -> bool {
    let ring = write_ring(start, log.take(k));
    &&& sound(ring)
    &&& ring.layout.cap == start.layout.cap
    &&& (k < log.len() ==> ring.layout.len > 0)
}

/// The raw writes of a run of the write side into a vector, one after the
/// other; see `written_so_far`.
pub proof fn lemma_vector_writes(
    io: Vec<u8>,
    start: Ring,
    log: Seq<WriteAnswer<Vec<u8>>>,
    io_after: Vec<u8>,
    after: Ring,
    res: AioResult<AsyncActionResult>,
    k: int,
)
    requires
        sound(start),
        start.layout.len > 0,
        write_trace(io, start, log, io_after, after, res),
        0 <= k <= log.len(),
    ensures
        written_so_far(start, log, k),
    decreases k,
{
    if k == 0 {
        assert(log.take(0) =~= Seq::<WriteAnswer<Vec<u8>>>::empty());
    } else {
        lemma_vector_writes(io, start, log, io_after, after, res, k - 1);
        let before = log.take(k - 1);
        let entry = log[k - 1];
        assert(log.take(k).drop_last() =~= before);
        assert(log.take(k).last() == entry);
        let ring = write_ring(start, before);
        lemma_overcommit_is_clamped(
            ring.layout,
            match entry.res {
                Ok(n) => n as nat,
                Err(_) => 0,
            },
        );
        if k < log.len() {
            assert(spec_after_write(ring.layout, log[k - 1].res) is None);
        }
    }
}

/// One run of the write side into a vector drains the ring buffer: the
/// vector takes all that each write hands to it, so the run ends with
/// nothing in flight, and suspended.
pub proof fn lemma_vector_write_run(
    io: Vec<u8>,
    start: Ring,
    log: Seq<WriteAnswer<Vec<u8>>>,
    io_after: Vec<u8>,
    after: Ring,
    res: AioResult<AsyncActionResult>,
)
    requires
        sound(start),
        start.layout.len > 0,
        write_trace(io, start, log, io_after, after, res),
    ensures
        sound(after),
        after.layout.cap == start.layout.cap,
        after.layout.len == 0,
        res == Ok::<AsyncActionResult, AioError>(AsyncActionResult::MoreLater),
{
    let last = log.len() - 1;
    lemma_vector_writes(io, start, log, io_after, after, res, last);
    lemma_vector_writes(io, start, log, io_after, after, res, log.len() as int);
    assert(log.take(log.len() as int) =~= log);
    assert(log.take(last) =~= log.drop_last());
    assert(write_made(io, start, log, last));
    let ring = write_ring(start, log.drop_last());
    assert(ring.read_area().len() == ring.layout.read_room());
    assert(ring.layout.read_room() > 0);
}

/// A pipe into a vector between two rounds: it is pending, neither side
/// has finished, nothing is in flight, and the ring buffer has room.
pub open spec fn between_rounds(state: TransferView, ring: Ring) -> bool {
    &&& state.future is Pending
    &&& !state.source_done
    &&& !state.sink_done
    &&& state.agrees(ring)
    &&& ring.layout.len == 0
    &&& ring.layout.cap >= 1
}

/// A pipe into a vector that is complete as it should be: the source has
/// met its end, nothing is in flight, and the sink has not closed.
pub open spec fn delivered(state: TransferView) -> bool {
    &&& state.future == FutureState::Completed(())
    &&& state.source_done
    &&& !state.sink_done
    &&& state.buffered.len() == 0
}

/// What is left to do after a round that began with a source that serves
/// `blocks` and `bytes`: either the pipe is complete and the source has
/// handed out all of `bytes`, or the pipe is between rounds and the source
/// serves what `left` tells, which is less than before.
pub open spec fn after_round<I: IoRead>(
    io: I,
    blocks: nat,
    bytes: Seq<u8>,
    round: Round<I, Vec<u8>>,
    left: (nat, Seq<u8>),
) -> bool {
    &&& round.io.consumed() + left.1 == io.consumed() + bytes
    &&& left.0 + left.1.len() <= blocks + bytes.len()
    &&& if delivered(round.wrote) {
        left.1.len() == 0
    } else {
        &&& between_rounds(round.wrote, round.wrote_ring)
        &&& serves(round.io, left.0, left.1)
        &&& left.0 + left.1.len() < blocks + bytes.len()
    }
}

/// One round of a pipe into a vector, out of a source that serves `blocks`
/// and `bytes`. A block is used up and nothing else happens. Without
/// blocks, a source with nothing left completes the pipe, and a source with
/// bytes left hands out at least one, the vector takes all that was handed
/// out, and the pipe is complete if the source met its end in this round.
/// The pipe never fails.
#[verifier::rlimit(50)]
pub proof fn lemma_served_round<I: IoRead>(
    state: TransferView,
    io: I,
    blocks: nat,
    bytes: Seq<u8>,
    ring: Ring,
    sink: Vec<u8>,
    round: Round<I, Vec<u8>>,
) -> (left: (nat, Seq<u8>))
    requires
        between_rounds(state, ring),
        serves(io, blocks, bytes),
        state.round(io, ring, sink, round),
    ensures
        after_round(io, blocks, bytes, round, left),
        round.wrote_ring.layout.cap == ring.layout.cap,
        blocks == 0 && bytes.len() == 0 ==> delivered(round.wrote),
{
    reveal(TransferView::round);
    lemma_overcommit_is_clamped(ring.layout, 0);
    let (rlog, rres) = choose|rlog: Seq<ReadAnswer<I>>, rres: AioResult<AsyncActionResult>|
     #[trigger]
        state.read_ended(io, ring, rlog, rres, round.read, round.io, round.read_ring, round.kept);
    let mid = round.read;
    if blocks > 0 {
        assert(rlog.take(0) =~= Seq::<ReadAnswer<I>>::empty());
        assert(read_made(io, ring, rlog, 0));
        lemma_serves_step(
            io,
            blocks,
            bytes,
            ring.write_area(),
            rlog[0].io,
            rlog[0].region,
            rlog[0].res,
        );
        if rlog.len() > 1 {
            assert(spec_after_read(read_ring(ring, rlog.take(0)).layout, rlog[0].res) is None);
        }
        assert(rlog.drop_last() =~= Seq::<ReadAnswer<I>>::empty());
        assert(round.read_ring.layout == ring.layout);
        assert(mid.buffered.len() == 0);
        assert(round.io.consumed() + bytes =~= io.consumed() + bytes);
        ((blocks - 1) as nat, bytes)
    } else {
        lemma_served_read_run(io, bytes, ring, rlog, round.io, round.read_ring, rres);
        let taken = round.read_ring.layout.len - ring.layout.len;
        let rest = bytes.skip(taken);
        assert(io.consumed() + bytes.subrange(0, taken) + rest =~= io.consumed() + bytes);
        if mid.future is Pending && mid.buffered.len() > 0 {
            let (wlog, wres) = choose|
                wlog: Seq<WriteAnswer<Vec<u8>>>,
                wres: AioResult<AsyncActionResult>,
            | #[trigger]
                mid.write_ended(
                    sink,
                    round.read_ring,
                    wlog,
                    wres,
                    round.wrote,
                    round.sink,
                    round.wrote_ring,
                    round.held,
                );
            lemma_vector_write_run(
                sink,
                round.read_ring,
                wlog,
                round.sink,
                round.wrote_ring,
                wres,
            );
        }
        (0, rest)
    }
}

/// The rounds of a pipe into a vector, out of a source that serves `blocks`
/// and `bytes`, one after the other: before each of them the pipe is
/// between rounds, and the source serves what is left, which is less by at
/// least one block or byte for every round before it.
pub proof fn lemma_served_rounds<I: IoRead>(
    first: TransferView,
    io: I,
    blocks: nat,
    bytes: Seq<u8>,
    ring: Ring,
    sink: Vec<u8>,
    log: Seq<Round<I, Vec<u8>>>,
    k: int,
) -> (left: (nat, Seq<u8>))
    requires
        between_rounds(first, ring),
        serves(io, blocks, bytes),
        first.rounds(io, ring, sink, log),
        0 <= k < log.len(),
    ensures
        ({
            let now = if k == 0 {
                io
            } else {
                log[k - 1].io
            };
            let at = if k == 0 {
                ring
            } else {
                log[k - 1].wrote_ring
            };
            &&& between_rounds(first.before_round(log, k), at)
            &&& at.layout.cap == ring.layout.cap
            &&& serves(now, left.0, left.1)
            &&& now.consumed() + left.1 == io.consumed() + bytes
            &&& left.0 + left.1.len() + k <= blocks + bytes.len()
        }),
    decreases k,
{
    reveal(TransferView::rounds);
    if k == 0 {
        (blocks, bytes)
    } else {
        let was_left = lemma_served_rounds(first, io, blocks, bytes, ring, sink, log, k - 1);
        let j = k - 1;
        let was = if j == 0 {
            io
        } else {
            log[j - 1].io
        };
        let at = if j == 0 {
            ring
        } else {
            log[j - 1].wrote_ring
        };
        let to = if j == 0 {
            sink
        } else {
            log[j - 1].sink
        };
        assert(first.before_round(log, j).round(was, at, to, log[j]));
        let left = lemma_served_round(
            first.before_round(log, j),
            was,
            was_left.0,
            was_left.1,
            at,
            to,
            log[j],
        );
        assert(first.before_round(log, k).round(
            if k == 0 {
                io
            } else {
                log[k - 1].io
            },
            if k == 0 {
                ring
            } else {
                log[k - 1].wrote_ring
            },
            if k == 0 {
                sink
            } else {
                log[k - 1].sink
            },
            log[k],
        ));
        assert(first.before_round(log, k).future is Pending) by {
            reveal(TransferView::round);
        }
        left
    }
}

/// A pipe into a vector completes, and never fails on the way. Of a source
/// that would block `blocks` times, then hands out `bytes`, and then meets
/// its end, and whatever the capacity of the ring buffer, as long as it is
/// not zero: a pipe that began with nothing in flight and was driven for
/// more rounds than there were blocks and bytes is complete, the source has
/// met its end and has handed out exactly `bytes`, nothing is in flight,
/// and the sink has not closed.
pub proof fn lemma_served_pipe_completes<I: IoRead>(
    cap: nat,
    io: I,
    blocks: nat,
    bytes: Seq<u8>,
    sink: Vec<u8>,
    log: Seq<Round<I, Vec<u8>>>,
    limit: nat,
    after: TransferView,
    io_after: I,
    ring_after: Ring,
    sink_after: Vec<u8>,
)
    requires
        1 <= cap <= usize::MAX,
        serves(io, blocks, bytes),
        limit > blocks + bytes.len(),
        Transfer::fresh(cap).ran(
            io,
            Transfer::fresh_ring(cap),
            sink,
            log,
            limit,
            after,
            io_after,
            ring_after,
            sink_after,
        ),
    ensures
        delivered(after),
        io_after.consumed() == io.consumed() + bytes,
{
    let first = Transfer::fresh(cap);
    let ring = Transfer::fresh_ring(cap);
    assert(between_rounds(first, ring));
    assert(log.len() > 0);
    let m = log.len() - 1;
    let was_left = lemma_served_rounds(first, io, blocks, bytes, ring, sink, log, m);
    let was = if m == 0 {
        io
    } else {
        log[m - 1].io
    };
    let at = if m == 0 {
        ring
    } else {
        log[m - 1].wrote_ring
    };
    let to = if m == 0 {
        sink
    } else {
        log[m - 1].sink
    };
    assert(first.before_round(log, m).round(was, at, to, log[m])) by {
        reveal(TransferView::rounds);
    }
    let left = lemma_served_round(
        first.before_round(log, m),
        was,
        was_left.0,
        was_left.1,
        at,
        to,
        log[m],
    );
    assert(io_after.consumed() + left.1 =~= io_after.consumed());
}

/// A pipe into a vector delivers every byte, in order. Of a source that
/// would block `blocks` times, then hands out `bytes`, and then meets its
/// end; whatever the capacity of the ring buffer, as long as it is not
/// zero; and however the bytes were cut up on the way: a pipe that began
/// with nothing in flight and was driven for more rounds than there were
/// blocks and bytes is complete, and the vector holds what it held,
/// followed by `bytes`, and nothing else.
pub proof fn lemma_served_pipe_delivers<I: IoRead>(
    cap: nat,
    io: I,
    blocks: nat,
    bytes: Seq<u8>,
    sink: Vec<u8>,
    log: Seq<Round<I, Vec<u8>>>,
    limit: nat,
    after: TransferView,
    io_after: I,
    ring_after: Ring,
    sink_after: Vec<u8>,
)
    requires
        1 <= cap <= usize::MAX,
        serves(io, blocks, bytes),
        limit > blocks + bytes.len(),
        after.inv(),
        Transfer::fresh(cap).ran(
            io,
            Transfer::fresh_ring(cap),
            sink,
            log,
            limit,
            after,
            io_after,
            ring_after,
            sink_after,
        ),
        Transfer::fresh(cap).carried(
            io.consumed(),
            sink.written(),
            after,
            io_after.consumed(),
            sink_after.written(),
        ),
    ensures
        after.future == FutureState::Completed(()),
        sink_after@ == sink@ + bytes,
{
    lemma_served_pipe_completes(
        cap,
        io,
        blocks,
        bytes,
        sink,
        log,
        limit,
        after,
        io_after,
        ring_after,
        sink_after,
    );
    lemma_complete_pipe_preserves_order(
        cap,
        io.consumed(),
        sink.written(),
        after,
        io_after.consumed(),
        sink_after.written(),
    );
    let moved = sink_after@.skip(sink@.len() as int);
    assert(io_after.consumed().skip(io.consumed().len() as int) =~= bytes);
    assert(sink_after@ =~= sink@ + moved);
}

/// An in-memory source never blocks: it hands out what it has left, and
/// then meets its end.
pub proof fn lemma_memory_serves(io: MemReader)
    requires
        io.wf(),
    ensures
        serves(io, 0, io.remaining()),
    decreases io.remaining().len(),
{
    let bytes = io.remaining();
    io.lemma_consumed();
    reveal(serves);
    assert forall|buf: Seq<u8>, after: MemReader, buf_after: Seq<u8>, res: AioResult<usize>|
     #[trigger]
        io.reads(buf, &after, buf_after, res) implies if bytes.len() == 0 {
        &&& res matches Err(err)
        &&& err.kind == Kind::Eof
        &&& after.consumed() == io.consumed()
    } else if buf.len() == 0 {
        true
    } else {
        &&& res matches Ok(n)
        &&& 1 <= n <= bytes.len()
        &&& n <= buf.len()
        &&& after.consumed() == io.consumed() + bytes.subrange(0, n as int)
        &&& serves(after, 0, bytes.skip(n as int))
    } by {
        after.lemma_consumed();
        if bytes.len() > 0 && buf.len() > 0 {
            let n = res->Ok_0;
            assert(after.remaining() =~= bytes.skip(n as int));
            assert(after.consumed() =~= io.consumed() + bytes.subrange(0, n as int));
            lemma_memory_serves(after);
        } else {
            assert(after.consumed() =~= io.consumed());
        }
    }
}

/// A pipe out of memory into a vector delivers every byte, in order.
/// Whatever the capacity of the ring buffer, as long as it is not zero, and
/// however the bytes were cut up on the way: a pipe that began with nothing
/// in flight and was driven for more rounds than the source had bytes left
/// is complete, and the vector holds what it held, followed by all that the
/// source had left, and nothing else.
pub proof fn lemma_memory_pipe_delivers(
    cap: nat,
    io: MemReader,
    sink: Vec<u8>,
    log: Seq<Round<MemReader, Vec<u8>>>,
    limit: nat,
    after: TransferView,
    io_after: MemReader,
    ring_after: Ring,
    sink_after: Vec<u8>,
)
    requires
        1 <= cap <= usize::MAX,
        io.wf(),
        limit > io.remaining().len(),
        after.inv(),
        Transfer::fresh(cap).ran(
            io,
            Transfer::fresh_ring(cap),
            sink,
            log,
            limit,
            after,
            io_after,
            ring_after,
            sink_after,
        ),
        Transfer::fresh(cap).carried(
            io.consumed(),
            sink.written(),
            after,
            io_after.consumed(),
            sink_after.written(),
        ),
    ensures
        after.future == FutureState::Completed(()),
        sink_after@ == sink@ + io.remaining(),
{
    lemma_memory_serves(io);
    lemma_served_pipe_delivers(
        cap,
        io,
        0,
        io.remaining(),
        sink,
        log,
        limit,
        after,
        io_after,
        ring_after,
        sink_after,
    );
}

} // verus!
