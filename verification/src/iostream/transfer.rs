//! The state that the two callbacks of one pipe share.

use vstd::prelude::*;
use crate::buf::{Layout, Ring, RingBuf};
use crate::error::{is_signal, AioError, AioResult};
use crate::future::{Future, FutureState, Resolution};
use crate::iostream::{
    after_read, after_write, answers, read_to, read_trace, spec_after_read, spec_after_write,
    write_from, write_trace, AsyncActionResult, ReadAnswer, WriteAnswer,
};
use crate::sys::{IoRead, IoWrite};

verus! {

/// What the two callbacks of one pipe share, as the contracts see it.
pub struct TransferView {
    /// The bytes read from the source and not yet written to the sink,
    /// oldest first.
    pub buffered: Seq<u8>,
    /// The capacity of the ring buffer.
    pub cap: nat,
    /// The completion cell of the pipe.
    pub future: FutureState<()>,
    /// The source has reported the end of its stream.
    pub source_done: bool,
    /// The sink has reported that it takes no more.
    pub sink_done: bool,
}

/// One round of a driven pipe: the read callback ran and then the write
/// callback ran.
pub struct Round<I, W> {
    /// The source after the read callback.
    pub io: I,
    /// What is shared after the read callback.
    pub read: TransferView,
    /// The ring buffer after the read callback.
    pub read_ring: Ring,
    /// The answer of the read callback.
    pub kept: bool,
    /// The sink after the write callback.
    pub sink: W,
    /// What is shared after the write callback.
    pub wrote: TransferView,
    /// The ring buffer after the write callback.
    pub wrote_ring: Ring,
    /// The answer of the write callback.
    pub held: bool,
}

/// The state that the read callback and the write callback of one pipe
/// share: the ring buffer between them and the completion cell that
/// whichever side ends the transfer resolves.
///
/// The pipe is complete when the source has reported the end of its stream
/// and the buffer is drained, or when the sink has reported that it takes no
/// more. It has failed when either side met an error that is not a signal.
/// Once the cell is resolved neither callback touches a resource again.
pub struct Transfer {
    buffer: RingBuf,
    future: Future<()>,
    source_done: bool,
    sink_done: bool,
}

impl TransferView {
    /// The state and the answer of the read callback after the read side
    /// ran and ended as `res`.
    pub open spec fn finish_read(self, res: AioResult<AsyncActionResult>) -> (TransferView, bool) {
        if !(self.future is Pending) {
            (self, false)
        } else {
            match res {
                Ok(AsyncActionResult::Done) => (
                    TransferView {
                        source_done: true,
                        future: if self.buffered.len() == 0 {
                            FutureState::Completed(())
                        } else {
                            FutureState::Pending
                        },
                        ..self
                    },
                    false,
                ),
                Ok(AsyncActionResult::MoreLater) => (self, true),
                Err(err) => (TransferView { future: FutureState::Failed(err), ..self }, false),
            }
        }
    }

    /// The state and the answer of the write callback after the write side
    /// ran and ended as `res`.
    pub open spec fn finish_write(self, res: AioResult<AsyncActionResult>) -> (
        TransferView,
        bool,
    ) {
        if !(self.future is Pending) {
            (self, false)
        } else {
            match res {
                Ok(AsyncActionResult::Done) => (
                    TransferView { sink_done: true, future: FutureState::Completed(()), ..self },
                    false,
                ),
                Ok(AsyncActionResult::MoreLater) => if self.source_done && self.buffered.len()
                    == 0 {
                    (TransferView { future: FutureState::Completed(()), ..self }, false)
                } else {
                    (self, true)
                },
                Err(err) => (TransferView { future: FutureState::Failed(err), ..self }, false),
            }
        }
    }

    /// What one run of the read callback may do, on a source that had
    /// handed out `consumed` before it and `consumed_after` after it.
    ///
    /// A pipe that is resolved, or whose source has finished, is left alone
    /// and the source with it, and the callback goes. A pipe whose buffer is
    /// full is left alone too, and the callback stays. Otherwise every byte
    /// that the source handed out is in flight, behind what was in flight
    /// before, and the pipe has recorded one of the ways in which the read
    /// side can end.
    pub open spec fn read_step(
        self,
        consumed: Seq<u8>,
        after: TransferView,
        consumed_after: Seq<u8>,
        keep: bool,
    ) -> bool {
        &&& after.cap == self.cap
        &&& after.sink_done == self.sink_done
        &&& consumed.is_prefix_of(consumed_after)
        &&& after.buffered == self.buffered + consumed_after.skip(consumed.len() as int)
        &&& if !(self.future is Pending) || self.source_done {
            &&& !keep
            &&& after == self
            &&& consumed_after == consumed
        } else if self.buffered.len() == self.cap {
            // no room: the side suspends without a read
            &&& keep
            &&& after == self
            &&& consumed_after == consumed
        } else {
            exists|res: AioResult<AsyncActionResult>|
                {
                    &&& #[trigger] answers(res)
                    &&& (after, keep) == (TransferView {
                        buffered: after.buffered,
                        ..self
                    }).finish_read(res)
                }
        }
    }

    /// What one run of the write callback may do, on a sink that had
    /// accepted `written` before it and `written_after` after it.
    ///
    /// A pipe that is resolved is left alone and the sink with it, and the
    /// callback goes. With nothing in flight no write is made: the pipe is
    /// complete if the source has finished, and else the callback stays.
    /// Otherwise the bytes that the sink accepted are the oldest bytes that
    /// were in flight, in order, they are in flight no longer, and the pipe
    /// has recorded one of the ways in which the write side can end.
    pub open spec fn write_step(
        self,
        written: Seq<u8>,
        after: TransferView,
        written_after: Seq<u8>,
        keep: bool,
    ) -> bool {
        &&& after.cap == self.cap
        &&& after.source_done == self.source_done
        &&& written.is_prefix_of(written_after)
        &&& self.buffered == written_after.skip(written.len() as int) + after.buffered
        &&& if !(self.future is Pending) {
            &&& !keep
            &&& after == self
            &&& written_after == written
        } else if self.buffered.len() == 0 {
            // nothing in flight: no write, and the pipe is complete when
            // the source has finished
            &&& written_after == written
            &&& (after, keep) == self.finish_write(Ok(AsyncActionResult::MoreLater))
        } else {
            exists|res: AioResult<AsyncActionResult>|
                {
                    &&& #[trigger] answers(res)
                    &&& (after, keep) == (TransferView {
                        buffered: after.buffered,
                        ..self
                    }).finish_write(res)
                }
        }
    }

    /// That what is shared and the ring buffer `ring` tell of the same
    /// buffer: the same capacity, as many bytes in flight as the cursors
    /// count, and the cursors in range.
    pub open spec fn agrees(self, ring: Ring) -> bool {
        &&& ring.layout.wf()
        &&& ring.storage.len() == ring.layout.cap
        &&& ring.layout.cap <= usize::MAX
        &&& self.cap == ring.layout.cap
        &&& self.buffered.len() == ring.layout.len
    }

    /// That a run of the read side which `log` tells ended as `res` and
    /// was recorded: see `read_trace` and `finish_read`.
    pub open spec fn read_ended<I: IoRead>(
        self,
        io: I,
        ring: Ring,
        log: Seq<ReadAnswer<I>>,
        res: AioResult<AsyncActionResult>,
        after: TransferView,
        io_after: I,
        ring_after: Ring,
        keep: bool,
    ) -> bool {
        &&& read_trace(io, ring, log, io_after, ring_after, res)
        &&& (after, keep) == (TransferView { buffered: after.buffered, ..self }).finish_read(res)
    }

    /// That a run of the write side which `log` tells ended as `res` and
    /// was recorded: see `write_trace` and `finish_write`.
    pub open spec fn write_ended<W: IoWrite>(
        self,
        io: W,
        ring: Ring,
        log: Seq<WriteAnswer<W>>,
        res: AioResult<AsyncActionResult>,
        after: TransferView,
        io_after: W,
        ring_after: Ring,
        keep: bool,
    ) -> bool {
        &&& write_trace(io, ring, log, io_after, ring_after, res)
        &&& (after, keep) == (TransferView { buffered: after.buffered, ..self }).finish_write(res)
    }

    /// What one run of the read callback does, on the source `io` and the
    /// ring buffer `ring`.
    ///
    /// It does what `read_step` says of the bytes. A pipe that is resolved,
    /// or whose source has finished, or whose buffer is full, makes no raw
    /// read: source and buffer stay as they are. Otherwise the run is one
    /// that `read_trace` tells, of raw reads that the source itself made,
    /// and the pipe has recorded how it ended.
    pub open spec fn read_tied<I: IoRead>(
        self,
        io: I,
        ring: Ring,
        after: TransferView,
        io_after: I,
        ring_after: Ring,
        keep: bool,
    ) -> bool {
        &&& self.read_step(io.consumed(), after, io_after.consumed(), keep)
        &&& after.agrees(ring_after)
        &&& if !(self.future is Pending) || self.source_done || ring.layout.write_room() == 0 {
            &&& io_after == io
            &&& ring_after == ring
        } else {
            exists|log: Seq<ReadAnswer<I>>, res: AioResult<AsyncActionResult>| #[trigger]
                self.read_ended(io, ring, log, res, after, io_after, ring_after, keep)
        }
    }

    /// What one run of the write callback does, on the sink `io` and the
    /// ring buffer `ring`.
    ///
    /// It does what `write_step` says of the bytes. A pipe that is
    /// resolved, or with nothing in flight, makes no raw write: sink and
    /// buffer stay as they are. Otherwise the run is one that `write_trace`
    /// tells, of raw writes that the sink itself made, and the pipe has
    /// recorded how it ended.
    pub open spec fn write_tied<W: IoWrite>(
        self,
        io: W,
        ring: Ring,
        after: TransferView,
        io_after: W,
        ring_after: Ring,
        keep: bool,
    ) -> bool {
        &&& self.write_step(io.written(), after, io_after.written(), keep)
        &&& after.agrees(ring_after)
        &&& if !(self.future is Pending) || self.buffered.len() == 0 {
            &&& io_after == io
            &&& ring_after == ring
        } else {
            exists|log: Seq<WriteAnswer<W>>, res: AioResult<AsyncActionResult>| #[trigger]
                self.write_ended(io, ring, log, res, after, io_after, ring_after, keep)
        }
    }

    /// What any number of runs of the two callbacks carry, on a source that
    /// had handed out `consumed` before them and `consumed_after` after
    /// them, and a sink that had accepted `written` and `written_after`.
    ///
    /// What was in flight before, followed by what the source handed out,
    /// is what the sink accepted followed by what is in flight after: no
    /// byte is lost, none is made up, and none overtakes another. A pipe
    /// that was resolved before is left alone, and both resources with it.
    /// A pipe fails only with an error that is not a signal.
    pub open spec fn carried(
        self,
        consumed: Seq<u8>,
        written: Seq<u8>,
        after: TransferView,
        consumed_after: Seq<u8>,
        written_after: Seq<u8>,
    ) -> bool {
        &&& after.cap == self.cap
        &&& consumed.is_prefix_of(consumed_after)
        &&& written.is_prefix_of(written_after)
        &&& self.buffered + consumed_after.skip(consumed.len() as int) == written_after.skip(
            written.len() as int,
        ) + after.buffered
        &&& !(self.future is Pending) ==> {
            &&& after == self
            &&& consumed_after == consumed
            &&& written_after == written
        }
        &&& after.future matches FutureState::Failed(err) ==> self.future
            == FutureState::<()>::Failed(err) || !is_signal(err.kind)
    }

    /// What is shared before the `i`-th of `log`, in a run that began with
    /// `self`.
    pub open spec fn before_round<I, W>(self, log: Seq<Round<I, W>>, i: int) -> TransferView {
        if i == 0 {
            self
        } else {
            log[i - 1].wrote
        }
    }

    /// One round that began with `self`, on the source `io`, the ring
    /// buffer `ring` and the sink `sink`: the pipe was pending, the read
    /// callback ran, and the write callback ran after it.
    #[verifier::opaque]
    pub open spec fn round<I: IoRead, W: IoWrite>(
        self,
        io: I,
        ring: Ring,
        sink: W,
        round: Round<I, W>,
    ) -> bool {
        &&& self.future is Pending
        &&& self.read_tied(io, ring, round.read, round.io, round.read_ring, round.kept)
        &&& round.read.write_tied(
            sink,
            round.read_ring,
            round.wrote,
            round.sink,
            round.wrote_ring,
            round.held,
        )
    }

    /// A run of rounds that began with `self`, on the source `io`, the ring
    /// buffer `ring` and the sink `sink`: every round took the pipe, the
    /// source, the buffer and the sink from where the round before had left
    /// them.
    #[verifier::opaque]
    pub open spec fn rounds<I: IoRead, W: IoWrite>(
        self,
        io: I,
        ring: Ring,
        sink: W,
        log: Seq<Round<I, W>>,
    ) -> bool {
        forall|i: int|
            0 <= i < log.len() ==> self.before_round(log, i).round(
                if i == 0 {
                    io
                } else {
                    log[i - 1].io
                },
                if i == 0 {
                    ring
                } else {
                    log[i - 1].wrote_ring
                },
                if i == 0 {
                    sink
                } else {
                    log[i - 1].sink
                },
                #[trigger] log[i],
            )
    }

    /// What driving a pipe for at most `limit` rounds does, told by the log
    /// of its rounds: the rounds follow one another as `rounds` says, the
    /// drive stopped when the pipe was resolved or the limit was reached and
    /// not before, and `after`, `io_after`, `ring_after` and `sink_after`
    /// are where the last round left the pipe, the source, the buffer and
    /// the sink.
    pub open spec fn ran<I: IoRead, W: IoWrite>(
        self,
        io: I,
        ring: Ring,
        sink: W,
        log: Seq<Round<I, W>>,
        limit: nat,
        after: TransferView,
        io_after: I,
        ring_after: Ring,
        sink_after: W,
    ) -> bool {
        &&& self.rounds(io, ring, sink, log)
        &&& log.len() <= limit
        &&& (log.len() == limit || !(after.future is Pending))
        &&& if log.len() == 0 {
            &&& after == self
            &&& io_after == io
            &&& ring_after == ring
            &&& sink_after == sink
        } else {
            &&& after == log.last().wrote
            &&& io_after == log.last().io
            &&& ring_after == log.last().wrote_ring
            &&& sink_after == log.last().sink
        }
    }

    /// The state after the transfer is aborted with `err`: a pending pipe
    /// fails with it, a resolved one stays as it is.
    pub open spec fn abort(self, err: AioError) -> TransferView {
        TransferView { future: self.future.offer(Resolution::Fail(err)), ..self }
    }

    /// What holds of every state that the callbacks reach: a pipe completes
    /// only when nothing is left in flight or the sink has closed, and no
    /// more is held than fits.
    pub open spec fn inv(self) -> bool {
        &&& self.buffered.len() <= self.cap
        &&& self.future is Completed ==> {
            ||| self.sink_done
            ||| (self.source_done && self.buffered.len() == 0)
        }
    }
}

impl View for Transfer {
    type V = TransferView;

    closed spec fn view(&self) -> TransferView {
        TransferView {
            buffered: self.buffer@,
            cap: self.buffer.layout().cap,
            future: self.future@,
            source_done: self.source_done,
            sink_done: self.sink_done,
        }
    }
}

impl Transfer {
    /// The state is valid.
    pub closed spec fn wf(&self) -> bool {
        &&& self.buffer.wf()
        &&& self@.inv()
    }

    /// A valid state satisfies what holds of every state, and its cursors
    /// count what is in flight.
    pub proof fn lemma_wf_inv(&self)
        requires
            self.wf(),
        ensures
            self@.inv(),
            self.layout().wf(),
            self.layout().cap == self@.cap,
            self.layout().len == self@.buffered.len(),
            self.ring().layout == self.layout(),
            self@.agrees(self.ring()),
    {
    }

    /// What is shared when nothing has moved yet.
    pub open spec fn fresh(cap: nat) -> TransferView {
        TransferView {
            buffered: Seq::empty(),
            cap: cap,
            future: FutureState::Pending,
            source_done: false,
            sink_done: false,
        }
    }

    /// The state of a pipe that has moved nothing yet, with a ring buffer
    /// of the given capacity.
    pub fn new(capacity: usize) -> (transfer: Transfer)
        ensures
            transfer.wf(),
            transfer@ == Transfer::fresh(capacity as nat),
            transfer.layout() == (Layout { cap: capacity as nat, pos: 0, len: 0 }),
            transfer.ring() == Transfer::fresh_ring(capacity as nat),
    {
        Transfer {
            buffer: RingBuf::new(capacity),
            future: Future::new(),
            source_done: false,
            sink_done: false,
        }
    }

    /// Whether the pipe is neither complete nor failed.
    pub fn is_pending(&self) -> (b: bool)
        ensures
            b == (self@.future is Pending),
    {
        self.future.is_pending()
    }

    /// The number of bytes in flight.
    pub fn buffered(&self) -> (n: usize)
        requires
            self.wf(),
        ensures
            n == self@.buffered.len(),
    {
        self.buffer.remaining_to_read()
    }

    /// The consumer's side of the completion cell: the outcome of the pipe,
    /// once, when there is one.
    pub fn take(&mut self) -> (outcome: Option<AioResult<()>>)
        requires
            old(self).wf(),
        ensures
            final(self).wf(),
            outcome == old(self)@.future.outcome(),
            final(self)@ == (TransferView { future: old(self)@.future.taken(), ..old(self)@ }),
            final(self).ring() == old(self).ring(),
    {
        self.future.take()
    }

    /// Records how a run of the read side ended, and answers whether the
    /// read callback stays registered. A finished source completes the pipe
    /// at once when nothing is in flight; an error fails it. A pipe that is
    /// already resolved is left as it is.
    pub fn finish_read(&mut self, res: AioResult<AsyncActionResult>) -> (keep: bool)
        requires
            old(self).wf(),
        ensures
            final(self).wf(),
            (final(self)@, keep) == old(self)@.finish_read(res),
            final(self).layout() == old(self).layout(),
            final(self).ring() == old(self).ring(),
    {
        if !self.future.is_pending() {
            return false;
        }
        match res {
            Ok(AsyncActionResult::Done) => {
                self.source_done = true;
                if self.buffer.is_empty() {
                    self.future.complete(());
                }
                false
            },
            Ok(AsyncActionResult::MoreLater) => true,
            Err(err) => {
                self.future.fail(err);
                false
            },
        }
    }

    /// Records how a run of the write side ended, and answers whether the
    /// write callback stays registered. A sink that takes no more completes
    /// the pipe; so does a drained buffer after the source has finished; an
    /// error fails it. A pipe that is already resolved is left as it is.
    pub fn finish_write(&mut self, res: AioResult<AsyncActionResult>) -> (keep: bool)
        requires
            old(self).wf(),
        ensures
            final(self).wf(),
            (final(self)@, keep) == old(self)@.finish_write(res),
            final(self).layout() == old(self).layout(),
            final(self).ring() == old(self).ring(),
    {
        if !self.future.is_pending() {
            return false;
        }
        match res {
            Ok(AsyncActionResult::Done) => {
                self.sink_done = true;
                self.future.complete(());
                false
            },
            Ok(AsyncActionResult::MoreLater) => {
                if self.source_done && self.buffer.is_empty() {
                    self.future.complete(());
                    false
                } else {
                    true
                }
            },
            Err(err) => {
                self.future.fail(err);
                false
            },
        }
    }

    /// The read callback: on a readable notification, fills the buffer from
    /// the source and records how that ended. Returns whether the callback
    /// stays registered.
    ///
    /// A pipe that is resolved, or whose source has finished, makes no read
    /// attempt and changes nothing. Otherwise every byte that the source
    /// hands out is in flight afterwards, behind what was in flight before.
    pub fn on_read<I: IoRead>(&mut self, io: &mut I) -> (keep: bool)
        requires
            old(self).wf(),
        ensures
            final(self).wf(),
            old(self)@.read_tied(
                *old(io),
                old(self).ring(),
                final(self)@,
                *final(io),
                final(self).ring(),
                keep,
            ),
    {
        if !self.future.is_pending() || self.source_done {
            assert(io.consumed().skip(io.consumed().len() as int) =~= Seq::<u8>::empty());
            return false;
        }
        let ghost room = self.layout().write_room();
        let res = read_to(io, &mut self.buffer);
        let ghost mid = self@;
        let ghost ring = self.ring();
        let keep = self.finish_read(res);
        assert(answers(res) && (self@, keep) == mid.finish_read(res));
        proof {
            if room > 0 {
                let seen = choose|seen: Seq<ReadAnswer<I>>| #[trigger]
                    read_trace(*old(io), old(self).ring(), seen, *io, ring, res);
                assert(old(self)@.read_ended(
                    *old(io),
                    old(self).ring(),
                    seen,
                    res,
                    self@,
                    *io,
                    self.ring(),
                    keep,
                ));
            }
        }
        keep
    }

    /// The write callback: on a writable opportunity, drains the buffer into
    /// the sink and records how that ended. Returns whether the callback
    /// stays registered.
    ///
    /// A pipe that is resolved makes no write attempt and changes nothing.
    /// Otherwise the bytes that the sink accepts are the oldest bytes in
    /// flight, in order, and are in flight no longer.
    pub fn on_write<W: IoWrite>(&mut self, writer: &mut W) -> (keep: bool)
        requires
            old(self).wf(),
        ensures
            final(self).wf(),
            old(self)@.write_tied(
                *old(writer),
                old(self).ring(),
                final(self)@,
                *final(writer),
                final(self).ring(),
                keep,
            ),
    {
        if !self.future.is_pending() {
            assert(writer.written().skip(writer.written().len() as int) + self@.buffered
                =~= self@.buffered);
            return false;
        }
        let res = write_from(&mut self.buffer, writer);
        let ghost mid = self@;
        let ghost ring = self.ring();
        let keep = self.finish_write(res);
        assert(answers(res) && (self@, keep) == mid.finish_write(res));
        proof {
            if old(self)@.buffered.len() > 0 {
                let seen = choose|seen: Seq<WriteAnswer<W>>| #[trigger]
                    write_trace(*old(writer), old(self).ring(), seen, *writer, ring, res);
                assert(old(self)@.write_ended(
                    *old(writer),
                    old(self).ring(),
                    seen,
                    res,
                    self@,
                    *writer,
                    self.ring(),
                    keep,
                ));
            }
        }
        keep
    }

    /// Where the cursors of the ring buffer stand.
    pub closed spec fn layout(&self) -> Layout {
        self.buffer.layout()
    }

    /// The ring buffer: its storage and its cursors.
    pub closed spec fn ring(&self) -> Ring {
        self.buffer.ring()
    }

    /// The ring buffer of a pipe that has moved nothing yet.
    pub open spec fn fresh_ring(cap: nat) -> Ring {
        Ring {
            storage: Seq::new(cap, |i: int| 0u8),
            layout: Layout { cap: cap, pos: 0, len: 0 },
        }
    }

    /// The region of the ring buffer that the next raw read fills.
    pub closed spec fn write_area(&self) -> Seq<u8> {
        self.buffer.write_area()
    }

    /// Whether the read callback has a raw read to make: the pipe is
    /// pending, the source has not finished, and the buffer has room.
    pub fn wants_read(&self) -> (b: bool)
        requires
            self.wf(),
        ensures
            b == (self@.future is Pending && !self@.source_done && self.layout().write_room()
                > 0),
    {
        self.future.is_pending() && !self.source_done && self.buffer.has_remaining_to_write()
    }

    /// Whether the write callback has a raw write to make: the pipe is
    /// pending and bytes are in flight.
    pub fn wants_write(&self) -> (b: bool)
        requires
            self.wf(),
        ensures
            b == (self@.future is Pending && self@.buffered.len() > 0),
    {
        self.future.is_pending() && self.buffer.has_remaining_to_read()
    }

    /// The free region of the ring buffer, for one raw read by a caller
    /// that does its own reading. Filling it changes nothing that is in
    /// flight; `take_read` commits what was read.
    pub fn read_region(&mut self) -> (region: &mut [u8])
        requires
            old(self).wf(),
        ensures
            region@ == old(self).write_area(),
            region@.len() == old(self).layout().write_room(),
            final(region)@.len() == region@.len() ==> {
                &&& final(self).wf()
                &&& final(self)@ == old(self)@
                &&& final(self).layout() == old(self).layout()
                &&& final(self).write_area() == final(region)@
            },
    {
        self.buffer.mut_bytes()
    }

    /// Takes the result of one raw read into the region that `read_region`
    /// gave. `None` asks for another read; `Some(keep)` is the answer of the
    /// read callback.
    ///
    /// A pipe that is resolved, or whose source has finished, takes nothing
    /// and answers `Some(false)`. Otherwise the bytes read are in flight,
    /// behind what was in flight before; the side reads again unless the
    /// read gave no bytes, the buffer is full, or the read failed, and then
    /// the pipe records how the run ended as `finish_read` says.
    pub fn take_read(&mut self, res: AioResult<usize>) -> (answer: Option<bool>)
        requires
            old(self).wf(),
        ensures
            final(self).wf(),
            final(self)@.buffered.len() == final(self).layout().len,
            !(old(self)@.future is Pending) || old(self)@.source_done ==> {
                &&& answer == Some(false)
                &&& final(self)@ == old(self)@
                &&& final(self).layout() == old(self).layout()
            },
            old(self)@.future is Pending && !old(self)@.source_done ==> {
                let moved = (TransferView {
                    buffered: old(self)@.buffered + old(self).write_area().subrange(
                        0,
                        (final(self)@.buffered.len() - old(self)@.buffered.len()) as int,
                    ),
                    ..old(self)@
                });
                &&& final(self).layout() == match res {
                    Ok(n) => old(self).layout().commit(n as nat),
                    Err(_) => old(self).layout(),
                }
                &&& match spec_after_read(old(self).layout(), res) {
                    None => answer == None::<bool> && final(self)@ == moved,
                    Some(out) => (final(self)@, answer) == (
                        moved.finish_read(out).0,
                        Some(moved.finish_read(out).1),
                    ),
                }
            },
    {
        if !self.future.is_pending() || self.source_done {
            return Some(false);
        }
        let next = after_read(&mut self.buffer, res);
        let ghost mid = self@;
        proof {
            let added = old(self).write_area().subrange(
                0,
                (mid.buffered.len() - old(self)@.buffered.len()) as int,
            );
            assert(mid == (TransferView { buffered: old(self)@.buffered + added, ..old(self)@ }));
        }
        match next {
            None => None,
            Some(out) => {
                let keep = self.finish_read(out);
                assert(self@.buffered == mid.buffered);
                Some(keep)
            },
        }
    }

    /// The filled region of the ring buffer, for one raw write by a caller
    /// that does its own writing: the oldest bytes in flight. `take_write`
    /// commits what was written.
    pub fn write_region(&self) -> (region: &[u8])
        requires
            self.wf(),
        ensures
            region@ == self@.buffered.subrange(0, self.layout().read_room() as int),
            region@.len() == 0 <==> self@.buffered.len() == 0,
    {
        self.buffer.bytes()
    }

    /// Takes the result of one raw write of the region that `write_region`
    /// gave. `None` asks for another write; `Some(keep)` is the answer of
    /// the write callback.
    ///
    /// A pipe that is resolved takes nothing and answers `Some(false)`.
    /// Otherwise the bytes written are in flight no longer; the side writes
    /// again unless the write took no bytes, the buffer is empty, or the
    /// write failed, and then the pipe records how the run ended as
    /// `finish_write` says.
    pub fn take_write(&mut self, res: AioResult<usize>) -> (answer: Option<bool>)
        requires
            old(self).wf(),
        ensures
            final(self).wf(),
            final(self)@.buffered.len() == final(self).layout().len,
            !(old(self)@.future is Pending) ==> {
                &&& answer == Some(false)
                &&& final(self)@ == old(self)@
                &&& final(self).layout() == old(self).layout()
            },
            old(self)@.future is Pending ==> {
                let moved = (TransferView {
                    buffered: old(self)@.buffered.skip(
                        (old(self)@.buffered.len() - final(self)@.buffered.len()) as int,
                    ),
                    ..old(self)@
                });
                &&& final(self).layout() == match res {
                    Ok(n) => old(self).layout().consume(n as nat),
                    Err(_) => old(self).layout(),
                }
                &&& match spec_after_write(old(self).layout(), res) {
                    None => answer == None::<bool> && final(self)@ == moved,
                    Some(out) => (final(self)@, answer) == (
                        moved.finish_write(out).0,
                        Some(moved.finish_write(out).1),
                    ),
                }
            },
    {
        if !self.future.is_pending() {
            return Some(false);
        }
        let next = after_write(&mut self.buffer, res);
        let ghost mid = self@;
        proof {
            let left = old(self)@.buffered.skip(
                (old(self)@.buffered.len() - mid.buffered.len()) as int,
            );
            assert(mid == (TransferView { buffered: left, ..old(self)@ }));
        }
        match next {
            None => None,
            Some(out) => {
                let keep = self.finish_write(out);
                assert(self@.buffered == mid.buffered);
                Some(keep)
            },
        }
    }

    /// Gives the completion cell away, as it stands.
    pub fn into_future(self) -> (future: Future<()>)
        ensures
            future@ == self@.future,
    {
        self.future
    }

    /// Aborts the transfer with `err`: a pending pipe fails with it, a
    /// resolved one stays as it is. This is how a defect of the bookkeeping
    /// ends a transfer.
    pub fn abort(&mut self, err: AioError)
        requires
            old(self).wf(),
        ensures
            final(self).wf(),
            final(self)@ == old(self)@.abort(err),
            final(self).layout() == old(self).layout(),
            final(self).ring() == old(self).ring(),
    {
        self.future.offer(Resolution::Fail(err));
    }
}

/// A run of no rounds is a run.
pub proof fn lemma_rounds_none<I: IoRead, W: IoWrite>(
    first: TransferView,
    io: I,
    ring: Ring,
    sink: W,
)
    ensures
        first.rounds(io, ring, sink, Seq::<Round<I, W>>::empty()),
{
    reveal(TransferView::rounds);
}

/// A run goes on by one round: the pipe is pending where the run has left
/// it, the read callback runs from there, and the write callback after it.
pub proof fn lemma_rounds_push<I: IoRead, W: IoWrite>(
    first: TransferView,
    io: I,
    ring: Ring,
    sink: W,
    log: Seq<Round<I, W>>,
    round: Round<I, W>,
)
    requires
        first.rounds(io, ring, sink, log),
        first.before_round(log.push(round), log.len() as int).future is Pending,
        first.before_round(log.push(round), log.len() as int).read_tied(
            if log.len() == 0 {
                io
            } else {
                log.last().io
            },
            if log.len() == 0 {
                ring
            } else {
                log.last().wrote_ring
            },
            round.read,
            round.io,
            round.read_ring,
            round.kept,
        ),
        round.read.write_tied(
            if log.len() == 0 {
                sink
            } else {
                log.last().sink
            },
            round.read_ring,
            round.wrote,
            round.sink,
            round.wrote_ring,
            round.held,
        ),
    ensures
        first.rounds(io, ring, sink, log.push(round)),
{
    let now = log.push(round);
    let last = log.len() as int;
    assert(first.before_round(now, last).round(
        if last == 0 {
            io
        } else {
            now[last - 1].io
        },
        if last == 0 {
            ring
        } else {
            now[last - 1].wrote_ring
        },
        if last == 0 {
            sink
        } else {
            now[last - 1].sink
        },
        now[last],
    )) by {
        reveal(TransferView::round);
    }
    reveal(TransferView::rounds);
    assert forall|i: int| 0 <= i < now.len() implies first.before_round(now, i).round(
        if i == 0 {
            io
        } else {
            now[i - 1].io
        },
        if i == 0 {
            ring
        } else {
            now[i - 1].wrote_ring
        },
        if i == 0 {
            sink
        } else {
            now[i - 1].sink
        },
        #[trigger] now[i],
    ) by {
        if i < last {
            assert(now[i] == log[i]);
            assert(first.before_round(now, i) == first.before_round(log, i));
        }
    }
}

/// Nothing done carries nothing.
pub proof fn lemma_carried_nothing(state: TransferView, consumed: Seq<u8>, written: Seq<u8>)
    ensures
        state.carried(consumed, written, state, consumed, written),
{
    assert(consumed.skip(consumed.len() as int) =~= Seq::<u8>::empty());
    assert(written.skip(written.len() as int) =~= Seq::<u8>::empty());
    assert(state.buffered + Seq::<u8>::empty() =~= Seq::<u8>::empty() + state.buffered);
}

/// One run of the read callback carries what it read, whatever the sink has
/// accepted.
pub proof fn lemma_carried_read(
    before: TransferView,
    consumed: Seq<u8>,
    written: Seq<u8>,
    after: TransferView,
    consumed_after: Seq<u8>,
    keep: bool,
)
    requires
        before.read_step(consumed, after, consumed_after, keep),
    ensures
        before.carried(consumed, written, after, consumed_after, written),
{
    assert(written.skip(written.len() as int) =~= Seq::<u8>::empty());
    assert(Seq::<u8>::empty() + after.buffered =~= after.buffered);
}

/// One run of the write callback carries what it wrote, whatever the source
/// has handed out.
pub proof fn lemma_carried_write(
    before: TransferView,
    consumed: Seq<u8>,
    written: Seq<u8>,
    after: TransferView,
    written_after: Seq<u8>,
    keep: bool,
)
    requires
        before.write_step(written, after, written_after, keep),
    ensures
        before.carried(consumed, written, after, consumed, written_after),
{
    assert(consumed.skip(consumed.len() as int) =~= Seq::<u8>::empty());
    assert(before.buffered + Seq::<u8>::empty() =~= before.buffered);
}

/// What is carried in two stretches is carried over both.
pub proof fn lemma_carried_chain(
    first: TransferView,
    consumed: Seq<u8>,
    written: Seq<u8>,
    second: TransferView,
    consumed_mid: Seq<u8>,
    written_mid: Seq<u8>,
    third: TransferView,
    consumed_after: Seq<u8>,
    written_after: Seq<u8>,
)
    requires
        first.carried(consumed, written, second, consumed_mid, written_mid),
        second.carried(consumed_mid, written_mid, third, consumed_after, written_after),
    ensures
        first.carried(consumed, written, third, consumed_after, written_after),
{
    let c0 = consumed.len() as int;
    let c1 = consumed_mid.len() as int;
    let w0 = written.len() as int;
    let w1 = written_mid.len() as int;
    assert(consumed_after.skip(c0) =~= consumed_mid.skip(c0) + consumed_after.skip(c1));
    assert(written_after.skip(w0) =~= written_mid.skip(w0) + written_after.skip(w1));
    assert(first.buffered + consumed_after.skip(c0) =~= (first.buffered + consumed_mid.skip(c0))
        + consumed_after.skip(c1));
    assert((written_mid.skip(w0) + second.buffered) + consumed_after.skip(c1)
        =~= written_mid.skip(w0) + (second.buffered + consumed_after.skip(c1)));
    assert(written_mid.skip(w0) + (written_after.skip(w1) + third.buffered) =~= written_after.skip(
        w0,
    ) + third.buffered);
}

/// Order preservation. A pipe that is complete, on a sink that did not
/// close, has delivered everything: what the sink accepted is what was in
/// flight at the start followed by every byte that the source handed out,
/// in that order. This holds for every capacity and however the reads and
/// the writes were cut up.
pub proof fn lemma_complete_pipe_delivered_all(
    before: TransferView,
    consumed: Seq<u8>,
    written: Seq<u8>,
    after: TransferView,
    consumed_after: Seq<u8>,
    written_after: Seq<u8>,
)
    requires
        before.carried(consumed, written, after, consumed_after, written_after),
        after.inv(),
        after.future is Completed,
        !after.sink_done,
    ensures
        after.source_done,
        after.buffered.len() == 0,
        written_after == written + before.buffered + consumed_after.skip(consumed.len() as int),
{
    let moved = written_after.skip(written.len() as int);
    assert(moved + after.buffered =~= moved);
    assert(written_after =~= written + moved);
}

/// Order preservation, from the start. A pipe that began with nothing in
/// flight and is complete, on a sink that did not close, has handed to the
/// sink exactly the bytes that the source handed out, in the order in which
/// the source handed them out: whatever the capacity of the ring buffer,
/// and however the reads and the writes were cut up.
pub proof fn lemma_complete_pipe_preserves_order(
    cap: nat,
    consumed: Seq<u8>,
    written: Seq<u8>,
    after: TransferView,
    consumed_after: Seq<u8>,
    written_after: Seq<u8>,
)
    requires
        Transfer::fresh(cap).carried(consumed, written, after, consumed_after, written_after),
        after.inv(),
        after.future is Completed,
        !after.sink_done,
    ensures
        written_after.skip(written.len() as int) == consumed_after.skip(consumed.len() as int),
{
    let read = consumed_after.skip(consumed.len() as int);
    let moved = written_after.skip(written.len() as int);
    assert(Seq::<u8>::empty() + read =~= read);
    assert(moved + after.buffered =~= moved);
}

/// A failure of the sink fails the pipe with that very error. If any raw
/// write of a run of the write callback, on a pending pipe, failed with an
/// error that is not a signal, then that write was the last of the run, the
/// pipe has failed with the error as it came, and the callback goes.
pub proof fn lemma_write_failure_fails_the_pipe<W: IoWrite>(
    before: TransferView,
    io: W,
    ring: Ring,
    log: Seq<WriteAnswer<W>>,
    res: AioResult<AsyncActionResult>,
    after: TransferView,
    io_after: W,
    ring_after: Ring,
    keep: bool,
    i: int,
    err: AioError,
)
    requires
        before.future is Pending,
        before.write_ended(io, ring, log, res, after, io_after, ring_after, keep),
        0 <= i < log.len(),
        log[i].res == Err::<usize, AioError>(err),
        !is_signal(err.kind),
    ensures
        i == log.len() - 1,
        res == Err::<AsyncActionResult, AioError>(err),
        after.future == FutureState::<()>::Failed(err),
        !keep,
{
    assert(log.take(log.len() - 1) =~= log.drop_last());
}

/// A failure of the source fails the pipe with that very error; see
/// `lemma_write_failure_fails_the_pipe`.
pub proof fn lemma_read_failure_fails_the_pipe<I: IoRead>(
    before: TransferView,
    io: I,
    ring: Ring,
    log: Seq<ReadAnswer<I>>,
    res: AioResult<AsyncActionResult>,
    after: TransferView,
    io_after: I,
    ring_after: Ring,
    keep: bool,
    i: int,
    err: AioError,
)
    requires
        before.future is Pending,
        before.read_ended(io, ring, log, res, after, io_after, ring_after, keep),
        0 <= i < log.len(),
        log[i].res == Err::<usize, AioError>(err),
        !is_signal(err.kind),
    ensures
        i == log.len() - 1,
        res == Err::<AsyncActionResult, AioError>(err),
        after.future == FutureState::<()>::Failed(err),
        !keep,
{
    assert(log.take(log.len() - 1) =~= log.drop_last());
}

/// "Would block" suspends a side and is no failure. If a raw read of a run
/// of the read callback, on a pending pipe, reported `WouldBlock`, then
/// that read was the last of the run, the callback stays registered, and
/// the pipe is pending as before: nothing is recorded but the bytes that
/// the reads before it brought.
pub proof fn lemma_would_block_suspends_the_read_side<I: IoRead>(
    before: TransferView,
    io: I,
    ring: Ring,
    log: Seq<ReadAnswer<I>>,
    res: AioResult<AsyncActionResult>,
    after: TransferView,
    io_after: I,
    ring_after: Ring,
    keep: bool,
    i: int,
    err: AioError,
)
    requires
        before.future is Pending,
        before.read_ended(io, ring, log, res, after, io_after, ring_after, keep),
        0 <= i < log.len(),
        log[i].res == Err::<usize, AioError>(err),
        err.kind == crate::error::Kind::WouldBlock,
    ensures
        i == log.len() - 1,
        res == Ok::<AsyncActionResult, AioError>(AsyncActionResult::MoreLater),
        keep,
        after == (TransferView { buffered: after.buffered, ..before }),
        after.future is Pending,
{
    assert(log.take(log.len() - 1) =~= log.drop_last());
}

/// The end of the source ends the read side and is no failure. If a raw
/// read of a run of the read callback, on a pending pipe, reported `Eof`,
/// then that read was the last of the run, the callback goes, the source is
/// recorded as finished, and the pipe is complete if nothing is in flight
/// and pending if something is; it has not failed.
pub proof fn lemma_eof_finishes_the_read_side<I: IoRead>(
    before: TransferView,
    io: I,
    ring: Ring,
    log: Seq<ReadAnswer<I>>,
    res: AioResult<AsyncActionResult>,
    after: TransferView,
    io_after: I,
    ring_after: Ring,
    keep: bool,
    i: int,
    err: AioError,
)
    requires
        before.future is Pending,
        before.read_ended(io, ring, log, res, after, io_after, ring_after, keep),
        0 <= i < log.len(),
        log[i].res == Err::<usize, AioError>(err),
        err.kind == crate::error::Kind::Eof,
    ensures
        i == log.len() - 1,
        res == Ok::<AsyncActionResult, AioError>(AsyncActionResult::Done),
        !keep,
        after.source_done,
        after.future == if after.buffered.len() == 0 {
            FutureState::Completed(())
        } else {
            FutureState::<()>::Pending
        },
{
    assert(log.take(log.len() - 1) =~= log.drop_last());
}

/// A source that would block: whatever a read of it does, it reports
/// `WouldBlock`.
pub open spec fn blocked<I: IoRead>(io: I) -> bool {
    forall|buf: Seq<u8>, after: I, buf_after: Seq<u8>, res: AioResult<usize>| #[trigger]
        io.reads(buf, &after, buf_after, res) ==> (res matches Err(err) && err.kind
            == crate::error::Kind::WouldBlock)
}

/// A sink that is broken: every write to it fails with `err`.
pub open spec fn broken<W: IoWrite>(io: W, err: AioError) -> bool {
    forall|buf: Seq<u8>, after: W, res: AioResult<usize>| #[trigger]
        io.writes(buf, &after, res) ==> res == Err::<usize, AioError>(err)
}

/// A round in which the source would block changes nothing and loses
/// nothing: the read callback stays registered, the pipe is pending and
/// has not failed, the source has handed out nothing, and what is shared
/// and the cursors of the ring buffer are as they were when the write side
/// takes over.
pub proof fn lemma_blocked_source_keeps_the_pipe_pending<I: IoRead, W: IoWrite>(
    state: TransferView,
    io: I,
    ring: Ring,
    sink: W,
    round: Round<I, W>,
)
    requires
        state.round(io, ring, sink, round),
        state.agrees(ring),
        !state.source_done,
        ring.layout.write_room() > 0,
        blocked(io),
    ensures
        round.kept,
        round.io.consumed() == io.consumed(),
        round.read == state,
        round.read.future is Pending,
        round.read_ring.layout == ring.layout,
{
    reveal(TransferView::round);
    let (log, res) = choose|log: Seq<ReadAnswer<I>>, res: AioResult<AsyncActionResult>| #[trigger]
        state.read_ended(io, ring, log, res, round.read, round.io, round.read_ring, round.kept);
    assert(log.take(0) =~= Seq::<ReadAnswer<I>>::empty());
    assert(crate::iostream::read_made(io, ring, log, 0));
    let err = log[0].res->Err_0;
    lemma_would_block_suspends_the_read_side(
        state,
        io,
        ring,
        log,
        res,
        round.read,
        round.io,
        round.read_ring,
        round.kept,
        0,
        err,
    );
    assert(log.drop_last() =~= Seq::<ReadAnswer<I>>::empty());
    assert(round.read_ring.layout == ring.layout);
    let delta = round.io.consumed().skip(io.consumed().len() as int);
    assert(round.read.buffered.len() == state.buffered.len() + delta.len());
    assert(round.read.buffered =~= state.buffered);
    assert(round.io.consumed() =~= io.consumed());
}

/// A round in which the sink is broken fails the pipe with the error of
/// the sink, as it came: if there are bytes in flight when the write side
/// takes over, and the pipe is pending, the write callback goes and the
/// pipe has failed with that very error.
pub proof fn lemma_broken_sink_fails_the_pipe<I: IoRead, W: IoWrite>(
    state: TransferView,
    io: I,
    ring: Ring,
    sink: W,
    round: Round<I, W>,
    err: AioError,
)
    requires
        state.round(io, ring, sink, round),
        round.read.future is Pending,
        round.read.buffered.len() > 0,
        broken(sink, err),
        !is_signal(err.kind),
    ensures
        !round.held,
        round.wrote.future == FutureState::<()>::Failed(err),
{
    reveal(TransferView::round);
    let (log, res) = choose|log: Seq<WriteAnswer<W>>, res: AioResult<AsyncActionResult>| #[trigger]
        round.read.write_ended(
            sink,
            round.read_ring,
            log,
            res,
            round.wrote,
            round.sink,
            round.wrote_ring,
            round.held,
        );
    assert(log.take(0) =~= Seq::<WriteAnswer<W>>::empty());
    assert(crate::iostream::write_made(sink, round.read_ring, log, 0));
    lemma_write_failure_fails_the_pipe(
        round.read,
        sink,
        round.read_ring,
        log,
        res,
        round.wrote,
        round.sink,
        round.wrote_ring,
        round.held,
        0,
        err,
    );
}

} // verus!
