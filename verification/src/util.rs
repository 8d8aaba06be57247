//! In-memory sources.

use vstd::prelude::*;
use vstd::slice::slice_subrange;
use crate::error::{is_signal, AioError, AioResult, Kind};
use crate::future::{AioFuture, Future, FutureState, Resolution};
use crate::iostream::{IoReadStream, IoWriteStream, WriteListener};
use crate::sys::{IoRead, IoWrite};

verus! {

/// A source that hands out the bytes of a vector, front to back.
pub struct MemReader {
    data: Vec<u8>,
    offset: usize,
}

/// What the write callback of an in-memory pipe keeps between calls: the
/// source, until the pipe is resolved, and the completion cell, which is
/// completed with the source itself so that the caller gets its bytes back.
pub struct MemPipe {
    this: Option<MemReader>,
    future: Future<MemReader>,
}

impl MemReader {
    /// All the bytes of the source, handed out or not.
    pub closed spec fn data(&self) -> Seq<u8> {
        self.data@
    }

    /// The number of bytes handed out so far.
    pub closed spec fn offset(&self) -> nat {
        self.offset as nat
    }

    /// The source is valid: it has handed out no more than it holds.
    pub open spec fn wf(&self) -> bool {
        self.offset() <= self.data().len() <= usize::MAX
    }

    /// The source after the next `n` bytes are marked as handed out, or all
    /// that remain when fewer remain.
    pub closed spec fn advanced(self, n: nat) -> MemReader {
        MemReader {
            data: self.data,
            offset: if n <= self.remaining().len() {
                (self.offset + n) as usize
            } else {
                self.data@.len() as usize
            },
        }
    }

    /// What a valid source has handed out is the front of its bytes, up to
    /// where it stands.
    pub proof fn lemma_consumed(&self)
        requires
            self.wf(),
        ensures
            self.consumed() == self.data().subrange(0, self.offset() as int),
            self.data() == self.consumed() + self.remaining(),
    {
        assert(self.data() =~= self.consumed() + self.remaining());
    }

    /// What `advanced` does to a valid source: the bytes stay, and the
    /// front of what remained is gone.
    pub proof fn lemma_advanced(self, n: nat)
        requires
            self.wf(),
        ensures
            self.advanced(n).wf(),
            self.advanced(n).data() == self.data(),
            self.advanced(n).offset() == if n <= self.remaining().len() {
                self.offset() + n
            } else {
                self.data().len()
            },
            self.advanced(n).remaining() == if n <= self.remaining().len() {
                self.remaining().skip(n as int)
            } else {
                Seq::empty()
            },
    {
        assert(self.advanced(n).remaining() =~= if n <= self.remaining().len() {
            self.remaining().skip(n as int)
        } else {
            Seq::empty()
        });
    }

    /// The bytes not handed out yet.
    pub open spec fn remaining(&self) -> Seq<u8> {
        if self.offset() >= self.data().len() {
            Seq::empty()
        } else {
            self.data().subrange(self.offset() as int, self.data().len() as int)
        }
    }

    /// A source over the bytes of `vec`, with none handed out.
    pub fn new(vec: Vec<u8>) -> (reader: MemReader)
        ensures
            reader.wf(),
            reader.data() == vec@,
            reader.offset() == 0,
    {
        let _len = vec.len();
        MemReader { data: vec, offset: 0 }
    }

    /// Gives the bytes back, all of them.
    pub fn into_inner(self) -> (vec: Vec<u8>)
        ensures
            vec@ == self.data(),
    {
        self.data
    }

    /// The bytes not handed out yet.
    pub fn as_bytes(&self) -> (bytes: &[u8])
        ensures
            bytes@ == self.remaining(),
    {
        if self.offset >= self.data.len() {
            let empty = slice_subrange(self.data.as_slice(), 0, 0);
            assert(empty@ =~= Seq::<u8>::empty());
            empty
        } else {
            slice_subrange(self.data.as_slice(), self.offset, self.data.len())
        }
    }

    /// Whether every byte was handed out.
    pub fn done(&self) -> (b: bool)
        ensures
            b == (self.data().len() <= self.offset()),
            b == (self.remaining().len() == 0),
    {
        self.data.len() <= self.offset
    }

    /// Marks the next `n` bytes as handed out, or all that remain when
    /// fewer remain.
    pub fn skip(&mut self, n: usize)
        requires
            old(self).wf(),
        ensures
            final(self).wf(),
            final(self).data() == old(self).data(),
            final(self).offset() == if n <= old(self).remaining().len() {
                old(self).offset() + n
            } else {
                old(self).data().len() as int
            },
            *final(self) == old(self).advanced(n as nat),
    {
        let left = self.data.len() - self.offset;
        if n <= left {
            self.offset = self.offset + n;
        } else {
            self.offset = self.data.len();
        }
    }

    /// Starts a pipe out of this source: the state that the write callback
    /// works on.
    pub fn pipe_state(self) -> (pipe: MemPipe)
        requires
            self.wf(),
        ensures
            pipe.wf(),
            pipe.source() == Some(self),
            pipe.future() == FutureState::<MemReader>::Pending,
    {
        MemPipe { this: Some(self), future: Future::new() }
    }
}

impl IoRead for MemReader {
    /// The bytes handed out so far are the front of the vector.
    closed spec fn consumed(&self) -> Seq<u8> {
        if self.offset <= self.data@.len() {
            self.data@.subrange(0, self.offset as int)
        } else {
            self.data@
        }
    }

    /// A read copies the next bytes into the buffer, as many as fit, and
    /// marks them as handed out. A source with nothing left reports `Eof`
    /// and stays as it is.
    open spec fn reads(
        &self,
        buf: Seq<u8>,
        after: &Self,
        buf_after: Seq<u8>,
        res: AioResult<usize>,
    ) -> bool {
        let left = self.remaining().len();
        let n = if buf.len() <= left {
            buf.len()
        } else {
            left
        };
        &&& after.data() == self.data()
        &&& if left == 0 {
            &&& res == Err::<usize, AioError>(AioError::spec_from_kind(Kind::Eof))
            &&& after.offset() == self.offset()
            &&& buf_after == buf
        } else {
            &&& res == Ok::<usize, AioError>(n as usize)
            &&& after.offset() == self.offset() + n
            &&& buf_after == self.remaining().subrange(0, n as int) + buf.skip(n as int)
        }
    }

    fn read(&mut self, buf: &mut [u8]) -> (res: AioResult<usize>) {
        if self.offset >= self.data.len() {
            return Err(AioError::from_kind(Kind::Eof));
        }
        let left = self.data.len() - self.offset;
        let count = if buf.len() <= left {
            buf.len()
        } else {
            left
        };
        let start = self.offset;
        let mut i: usize = 0;
        while i < count
            invariant
                i <= count,
                count <= buf@.len(),
                buf@.len() == old(buf)@.len(),
                start + count <= self.data@.len(),
                self.data@.len() <= usize::MAX,
                self.offset == start,
                self.data@ == old(self).data@,
                forall|j: int| 0 <= j < i ==> buf@[j] == self.data@[start + j],
                forall|j: int| i <= j < buf@.len() ==> buf@[j] == old(buf)@[j],
            decreases count - i,
        {
            buf[i] = self.data[start + i];
            i = i + 1;
        }
        self.offset = start + count;
        proof {
            assert(self.consumed() =~= old(self).consumed() + buf@.subrange(0, count as int));
            assert(buf@.subrange(count as int, old(buf)@.len() as int) =~= old(buf)@.subrange(
                count as int,
                old(buf)@.len() as int,
            ));
            assert(buf@ =~= old(self).remaining().subrange(0, count as int) + old(buf)@.skip(
                count as int,
            ));
        }
        Ok(count)
    }
}

/// One write that the write callback of an in-memory pipe made: the writer
/// as the write left it, and the result of the write.
pub struct MemAnswer<W> {
    pub writer: W,
    pub res: AioResult<usize>,
}

/// One opportunity to write that an in-memory pipe was given.
pub struct MemRound<W> {
    /// The pipe after the write callback.
    pub pipe: MemPipe,
    /// The writer after the write callback.
    pub writer: W,
    /// The answer of the write callback.
    pub keep: bool,
}

/// What the write callback does with the result `res` of one write of all
/// that the source `reader` had left: the answer of the callback, or `None`
/// for writing again, and the source and the completion cell of the pipe
/// after it.
///
/// A write of no bytes, and `WouldBlock`, keep the callback for later and
/// change nothing. A write of some bytes marks them as handed out; the pipe
/// completes with the source when nothing is left, and else the callback
/// writes again. `Eof` completes the pipe with the source as far as it got,
/// and any other error fails it.
pub open spec fn mem_after(reader: MemReader, res: AioResult<usize>) -> (
    Option<bool>,
    Option<MemReader>,
    FutureState<MemReader>,
) {
    match res {
        Ok(n) => if n == 0 {
            (Some(true), Some(reader), FutureState::Pending)
        } else if reader.advanced(n as nat).remaining().len() == 0 {
            (Some(false), None, FutureState::Completed(reader.advanced(n as nat)))
        } else {
            (None, Some(reader.advanced(n as nat)), FutureState::Pending)
        },
        Err(err) => match err.kind {
            Kind::Eof => (Some(false), None, FutureState::Completed(reader)),
            Kind::WouldBlock => (Some(true), Some(reader), FutureState::Pending),
            _ => (Some(false), None, FutureState::Failed(err)),
        },
    }
}

/// The source after the write callback has taken the results of `log`.
pub open spec fn mem_reader<W>(reader: MemReader, log: Seq<MemAnswer<W>>) -> MemReader
    decreases log.len(),
{
    if log.len() == 0 {
        reader
    } else {
        let before = mem_reader(reader, log.drop_last());
        match mem_after(before, log.last().res).1 {
            Some(next) => next,
            None => before,
        }
    }
}

/// The writer after the writes of `log`.
pub open spec fn mem_writer<W>(writer: W, log: Seq<MemAnswer<W>>) -> W {
    if log.len() == 0 {
        writer
    } else {
        log.last().writer
    }
}

/// One run of the write callback of an in-memory pipe on a source with
/// bytes left, told by the writes it made: there was at least one; each was
/// a write, by the writer as the write before had left it, of all that the
/// source had left then; each but the last asked for another; and the last
/// left the pipe with the source `source` and the cell `future`, the writer
/// as `writer_after`, and the answer `keep`.
pub open spec fn mem_traced<W: IoWrite>(
    reader: MemReader,
    writer: W,
    log: Seq<MemAnswer<W>>,
    source: Option<MemReader>,
    future: FutureState<MemReader>,
    writer_after: W,
    keep: bool,
) -> bool {
    &&& log.len() > 0
    &&& forall|i: int|
        0 <= i < log.len() ==> mem_writer(writer, log.take(i)).writes(
            mem_reader(reader, log.take(i)).remaining(),
            &(#[trigger] log[i]).writer,
            log[i].res,
        )
    &&& forall|i: int|
        0 <= i < log.len() - 1 ==> mem_after(
            mem_reader(reader, log.take(i)),
            (#[trigger] log[i]).res,
        ).0 is None
    &&& mem_after(mem_reader(reader, log.drop_last()), log.last().res) == (
        Some(keep),
        source,
        future,
    )
    &&& writer_after == log.last().writer
}

/// A run of the write callback that is still going: every write so far
/// was a write, by the writer as the write before had left it, of all that
/// the source had left then, and every one asked for another.
#[verifier::opaque]
pub open spec fn mem_going<W: IoWrite>(
    reader: MemReader,
    writer: W,
    log: Seq<MemAnswer<W>>,
) -> bool {
    &&& forall|i: int|
        0 <= i < log.len() ==> mem_writer(writer, log.take(i)).writes(
            mem_reader(reader, log.take(i)).remaining(),
            &(#[trigger] log[i]).writer,
            log[i].res,
        )
    &&& forall|i: int|
        0 <= i < log.len() ==> mem_after(
            mem_reader(reader, log.take(i)),
            (#[trigger] log[i]).res,
        ).0 is None
}

/// A run that has made no write is going.
pub proof fn lemma_going_none<W: IoWrite>(reader: MemReader, writer: W)
    ensures
        mem_going(reader, writer, Seq::<MemAnswer<W>>::empty()),
{
    reveal(mem_going);
}

/// A run goes on by a write that asks for another.
pub proof fn lemma_going_push<W: IoWrite>(
    reader: MemReader,
    writer: W,
    log: Seq<MemAnswer<W>>,
    entry: MemAnswer<W>,
)
    requires
        mem_going(reader, writer, log),
        mem_writer(writer, log).writes(
            mem_reader(reader, log).remaining(),
            &entry.writer,
            entry.res,
        ),
        mem_after(mem_reader(reader, log), entry.res).0 is None,
    ensures
        mem_going(reader, writer, log.push(entry)),
        Some(mem_reader(reader, log.push(entry))) == mem_after(
            mem_reader(reader, log),
            entry.res,
        ).1,
        mem_writer(writer, log.push(entry)) == entry.writer,
{
    reveal(mem_going);
    let now = log.push(entry);
    assert(now.drop_last() =~= log);
    assert(now.take(log.len() as int) =~= log);
    assert forall|i: int| 0 <= i < now.len() implies mem_writer(writer, now.take(i)).writes(
        mem_reader(reader, now.take(i)).remaining(),
        &(#[trigger] now[i]).writer,
        now[i].res,
    ) by {
        if i < log.len() {
            assert(now.take(i) =~= log.take(i));
            assert(now[i] == log[i]);
        }
    }
    assert forall|i: int| 0 <= i < now.len() implies mem_after(
        mem_reader(reader, now.take(i)),
        (#[trigger] now[i]).res,
    ).0 is None by {
        if i < log.len() {
            assert(now.take(i) =~= log.take(i));
            assert(now[i] == log[i]);
        }
    }
}

/// A run ends by a write that asks for no other.
pub proof fn lemma_going_ends<W: IoWrite>(
    reader: MemReader,
    writer: W,
    log: Seq<MemAnswer<W>>,
    entry: MemAnswer<W>,
    source: Option<MemReader>,
    future: FutureState<MemReader>,
    keep: bool,
)
    requires
        mem_going(reader, writer, log),
        mem_writer(writer, log).writes(
            mem_reader(reader, log).remaining(),
            &entry.writer,
            entry.res,
        ),
        mem_after(mem_reader(reader, log), entry.res) == (Some(keep), source, future),
    ensures
        mem_traced(reader, writer, log.push(entry), source, future, entry.writer, keep),
{
    reveal(mem_going);
    let now = log.push(entry);
    assert(now.drop_last() =~= log);
    assert(now.take(log.len() as int) =~= log);
    assert forall|i: int| 0 <= i < now.len() implies mem_writer(writer, now.take(i)).writes(
        mem_reader(reader, now.take(i)).remaining(),
        &(#[trigger] now[i]).writer,
        now[i].res,
    ) by {
        if i < log.len() {
            assert(now.take(i) =~= log.take(i));
            assert(now[i] == log[i]);
        }
    }
    assert forall|i: int| 0 <= i < now.len() - 1 implies mem_after(
        mem_reader(reader, now.take(i)),
        (#[trigger] now[i]).res,
    ).0 is None by {
        assert(now.take(i) =~= log.take(i));
        assert(now[i] == log[i]);
    }
}

impl MemPipe {
    /// The source, while the pipe holds it.
    pub closed spec fn source(&self) -> Option<MemReader> {
        self.this
    }

    /// The completion cell.
    pub closed spec fn future(&self) -> FutureState<MemReader> {
        self.future@
    }

    /// The pipe holds its source exactly as long as it is pending.
    pub open spec fn wf(&self) -> bool {
        &&& self.source() is Some <==> self.future() is Pending
        &&& self.source() matches Some(reader) ==> reader.wf()
    }

    /// What one run of the write callback does, on a writer that was
    /// `writer` before it and `writer_after` after it.
    ///
    /// A pipe that is resolved is left alone and the writer with it. A
    /// source with nothing left completes the pipe at once, without a
    /// write. Otherwise the run is one that `mem_traced` tells. In every
    /// case the bytes that the writer accepted are the next bytes of the
    /// source, in order, and the source has marked as many as handed out.
    pub open spec fn write_step<W: IoWrite>(
        &self,
        writer: W,
        after: MemPipe,
        writer_after: W,
        keep: bool,
    ) -> bool {
        &&& writer.written().is_prefix_of(writer_after.written())
        &&& match self.source() {
            None => {
                &&& !keep
                &&& after.future() == self.future()
                &&& after.source() == self.source()
                &&& writer_after == writer
            },
            Some(before) => {
                let moved = writer_after.written().skip(writer.written().len() as int);
                &&& moved.is_prefix_of(before.remaining())
                &&& keep ==> (after.source() matches Some(reader) && reader.data() == before.data()
                    && reader.offset() == before.offset() + moved.len())
                &&& !keep ==> match after.future() {
                    FutureState::Completed(reader) => reader.data() == before.data()
                        && reader.offset() == before.offset() + moved.len(),
                    FutureState::Failed(err) => !is_signal(err.kind),
                    _ => false,
                }
                &&& if before.remaining().len() == 0 {
                    &&& !keep
                    &&& after.source() is None
                    &&& after.future() == FutureState::Completed(before)
                    &&& writer_after == writer
                } else {
                    exists|log: Seq<MemAnswer<W>>| #[trigger]
                        mem_traced(
                            before,
                            writer,
                            log,
                            after.source(),
                            after.future(),
                            writer_after,
                            keep,
                        )
                }
            },
        }
    }

    /// The pipe before the `i`-th of `log`, in a run that began with
    /// `self`.
    pub open spec fn before_round<W>(&self, log: Seq<MemRound<W>>, i: int) -> MemPipe {
        if i == 0 {
            *self
        } else {
            log[i - 1].pipe
        }
    }

    /// One opportunity to write, on a pipe that was pending and a writer
    /// that was `writer`.
    #[verifier::opaque]
    pub open spec fn round<W: IoWrite>(&self, writer: W, round: MemRound<W>) -> bool {
        &&& self.future() is Pending
        &&& self.write_step(writer, round.pipe, round.writer, round.keep)
    }

    /// A run of opportunities to write that began with `self`, on a writer
    /// that was `writer`: each took the pipe and the writer from where the
    /// one before had left them.
    #[verifier::opaque]
    pub open spec fn rounds<W: IoWrite>(&self, writer: W, log: Seq<MemRound<W>>) -> bool {
        forall|i: int|
            0 <= i < log.len() ==> self.before_round(log, i).round(
                if i == 0 {
                    writer
                } else {
                    log[i - 1].writer
                },
                #[trigger] log[i],
            )
    }

    /// What giving a pipe at most `limit` opportunities to write does, told
    /// by the log of them: they follow one another as `rounds` says, they
    /// stopped when the pipe was resolved or the limit was reached and not
    /// before, and `future` and `writer_after` are where the last one left
    /// the completion cell and the writer.
    pub open spec fn ran<W: IoWrite>(
        &self,
        writer: W,
        log: Seq<MemRound<W>>,
        limit: nat,
        future: FutureState<MemReader>,
        writer_after: W,
    ) -> bool {
        &&& self.rounds(writer, log)
        &&& log.len() <= limit
        &&& (log.len() == limit || !(future is Pending))
        &&& if log.len() == 0 {
            future == self.future() && writer_after == writer
        } else {
            future == log.last().pipe.future() && writer_after == log.last().writer
        }
    }

    /// A run of no opportunities is a run.
    pub proof fn lemma_rounds_none<W: IoWrite>(&self, writer: W)
        ensures
            self.rounds(writer, Seq::<MemRound<W>>::empty()),
    {
        reveal(MemPipe::rounds);
    }

    /// A run goes on by one opportunity: the pipe is pending where the run
    /// has left it, and the write callback runs from there.
    pub proof fn lemma_rounds_push<W: IoWrite>(
        &self,
        writer: W,
        log: Seq<MemRound<W>>,
        round: MemRound<W>,
    )
        requires
            self.rounds(writer, log),
            self.before_round(log.push(round), log.len() as int).future() is Pending,
            self.before_round(log.push(round), log.len() as int).write_step(
                if log.len() == 0 {
                    writer
                } else {
                    log.last().writer
                },
                round.pipe,
                round.writer,
                round.keep,
            ),
        ensures
            self.rounds(writer, log.push(round)),
    {
        let now = log.push(round);
        let last = log.len() as int;
        assert(self.before_round(now, last).round(
            if last == 0 {
                writer
            } else {
                now[last - 1].writer
            },
            now[last],
        )) by {
            reveal(MemPipe::round);
        }
        reveal(MemPipe::rounds);
        assert forall|i: int| 0 <= i < now.len() implies self.before_round(now, i).round(
            if i == 0 {
                writer
            } else {
                now[i - 1].writer
            },
            #[trigger] now[i],
        ) by {
            if i < last {
                assert(now[i] == log[i]);
                assert(self.before_round(now, i) == self.before_round(log, i));
            }
        }
    }

    /// Whether the pipe is neither complete nor failed.
    pub fn is_pending(&self) -> (b: bool)
        ensures
            b == (self.future() is Pending),
    {
        self.future.is_pending()
    }

    /// Gives the completion cell away, as it stands.
    pub fn into_future(self) -> (future: AioFuture<MemReader>)
        ensures
            future@ == self.future(),
    {
        self.future
    }

    /// Aborts the transfer with `err`: a pending pipe fails with it and
    /// lets go of its source, a resolved one stays as it is.
    pub fn abort(&mut self, err: AioError)
        requires
            old(self).wf(),
        ensures
            final(self).wf(),
            final(self).future() == old(self).future().offer(Resolution::Fail(err)),
            final(self).source() == None::<MemReader>,
    {
        if self.future.offer(Resolution::Fail(err)) {
            self.this = None;
        }
    }

    /// The consumer's side of the completion cell: the outcome of the pipe,
    /// once, when there is one. A completed pipe gives the source back.
    pub fn take(&mut self) -> (outcome: Option<AioResult<MemReader>>)
        requires
            old(self).wf(),
        ensures
            final(self).wf(),
            outcome == old(self).future().outcome(),
            final(self).future() == old(self).future().taken(),
            final(self).source() == old(self).source(),
    {
        self.future.take()
    }

    /// What the write callback hands to the writer next: all that the
    /// source has left, while the pipe holds its source.
    pub fn bytes(&self) -> (bytes: Option<&[u8]>)
        ensures
            match bytes {
                Some(bytes) => self.source() matches Some(reader) && bytes@ == reader.remaining(),
                None => self.source() is None,
            },
    {
        match &self.this {
            Some(reader) => Some(reader.as_bytes()),
            None => None,
        }
    }

    /// Completes the pipe with its source when the source has nothing left.
    /// Returns whether it did. This is how a source that is drained ends
    /// its pipe without a write.
    pub fn finish_if_done(&mut self) -> (done: bool)
        requires
            old(self).wf(),
            old(self).source() is Some,
        ensures
            final(self).wf(),
            done == (old(self).source().unwrap().remaining().len() == 0),
            done ==> final(self).source() is None && final(self).future()
                == FutureState::Completed(old(self).source().unwrap()),
            !done ==> final(self).source() == old(self).source() && final(self).future()
                == old(self).future(),
    {
        match self.this.take() {
            Some(this) => {
                if this.done() {
                    self.future.complete(this);
                    true
                } else {
                    self.this = Some(this);
                    false
                }
            },
            None => false,
        }
    }

    /// Takes the result of one write of what `bytes` gave: the answer of
    /// the write callback, or `None` for writing again, and the pipe after
    /// it, are what `mem_after` says.
    pub fn take_write(&mut self, res: AioResult<usize>) -> (answer: Option<bool>)
        requires
            old(self).wf(),
            old(self).source() is Some,
        ensures
            final(self).wf(),
            (answer, final(self).source(), final(self).future()) == mem_after(
                old(self).source().unwrap(),
                res,
            ),
    {
        let mut this = match self.this.take() {
            Some(this) => this,
            None => {
                return None;
            },
        };
        match res {
            Ok(n) => {
                if n == 0 {
                    self.this = Some(this);
                    Some(true)
                } else {
                    proof {
                        this.lemma_advanced(n as nat);
                    }
                    this.skip(n);
                    if this.done() {
                        self.future.complete(this);
                        Some(false)
                    } else {
                        self.this = Some(this);
                        None
                    }
                }
            },
            Err(err) => {
                match err.kind {
                    Kind::Eof => {
                        self.future.complete(this);
                        Some(false)
                    },
                    Kind::WouldBlock => {
                        self.this = Some(this);
                        Some(true)
                    },
                    _ => {
                        self.future.fail(err);
                        Some(false)
                    },
                }
            },
        }
    }

    /// The write callback: on a writable opportunity, hands the bytes not
    /// yet handed out to the writer until none are left or the writer takes
    /// no more for now. Returns whether the callback stays registered.
    ///
    /// A pipe that is resolved makes no write attempt, and neither does one
    /// whose source has nothing left: it completes at once. Otherwise every
    /// write is a write of all that the source has left, and `take_write`
    /// decides on its result.
    pub fn on_write<W: IoWrite>(&mut self, writer: &mut W) -> (keep: bool)
        requires
            old(self).wf(),
        ensures
            final(self).wf(),
            old(self).write_step(*old(writer), *final(self), *final(writer), keep),
    {
        if !self.future.is_pending() {
            proof {
                let w = writer.written();
                assert(w.skip(w.len() as int) =~= Seq::<u8>::empty());
            }
            return false;
        }
        let ghost first = old(self).source().unwrap();
        let ghost base = writer.written();
        proof {
            assert(base.skip(base.len() as int) =~= Seq::<u8>::empty());
        }
        if self.finish_if_done() {
            return false;
        }
        let ghost mut seen: Seq<MemAnswer<W>> = Seq::empty();
        proof {
            lemma_going_none(first, *old(writer));
        }
        loop
            invariant
                self.wf(),
                old(self).wf(),
                old(self).source() == Some(first),
                first.remaining().len() > 0,
                base == old(writer).written(),
                self.source() == Some(mem_reader(first, seen)),
                self.future() is Pending,
                self.source().unwrap().remaining().len() > 0,
                *writer == mem_writer(*old(writer), seen),
                mem_going(first, *old(writer), seen),
                base.is_prefix_of(writer.written()),
                writer.written().skip(base.len() as int).is_prefix_of(first.remaining()),
                self.source().unwrap().data() == first.data(),
                self.source().unwrap().offset() + base.len() == first.offset()
                    + writer.written().len(),
            decreases self.source().unwrap().remaining().len(),
        {
            let ghost current = self.source().unwrap();
            let ghost sent = writer.written();
            let res = match self.bytes() {
                Some(bytes) => writer.write(bytes),
                None => Ok(0),
            };
            let answer = self.take_write(res);
            let ghost entry = MemAnswer { writer: *writer, res: res };
            proof {
                let b = base.len() as int;
                current.lemma_advanced(
                    match res {
                        Ok(n) => n as nat,
                        Err(_) => 0,
                    },
                );
                assert(writer.written().skip(b) =~= sent.skip(b) + writer.written().skip(
                    sent.len() as int,
                ));
                assert(current.remaining() =~= first.remaining().skip(sent.len() - b));
            }
            match answer {
                Some(keep) => {
                    proof {
                        lemma_going_ends(
                            first,
                            *old(writer),
                            seen,
                            entry,
                            self.source(),
                            self.future(),
                            keep,
                        );
                    }
                    return keep;
                },
                None => {
                    proof {
                        lemma_going_push(first, *old(writer), seen, entry);
                        seen = seen.push(entry);
                    }
                },
            }
        }
    }
}

/// A vector takes every byte at once: one run of the write callback of a
/// pending in-memory pipe on a vector hands over all that the source had
/// left, completes the pipe with the source drained, and is finished.
pub proof fn lemma_vector_takes_all(
    pipe: MemPipe,
    sink: Vec<u8>,
    after: MemPipe,
    sink_after: Vec<u8>,
    keep: bool,
)
    requires
        pipe.wf(),
        pipe.source() is Some,
        pipe.write_step(sink, after, sink_after, keep),
    ensures
        !keep,
        sink_after@ == sink@ + pipe.source().unwrap().remaining(),
        after.source() is None,
        after.future() matches FutureState::Completed(reader) && reader.data()
            == pipe.source().unwrap().data() && reader.remaining().len() == 0 && reader.wf(),
{
    let reader = pipe.source().unwrap();
    let left = reader.remaining().len();
    if left == 0 {
        assert(sink@ + reader.remaining() =~= sink@);
    } else {
        let log = choose|log: Seq<MemAnswer<Vec<u8>>>| #[trigger]
            mem_traced(reader, sink, log, after.source(), after.future(), sink_after, keep);
        assert(log.take(0) =~= Seq::<MemAnswer<Vec<u8>>>::empty());
        let first = log[0];
        assert(sink.writes(reader.remaining(), &first.writer, first.res));
        reader.lemma_advanced(left);
        assert(reader.remaining().skip(left as int) =~= Seq::<u8>::empty());
        assert(mem_after(reader, first.res).0 == Some(false));
        if log.len() > 1 {
            assert(mem_after(mem_reader(reader, log.take(0)), log[0].res).0 is None);
        }
        assert(log.drop_last() =~= Seq::<MemAnswer<Vec<u8>>>::empty());
    }
}

/// Piping into a vector is done at the first opportunity: whatever the
/// number of opportunities, if there is one, the vector has received all
/// that the source had left, and the cell is completed with the source
/// drained.
pub proof fn lemma_ran_into_vector(
    first: MemPipe,
    sink: Vec<u8>,
    log: Seq<MemRound<Vec<u8>>>,
    limit: nat,
    future: FutureState<MemReader>,
    sink_after: Vec<u8>,
)
    requires
        first.wf(),
        first.source() is Some,
        limit > 0,
        first.ran(sink, log, limit, future, sink_after),
    ensures
        sink_after@ == sink@ + first.source().unwrap().remaining(),
        future matches FutureState::Completed(reader) && reader.data()
            == first.source().unwrap().data() && reader.remaining().len() == 0 && reader.wf(),
{
    reveal(MemPipe::rounds);
    reveal(MemPipe::round);
    assert(log.len() > 0);
    let one = log[0];
    assert(first.before_round(log, 0).round(sink, one));
    lemma_vector_takes_all(first, sink, one.pipe, one.writer, one.keep);
    if log.len() > 1 {
        assert(first.before_round(log, 1).round(log[0].writer, log[1]));
    }
}

impl<W: IoWrite> WriteListener<W> for MemPipe {
    open spec fn wf(&self) -> bool {
        MemPipe::wf(self)
    }

    open spec fn notified(&self, writer: W, after: MemPipe, writer_after: W, keep: bool) -> bool {
        self.write_step(writer, after, writer_after, keep)
    }

    open spec fn aborted(&self, err: AioError, after: MemPipe) -> bool {
        &&& after.future() == self.future().offer(Resolution::Fail(err))
        &&& after.source() == None::<MemReader>
    }

    fn notify(&mut self, writer: &mut W) -> (keep: bool) {
        self.on_write(writer)
    }

    fn abort(&mut self, err: AioError) {
        MemPipe::abort(self, err)
    }
}

impl IoReadStream for MemReader {
    type PipeResult = MemReader;

    /// Pipes the bytes not yet handed out into `write`. The sink gets an
    /// opportunity to write as long as the pipe asks for one, `rounds` at
    /// most; the log of them is what `MemPipe::ran` tells. What the sink
    /// accepted is the front of what the source had left; a cell that is
    /// completed holds the source as far as it got.
    fn pipe<W: IoWriteStream>(self, write: &mut W, rounds: usize) -> (future: AioFuture<MemReader>)
        ensures
            self.wf() ==> {
                let moved = final(write).writer().written().skip(
                    old(write).writer().written().len() as int,
                );
                &&& old(write).writer().written().is_prefix_of(final(write).writer().written())
                &&& moved.is_prefix_of(self.remaining())
                &&& match future@ {
                    FutureState::Pending => true,
                    FutureState::Completed(reader) => reader.data() == self.data()
                        && reader.offset() == self.offset() + moved.len(),
                    FutureState::Failed(err) => !is_signal(err.kind),
                    FutureState::Consumed => false,
                }
                &&& self.remaining().len() == 0 && rounds > 0 ==> future@ is Completed
                &&& exists|first: MemPipe, log: Seq<MemRound<W::Writer>>|
                    {
                        &&& #[trigger] first.ran(
                            old(write).writer(),
                            log,
                            rounds as nat,
                            future@,
                            final(write).writer(),
                        )
                        &&& first.wf()
                        &&& first.source() == Some(self)
                        &&& first.future() is Pending
                    }
            },
    {
        if self.offset > self.data.len() {
            return Future::new();
        }
        let ghost start = self;
        let ghost base = write.writer().written();
        let ghost sink = write.writer();
        let mut state = MemReader::pipe_state(self);
        let mut round: usize = 0;
        let ghost first = state;
        let ghost mut log: Seq<MemRound<W::Writer>> = Seq::empty();
        proof {
            assert(base.skip(base.len() as int) =~= Seq::<u8>::empty());
            first.lemma_rounds_none(sink);
        }
        while round < rounds && state.is_pending()
            invariant
                first.wf(),
                first.source() == Some(start),
                first.future() is Pending,
                sink == old(write).writer(),
                round <= rounds,
                log.len() == round,
                first.rounds(sink, log),
                if log.len() == 0 {
                    state == first && write.writer() == sink
                } else {
                    state == log.last().pipe && write.writer() == log.last().writer
                },
                start.wf(),
                state.wf(),
                base == old(write).writer().written(),
                base.is_prefix_of(write.writer().written()),
                write.writer().written().skip(base.len() as int).is_prefix_of(start.remaining()),
                match state.source() {
                    Some(reader) => reader.data() == start.data() && reader.offset()
                        == start.offset() + (write.writer().written().len() - base.len()),
                    None => match state.future() {
                        FutureState::Completed(reader) => reader.data() == start.data()
                            && reader.offset() == start.offset() + (
                            write.writer().written().len() - base.len()),
                        FutureState::Failed(err) => !is_signal(err.kind),
                        _ => false,
                    },
                },
                start.remaining().len() == 0 && round > 0 ==> state.future() is Completed,
                round == 0 ==> state.future() is Pending,
            decreases rounds - round,
        {
            let ghost sent = write.writer().written();
            let ghost reader = state.source().unwrap();
            let keep = write.on_write(&mut state);
            proof {
                let now = write.writer().written();
                let b = base.len() as int;
                assert(now.skip(b) =~= sent.skip(b) + now.skip(sent.len() as int));
                assert(reader.remaining() =~= start.remaining().skip(sent.len() - b));
                let step = MemRound { pipe: state, writer: write.writer(), keep: keep };
                first.lemma_rounds_push(sink, log, step);
                log = log.push(step);
            }
            round = round + 1;
        }
        proof {
            assert(first.ran(sink, log, rounds as nat, state.future(), write.writer()));
        }
        state.into_future()
    }
}

} // verus!
