//! Vectors and strings as streams: a vector is a sink that takes every
//! byte, and both are sources that give their bytes back when the pipe is
//! done.

use vstd::prelude::*;
use vstd::slice::slice_to_vec;
use vstd::utf8::{encode_utf8, encode_utf8_decode_utf8, encode_utf8_valid_utf8, valid_utf8};
use crate::error::{is_signal, AioError, AioResult, Kind};
use crate::future::{AioFuture, Future, FutureState};
use crate::iostream::{IoReadStream, IoWriteStream, WriteListener};
use crate::sys::IoWrite;
use crate::util::{lemma_ran_into_vector, MemPipe, MemReader, MemRound};

verus! {

impl IoWrite for Vec<u8> {
    /// A vector has accepted what it holds.
    open spec fn written(&self) -> Seq<u8> {
        self@
    }

    /// A write appends the bytes, all of them.
    open spec fn writes(&self, buf: Seq<u8>, after: &Self, res: AioResult<usize>) -> bool {
        &&& res == Ok::<usize, AioError>(buf.len() as usize)
        &&& after@ == self@ + buf
    }

    fn write(&mut self, buf: &[u8]) -> (res: AioResult<usize>) {
        self.extend_from_slice(buf);
        assert(buf@.subrange(0, buf@.len() as int) =~= buf@);
        assert(self@ =~= old(self)@ + buf@);
        Ok(buf.len())
    }
}

impl IoWriteStream for Vec<u8> {
    type Writer = Vec<u8>;

    open spec fn writer(&self) -> Vec<u8> {
        *self
    }

    /// A vector can always be written: the listener is called at once.
    fn on_write<L: WriteListener<Vec<u8>>>(&mut self, listener: &mut L) -> (keep: bool) {
        listener.notify(self)
    }
}

/// What piping the bytes `bytes` out of memory does to a writer that was
/// `writer`: a fresh in-memory source over the bytes was given at most
/// `limit` opportunities to write, which left its completion cell as `inner`
/// and the writer as `writer_after`.
pub open spec fn piped_from_memory<W: IoWrite>(
    bytes: Seq<u8>,
    writer: W,
    limit: nat,
    inner: FutureState<MemReader>,
    writer_after: W,
) -> bool {
    exists|first: MemPipe, log: Seq<MemRound<W>>|
        {
            &&& #[trigger] first.ran(writer, log, limit, inner, writer_after)
            &&& first.wf()
            &&& first.future() is Pending
            &&& first.source() matches Some(reader)
            &&& reader.wf()
            &&& reader.data() == bytes
            &&& reader.offset() == 0
        }
}

/// Piping bytes out of memory into a vector is done at the first
/// opportunity: the vector has received all the bytes, after what it held,
/// and the in-memory source has completed its cell.
pub proof fn lemma_piped_into_vector(
    bytes: Seq<u8>,
    sink: Vec<u8>,
    limit: nat,
    inner: FutureState<MemReader>,
    sink_after: Vec<u8>,
)
    requires
        limit > 0,
        piped_from_memory(bytes, sink, limit, inner, sink_after),
    ensures
        sink_after@ == sink@ + bytes,
        inner matches FutureState::Completed(reader) && reader.data() == bytes,
{
    let (first, log) = choose|first: MemPipe, log: Seq<MemRound<Vec<u8>>>|
        {
            &&& #[trigger] first.ran(sink, log, limit, inner, sink_after)
            &&& first.wf()
            &&& first.future() is Pending
            &&& first.source() matches Some(reader)
            &&& reader.wf()
            &&& reader.data() == bytes
            &&& reader.offset() == 0
        };
    lemma_ran_into_vector(first, sink, log, limit, inner, sink_after);
    assert(first.source().unwrap().remaining() =~= bytes);
}

impl IoReadStream for Vec<u8> {
    type PipeResult = Vec<u8>;

    /// Pipes the bytes of the vector into `write`, as `piped_from_memory`
    /// tells. What the sink accepted is the front of the vector; a cell that
    /// is completed holds the vector, and a cell is completed or failed
    /// exactly when the in-memory source's is.
    fn pipe<W: IoWriteStream>(self, write: &mut W, rounds: usize) -> (future: AioFuture<Vec<u8>>)
        ensures
            old(write).writer().written().is_prefix_of(final(write).writer().written()),
            final(write).writer().written().skip(
                old(write).writer().written().len() as int,
            ).is_prefix_of(self@),
            match future@ {
                FutureState::Pending => true,
                FutureState::Completed(bytes) => bytes@ == self@,
                FutureState::Failed(err) => !is_signal(err.kind),
                FutureState::Consumed => false,
            },
            self@.len() == 0 && rounds > 0 ==> future@ is Completed,
            exists|inner: FutureState<MemReader>|
                {
                    &&& #[trigger] piped_from_memory(
                        self@,
                        old(write).writer(),
                        rounds as nat,
                        inner,
                        final(write).writer(),
                    )
                    &&& match inner {
                        FutureState::Pending => future@ is Pending,
                        FutureState::Completed(_) => future@ is Completed,
                        FutureState::Failed(err) => future@ == FutureState::<Vec<u8>>::Failed(err),
                        FutureState::Consumed => false,
                    }
                },
    {
        let reader = MemReader::new(self);
        assert(reader.remaining() =~= self@);
        let mut future = reader.pipe(write, rounds);
        assert(piped_from_memory(
            self@,
            old(write).writer(),
            rounds as nat,
            future@,
            write.writer(),
        ));
        match future.take() {
            None => Future::new(),
            Some(Ok(reader)) => Future::resolved(Ok(reader.into_inner())),
            Some(Err(err)) => Future::resolved(Err(err)),
        }
    }
}

impl IoReadStream for String {
    type PipeResult = String;

    /// Pipes the bytes of the string into `write`, as `piped_from_memory`
    /// tells of its encoding. What the sink accepted is the front of the
    /// encoding of the string; a cell that is completed holds the string,
    /// and a cell is completed or failed exactly when the in-memory
    /// source's is.
    fn pipe<W: IoWriteStream>(self, write: &mut W, rounds: usize) -> (future: AioFuture<String>)
        ensures
            old(write).writer().written().is_prefix_of(final(write).writer().written()),
            final(write).writer().written().skip(
                old(write).writer().written().len() as int,
            ).is_prefix_of(encode_utf8(self@)),
            match future@ {
                FutureState::Pending => true,
                FutureState::Completed(text) => text@ == self@,
                FutureState::Failed(err) => !is_signal(err.kind),
                FutureState::Consumed => false,
            },
            self@.len() == 0 && rounds > 0 ==> future@ is Completed,
            exists|inner: FutureState<MemReader>|
                {
                    &&& #[trigger] piped_from_memory(
                        encode_utf8(self@),
                        old(write).writer(),
                        rounds as nat,
                        inner,
                        final(write).writer(),
                    )
                    &&& match inner {
                        FutureState::Pending => future@ is Pending,
                        FutureState::Completed(_) => future@ is Completed,
                        FutureState::Failed(err) => future@ == FutureState::<String>::Failed(err),
                        FutureState::Consumed => false,
                    }
                },
    {
        let bytes = slice_to_vec(self.as_str().as_bytes());
        proof {
            encode_utf8_valid_utf8(self@);
            encode_utf8_decode_utf8(self@);
        }
        let mut future = bytes.pipe(write, rounds);
        match future.take() {
            None => Future::new(),
            Some(Ok(bytes)) => match string_from_utf8(bytes) {
                Some(text) => {
                    proof {
                        encode_utf8_decode_utf8(text@);
                    }
                    Future::resolved(Ok(text))
                },
                None => Future::resolved(Err(AioError::from_kind(Kind::InvalidInput))),
            },
            Some(Err(err)) => Future::resolved(Err(err)),
        }
    }
}

/// `String::from_utf8`: the string whose encoding the bytes are, when they
/// are the encoding of one, and `None` when they are not valid UTF-8.
#[verifier::external_body]
fn string_from_utf8(bytes: Vec<u8>) -> (text: Option<String>)
    ensures
        text is Some <==> valid_utf8(bytes@),
        text matches Some(s) ==> encode_utf8(s@) == bytes@,
{
    String::from_utf8(bytes).ok()
}

} // verus!
