//! In-memory resources that follow a script.
//!
//! Every answer of a scripted resource is written down beforehand: how many
//! bytes the next read gives, when it would block, where it fails. A pipe
//! can so be driven through short reads, short writes, suspensions and
//! failures without an operating system, and the resource tells afterwards
//! how often it was asked.

use vstd::prelude::*;
use vstd::slice::slice_subrange;
use crate::error::{AioError, AioResult, Kind};
use crate::iostream::memory::serves;
use crate::sys::{IoRead, IoWrite};

verus! {

/// A source whose reads follow a script.
///
/// Each entry of the script answers reads until it is used up: `Ok(bytes)`
/// hands the bytes out, as many per read as the buffer takes, and an empty
/// `Ok` is one read of no bytes; `Err(err)` fails one read with `err`. When
/// the script is used up every read reports `Eof`.
pub struct ScriptedReader {
    steps: Vec<AioResult<Vec<u8>>>,
    next: usize,
    offset: usize,
    attempts: usize,
    log: Vec<u8>,
}

/// A sink whose writes follow a script.
///
/// Each entry of the script answers one write: `Ok(limit)` accepts at most
/// `limit` bytes of it, `Err(err)` fails it with `err`. When the script is
/// used up every write accepts all it is given.
pub struct ScriptedWriter {
    steps: Vec<AioResult<usize>>,
    next: usize,
    attempts: usize,
    data: Vec<u8>,
}

impl ScriptedReader {
    /// The script.
    pub closed spec fn steps(&self) -> Seq<AioResult<Vec<u8>>> {
        self.steps@
    }

    /// The entry that answers the next read.
    pub closed spec fn position(&self) -> nat {
        self.next as nat
    }

    /// The number of bytes of that entry that were handed out.
    pub closed spec fn offset(&self) -> nat {
        self.offset as nat
    }

    /// The number of reads that were attempted.
    pub closed spec fn attempted(&self) -> nat {
        self.attempts as nat
    }

    /// The source is valid.
    pub closed spec fn wf(&self) -> bool {
        &&& self.next <= self.steps@.len()
        &&& self.next < self.steps@.len() ==> match self.steps@[self.next as int] {
            Ok(bytes) => self.offset < bytes@.len() || (self.offset == 0 && bytes@.len() == 0),
            Err(_) => self.offset == 0,
        }
        &&& self.next == self.steps@.len() ==> self.offset == 0
    }

    /// A source that follows `steps` from the first entry on.
    pub fn new(steps: Vec<AioResult<Vec<u8>>>) -> (reader: ScriptedReader)
        ensures
            reader.wf(),
            reader.steps() == steps@,
            reader.position() == 0,
            reader.offset() == 0,
            reader.attempted() == 0,
            reader.consumed() == Seq::<u8>::empty(),
    {
        ScriptedReader { steps: steps, next: 0, offset: 0, attempts: 0, log: Vec::new() }
    }

    /// The number of reads that were attempted, up to `usize::MAX`.
    pub fn attempts(&self) -> (n: usize)
        ensures
            n == self.attempted(),
    {
        self.attempts
    }

    /// Every byte handed out so far, in order.
    pub fn handed_out(&self) -> (bytes: &[u8])
        ensures
            bytes@ == self.consumed(),
    {
        self.log.as_slice()
    }

    /// Whether the script is used up.
    pub fn is_exhausted(&self) -> (b: bool)
        requires
            self.wf(),
        ensures
            b == (self.position() == self.steps().len()),
    {
        self.next >= self.steps.len()
    }
}

impl ScriptedReader {
    /// That the rest of the script is this: `blocks` entries that report
    /// `WouldBlock`, then, if `bytes` is not empty, one entry of bytes of
    /// which `bytes` are not handed out yet, and then the end.
    pub closed spec fn scripted(&self, blocks: nat, bytes: Seq<u8>) -> bool {
        let at = self.next as int;
        &&& self.wf()
        &&& forall|i: int|
            at <= i < at + blocks ==> i < self.steps@.len() && (
            #[trigger] self.steps@[i] matches Err(err) && err.kind == Kind::WouldBlock)
        &&& if bytes.len() == 0 {
            at + blocks == self.steps@.len()
        } else {
            &&& at + blocks + 1 == self.steps@.len()
            &&& self.steps@[at + blocks] matches Ok(data)
            &&& self.offset <= data@.len()
            &&& data@.skip(self.offset as int) == bytes
        }
    }

    /// A source whose script begins with `blocks` entries that report
    /// `WouldBlock` and goes on with one entry of the bytes `bytes` is
    /// scripted to block, to hand them out, and to end.
    pub proof fn lemma_scripted(&self, blocks: nat, bytes: Seq<u8>)
        requires
            self.wf(),
            self.offset() == 0,
            self.position() + blocks + (if bytes.len() == 0 {
                0int
            } else {
                1int
            }) == self.steps().len(),
            forall|i: int|
                self.position() <= i < self.position() + blocks ==> (
                #[trigger] self.steps()[i] matches Err(err) && err.kind == Kind::WouldBlock),
            bytes.len() > 0 ==> (self.steps()[(self.position() + blocks) as int] matches Ok(data)
                && data@ == bytes),
        ensures
            self.scripted(blocks, bytes),
    {
        if bytes.len() > 0 {
            assert(bytes.skip(0) =~= bytes);
        }
    }

    /// A source that is scripted to block `blocks` times, to hand out
    /// `bytes` and to end does so.
    pub proof fn lemma_scripted_serves(&self, blocks: nat, bytes: Seq<u8>)
        requires
            self.scripted(blocks, bytes),
        ensures
            serves(*self, blocks, bytes),
        decreases blocks, bytes.len(),
    {
        reveal(serves);
        let at = self.next as int;
        assert forall|
            buf: Seq<u8>,
            after: ScriptedReader,
            buf_after: Seq<u8>,
            res: AioResult<usize>,
        | #[trigger]
            self.reads(buf, &after, buf_after, res) implies if blocks > 0 {
            &&& res matches Err(err)
            &&& err.kind == Kind::WouldBlock
            &&& after.consumed() == self.consumed()
            &&& serves(after, (blocks - 1) as nat, bytes)
        } else if bytes.len() == 0 {
            &&& res matches Err(err)
            &&& err.kind == Kind::Eof
            &&& after.consumed() == self.consumed()
        } else if buf.len() == 0 {
            true
        } else {
            &&& res matches Ok(n)
            &&& 1 <= n <= bytes.len()
            &&& n <= buf.len()
            &&& after.consumed() == self.consumed() + bytes.subrange(0, n as int)
            &&& serves(after, 0, bytes.skip(n as int))
        } by {
            if blocks > 0 {
                assert(self.steps@[at] is Err);
                assert(self.consumed() + Seq::<u8>::empty() =~= self.consumed());
                assert(after.scripted((blocks - 1) as nat, bytes));
                after.lemma_scripted_serves((blocks - 1) as nat, bytes);
            } else if bytes.len() == 0 {
                assert(self.consumed() + Seq::<u8>::empty() =~= self.consumed());
            } else if buf.len() > 0 {
                let data = self.steps@[at]->Ok_0;
                let n = res->Ok_0 as int;
                assert(data@.subrange(self.offset as int, self.offset + n) =~= bytes.subrange(
                    0,
                    n,
                ));
                assert(data.len() == data@.len());
                assert(bytes.len() == data@.len() - self.offset);
                if n == bytes.len() {
                    assert(bytes.skip(n) =~= Seq::<u8>::empty());
                } else {
                    assert(data@.skip(self.offset + n) =~= bytes.skip(n));
                }
                assert(after.scripted(0, bytes.skip(n)));
                after.lemma_scripted_serves(0, bytes.skip(n));
            }
        }
    }
}

impl IoRead for ScriptedReader {
    closed spec fn consumed(&self) -> Seq<u8> {
        self.log@
    }

    /// A read is answered by the entry of the script that is next: bytes
    /// are handed out as far as the buffer takes them, an error is reported
    /// once, and a script that is used up reports `Eof`. Every read counts
    /// as an attempt.
    open spec fn reads(
        &self,
        buf: Seq<u8>,
        after: &Self,
        buf_after: Seq<u8>,
        res: AioResult<usize>,
    ) -> bool {
        &&& self.wf() ==> after.wf()
        &&& after.steps() == self.steps()
        &&& after.attempted() == if self.attempted() < usize::MAX {
            self.attempted() + 1
        } else {
            self.attempted()
        }
        &&& after.consumed() == self.consumed() + match res {
            Ok(n) => buf_after.subrange(0, n as int),
            Err(_) => Seq::empty(),
        }
        &&& self.position() >= self.steps().len() ==> {
            &&& res == Err::<usize, AioError>(AioError::spec_from_kind(Kind::Eof))
            &&& after.position() == self.position()
            &&& after.offset() == self.offset()
            &&& buf_after == buf
        }
        &&& self.wf() && self.position() < self.steps().len() ==> match self.steps()[self
            .position() as int] {
            Ok(bytes) => {
                let left = bytes@.len() - self.offset();
                let n = if buf.len() <= left {
                    buf.len() as int
                } else {
                    left
                };
                &&& res == Ok::<usize, AioError>(n as usize)
                &&& buf_after.subrange(0, n) == bytes@.subrange(
                    self.offset() as int,
                    self.offset() + n,
                )
                &&& if n == left {
                    after.position() == self.position() + 1 && after.offset() == 0
                } else {
                    after.position() == self.position() && after.offset() == self.offset() + n
                }
            },
            Err(err) => {
                &&& res == Err::<usize, AioError>(err)
                &&& after.position() == self.position() + 1
                &&& after.offset() == 0
                &&& buf_after == buf
            },
        }
    }

    fn read(&mut self, buf: &mut [u8]) -> (res: AioResult<usize>)
    {
        if self.attempts < usize::MAX {
            self.attempts = self.attempts + 1;
        }
        if self.next >= self.steps.len() {
            assert(self.log@ + Seq::<u8>::empty() =~= self.log@);
            return Err(AioError::from_kind(Kind::Eof));
        }
        let offset = self.offset;
        let ghost attempted = self.attempts;
        let count = match &self.steps[self.next] {
            Err(err) => {
                let err = *err;
                self.next = self.next + 1;
                assert(self.log@ + Seq::<u8>::empty() =~= self.log@);
                return Err(err);
            },
            Ok(bytes) => {
                let start = if offset <= bytes.len() {
                    offset
                } else {
                    bytes.len()
                };
                let left = bytes.len() - start;
                let count = if buf.len() <= left {
                    buf.len()
                } else {
                    left
                };
                let mut i: usize = 0;
                while i < count
                    invariant
                        i <= count,
                        count <= buf@.len(),
                        buf@.len() == old(buf)@.len(),
                        start + count <= bytes@.len(),
                        bytes@.len() <= usize::MAX,
                        self.steps@ == old(self).steps@,
                        self.next == old(self).next,
                        self.next < self.steps@.len(),
                        self.attempts == attempted,
                        self.log@ == old(self).log@ + bytes@.subrange(start as int, start + i),
                        forall|j: int| 0 <= j < i ==> buf@[j] == bytes@[start + j],
                        forall|j: int| i <= j < buf@.len() ==> buf@[j] == old(buf)@[j],
                    decreases count - i,
                {
                    let byte = bytes[start + i];
                    buf[i] = byte;
                    self.log.push(byte);
                    i = i + 1;
                    proof {
                        assert(bytes@.subrange(start as int, start + i) =~= bytes@.subrange(
                            start as int,
                            start + i - 1,
                        ).push(byte));
                    }
                }
                proof {
                    assert(buf@.subrange(0, count as int) =~= bytes@.subrange(
                        start as int,
                        start + count,
                    ));
                    let end = old(buf)@.len() as int;
                    assert(buf@.subrange(count as int, end) =~= old(buf)@.subrange(
                        count as int,
                        end,
                    ));
                }
                if count == left {
                    self.next = self.next + 1;
                    self.offset = 0;
                } else {
                    self.offset = start + count;
                }
                count
            },
        };
        Ok(count)
    }
}

impl ScriptedWriter {
    /// The script.
    pub closed spec fn steps(&self) -> Seq<AioResult<usize>> {
        self.steps@
    }

    /// The entry that answers the next write.
    pub closed spec fn position(&self) -> nat {
        self.next as nat
    }

    /// The number of writes that were attempted.
    pub closed spec fn attempted(&self) -> nat {
        self.attempts as nat
    }

    /// The sink is valid.
    pub closed spec fn wf(&self) -> bool {
        self.next <= self.steps@.len()
    }

    /// A sink that follows `steps` from the first entry on and has accepted
    /// nothing.
    pub fn new(steps: Vec<AioResult<usize>>) -> (writer: ScriptedWriter)
        ensures
            writer.wf(),
            writer.steps() == steps@,
            writer.position() == 0,
            writer.attempted() == 0,
            writer.written() == Seq::<u8>::empty(),
    {
        ScriptedWriter { steps: steps, next: 0, attempts: 0, data: Vec::new() }
    }

    /// The number of writes that were attempted, up to `usize::MAX`.
    pub fn attempts(&self) -> (n: usize)
        ensures
            n == self.attempted(),
    {
        self.attempts
    }

    /// Every byte accepted so far, in order.
    pub fn accepted(&self) -> (bytes: &[u8])
        ensures
            bytes@ == self.written(),
    {
        self.data.as_slice()
    }

    /// Gives the accepted bytes away.
    pub fn into_inner(self) -> (bytes: Vec<u8>)
        ensures
            bytes@ == self.written(),
    {
        self.data
    }
}

impl IoWrite for ScriptedWriter {
    closed spec fn written(&self) -> Seq<u8> {
        self.data@
    }

    /// A write is answered by the entry of the script that is next: at most
    /// its limit of bytes is accepted, or its error is reported; a script
    /// that is used up accepts every byte. Every write counts as an attempt.
    open spec fn writes(&self, buf: Seq<u8>, after: &Self, res: AioResult<usize>) -> bool {
        &&& self.wf() ==> after.wf()
        &&& after.steps() == self.steps()
        &&& after.attempted() == if self.attempted() < usize::MAX {
            self.attempted() + 1
        } else {
            self.attempted()
        }
        &&& after.position() == if self.position() < self.steps().len() {
            self.position() + 1
        } else {
            self.position()
        }
        &&& res == if self.position() < self.steps().len() {
            match self.steps()[self.position() as int] {
                Ok(limit) => Ok::<usize, AioError>(
                    if limit <= buf.len() {
                        limit
                    } else {
                        buf.len() as usize
                    },
                ),
                Err(err) => Err::<usize, AioError>(err),
            }
        } else {
            Ok::<usize, AioError>(buf.len() as usize)
        }
    }

    fn write(&mut self, buf: &[u8]) -> (res: AioResult<usize>)
    {
        if self.attempts < usize::MAX {
            self.attempts = self.attempts + 1;
        }
        let count = if self.next >= self.steps.len() {
            buf.len()
        } else {
            let step = self.steps[self.next];
            self.next = self.next + 1;
            match step {
                Err(err) => {
                    return Err(err);
                },
                Ok(limit) => if limit <= buf.len() {
                    limit
                } else {
                    buf.len()
                },
            }
        };
        self.data.extend_from_slice(slice_subrange(buf, 0, count));
        Ok(count)
    }
}

} // verus!
