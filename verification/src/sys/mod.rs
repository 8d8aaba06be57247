//! The raw resources that the engine reads from and writes to.

use vstd::prelude::*;
use crate::error::{AioError, AioResult, Kind};

pub mod rcmut;
pub mod register;

verus! {

/// The descriptor of a resource, as the operating system numbers it.
#[derive(Copy, Clone, Debug, PartialEq, Eq, Hash, Structural)]
pub struct IoDesc {
    pub fd: i32,
}

/// A resource that an event loop can watch.
pub trait IoHandle {
    /// The descriptor of the resource.
    spec fn descriptor(&self) -> IoDesc;

    fn desc(&self) -> (desc: &IoDesc)
        ensures
            *desc == self.descriptor(),
    ;
}

/// A resource that can be read without blocking.
///
/// `consumed` is the record of every byte that the resource has handed out,
/// in order: a read that returns `Ok(n)` has put the next `n` bytes of the
/// resource at the front of the buffer and left the rest of the buffer as
/// it was, and a read that fails has handed out nothing. A resource that
/// has nothing ready reports `WouldBlock`; one that is exhausted reports
/// `Eof`.
///
/// `reads` says what one read of this kind of resource does: it relates the
/// resource and the buffer before the read to the resource and the buffer
/// after it and to the result.
pub trait IoRead {
    spec fn consumed(&self) -> Seq<u8>;

    spec fn reads(
        &self,
        buf: Seq<u8>,
        after: &Self,
        buf_after: Seq<u8>,
        res: AioResult<usize>,
    ) -> bool;

    fn read(&mut self, buf: &mut [u8]) -> (res: AioResult<usize>)
        ensures
            old(self).reads(old(buf)@, &*final(self), final(buf)@, res),
            final(buf)@.len() == old(buf)@.len(),
            match res {
                Ok(n) => {
                    &&& n <= old(buf)@.len()
                    &&& final(self).consumed() == old(self).consumed() + final(buf)@.subrange(
                        0,
                        n as int,
                    )
                    &&& final(buf)@.skip(n as int) == old(buf)@.skip(n as int)
                },
                Err(_) => {
                    &&& final(self).consumed() == old(self).consumed()
                    &&& final(buf)@ == old(buf)@
                },
            },
    ;
}

/// A resource that can be written without blocking.
///
/// `written` is the record of every byte that the resource has accepted, in
/// order: a write that returns `Ok(n)` has accepted the first `n` bytes of
/// the buffer, and a write that fails has accepted nothing.
///
/// `writes` says what one write to this kind of resource does: it relates
/// the resource before the write and the buffer to the resource after it
/// and to the result.
pub trait IoWrite {
    spec fn written(&self) -> Seq<u8>;

    spec fn writes(&self, buf: Seq<u8>, after: &Self, res: AioResult<usize>) -> bool;

    fn write(&mut self, buf: &[u8]) -> (res: AioResult<usize>)
        ensures
            old(self).writes(buf@, &*final(self), res),
            match res {
                Ok(n) => {
                    &&& n <= buf@.len()
                    &&& final(self).written() == old(self).written() + buf@.subrange(0, n as int)
                },
                Err(_) => final(self).written() == old(self).written(),
            },
    ;
}

/// What the result of a raw read means when the operating system made the
/// read: a read of no bytes into a region with room is the end of the
/// stream, and everything else is as it came.
pub open spec fn spec_read_result(res: AioResult<usize>, room: usize) -> AioResult<usize> {
    match res {
        Ok(n) => if n == 0 && room > 0 {
            Err(AioError::spec_from_kind(Kind::Eof))
        } else {
            Ok(n)
        },
        Err(err) => Err(err),
    }
}

/// Turns the result of a raw read that the operating system made, into a
/// region of `room` bytes, into the result that the pump takes; see
/// `spec_read_result`.
pub fn read_result(res: AioResult<usize>, room: usize) -> (out: AioResult<usize>)
    ensures
        out == spec_read_result(res, room),
{
    match res {
        Ok(n) => if n == 0 && room > 0 {
            Err(AioError::from_kind(Kind::Eof))
        } else {
            Ok(n)
        },
        Err(err) => Err(err),
    }
}

/// A resource together with the descriptor under which an event loop
/// watches it.
pub struct Resource<I> {
    pub desc: IoDesc,
    pub io: I,
}

impl<I> Resource<I> {
    /// The resource `io` under the descriptor `desc`.
    pub fn new(desc: IoDesc, io: I) -> (res: Resource<I>)
        ensures
            res == (Resource { desc: desc, io: io }),
    {
        Resource { desc: desc, io: io }
    }

    /// Gives the resource back.
    pub fn into_inner(self) -> (io: I)
        ensures
            io == self.io,
    {
        self.io
    }
}

impl<I> IoHandle for Resource<I> {
    open spec fn descriptor(&self) -> IoDesc {
        self.desc
    }

    fn desc(&self) -> (desc: &IoDesc) {
        &self.desc
    }
}

impl<I: IoRead> IoRead for Resource<I> {
    open spec fn consumed(&self) -> Seq<u8> {
        self.io.consumed()
    }

    /// A read of the resource is a read of what it wraps, under the same
    /// descriptor.
    open spec fn reads(
        &self,
        buf: Seq<u8>,
        after: &Self,
        buf_after: Seq<u8>,
        res: AioResult<usize>,
    ) -> bool {
        &&& self.io.reads(buf, &after.io, buf_after, res)
        &&& after.desc == self.desc
    }

    fn read(&mut self, buf: &mut [u8]) -> (res: AioResult<usize>) {
        self.io.read(buf)
    }
}

impl<I: IoWrite> IoWrite for Resource<I> {
    open spec fn written(&self) -> Seq<u8> {
        self.io.written()
    }

    /// A write to the resource is a write to what it wraps, under the same
    /// descriptor.
    open spec fn writes(&self, buf: Seq<u8>, after: &Self, res: AioResult<usize>) -> bool {
        &&& self.io.writes(buf, &after.io, res)
        &&& after.desc == self.desc
    }

    fn write(&mut self, buf: &[u8]) -> (res: AioResult<usize>) {
        self.io.write(buf)
    }
}

} // verus!
