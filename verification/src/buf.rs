//! A fixed-capacity circular byte buffer with a read cursor and a write
//! cursor: the one place where the two sides of a transfer meet, and the
//! only backpressure between them.
//!
//! The buffer never grows. A producer fills the free region that the writer
//! view exposes and commits what it wrote; a consumer drains the filled
//! region that the reader view exposes and commits what it took. Committing
//! more than a view exposes is clamped to what it exposes.

use vstd::prelude::*;
use crate::error::AioResult;

verus! {

/// Where the cursors of a ring buffer stand: the capacity, the storage index
/// of the oldest unread byte, and the number of unread bytes.
pub struct Layout {
    pub cap: nat,
    pub pos: nat,
    pub len: nat,
}

impl Layout {
    /// The cursors are in range: no more bytes are held than fit, and the
    /// read cursor points into the storage.
    pub open spec fn wf(self) -> bool {
        &&& self.len <= self.cap
        &&& (self.pos < self.cap || (self.cap == 0 && self.pos == 0))
    }

    /// The number of bytes that are held and not yet consumed.
    pub open spec fn remaining_to_read(self) -> nat {
        self.len
    }

    /// The number of bytes that can still be committed.
    pub open spec fn remaining_to_write(self) -> nat {
        (self.cap - self.len) as nat
    }

    /// The storage index of the `i`-th unread byte.
    pub open spec fn index(self, i: int) -> int {
        if self.pos + i < self.cap {
            self.pos + i
        } else {
            self.pos + i - self.cap
        }
    }

    /// The length of the region that the reader view exposes: the unread
    /// bytes up to the end of the storage.
    pub open spec fn read_room(self) -> nat {
        if self.pos + self.len <= self.cap {
            self.len
        } else {
            (self.cap - self.pos) as nat
        }
    }

    /// The storage index at which the next committed byte lies.
    pub open spec fn write_start(self) -> nat {
        if self.pos + self.len < self.cap {
            self.pos + self.len
        } else {
            (self.pos + self.len - self.cap) as nat
        }
    }

    /// The length of the region that the writer view exposes: the free bytes
    /// up to the end of the storage, or up to the read cursor.
    pub open spec fn write_room(self) -> nat {
        if self.pos + self.len < self.cap {
            (self.cap - self.pos - self.len) as nat
        } else {
            (self.cap - self.len) as nat
        }
    }

    /// The cursors after a producer commits `n` bytes: at most the exposed
    /// free region is committed.
    pub open spec fn commit(self, n: nat) -> Layout {
        let k = if n <= self.write_room() {
            n
        } else {
            self.write_room()
        };
        Layout { cap: self.cap, pos: self.pos, len: self.len + k }
    }

    /// The cursors after a consumer commits `n` bytes: at most the exposed
    /// filled region is consumed.
    pub open spec fn consume(self, n: nat) -> Layout {
        let k = if n <= self.read_room() {
            n
        } else {
            self.read_room()
        };
        Layout {
            cap: self.cap,
            pos: if self.pos + k < self.cap {
                self.pos + k
            } else {
                0
            },
            len: (self.len - k) as nat,
        }
    }

    /// The cursors after one cursor call.
    pub open spec fn step(self, op: CursorOp) -> Layout {
        match op {
            CursorOp::Commit(n) => self.commit(n),
            CursorOp::Consume(n) => self.consume(n),
        }
    }

    /// The cursors after a sequence of cursor calls, first to last.
    pub open spec fn run(self, ops: Seq<CursorOp>) -> Layout
        decreases ops.len(),
    {
        if ops.len() == 0 {
            self
        } else {
            self.run(ops.drop_last()).step(ops.last())
        }
    }
}

/// A ring buffer as the contracts of the pump see it: the bytes of its
/// storage, in storage order, and where its cursors stand.
pub struct Ring {
    pub storage: Seq<u8>,
    pub layout: Layout,
}

impl Ring {
    /// The region that the writer view exposes, as it is stored.
    pub open spec fn write_area(self) -> Seq<u8> {
        self.storage.subrange(
            self.layout.write_start() as int,
            (self.layout.write_start() + self.layout.write_room()) as int,
        )
    }

    /// The region that the reader view exposes.
    pub open spec fn read_area(self) -> Seq<u8> {
        self.storage.subrange(
            self.layout.pos as int,
            (self.layout.pos + self.layout.read_room()) as int,
        )
    }

    /// The buffer after a raw read left the free region as `region` and
    /// gave `res`: the region is stored, and the bytes read are committed.
    pub open spec fn filled(self, region: Seq<u8>, res: AioResult<usize>) -> Ring {
        Ring {
            storage: splice(self.storage, self.layout.write_start() as int, region),
            layout: match res {
                Ok(n) => self.layout.commit(n as nat),
                Err(_) => self.layout,
            },
        }
    }

    /// The buffer after a raw write of the filled region gave `res`: the
    /// bytes written are consumed.
    pub open spec fn drained(self, res: AioResult<usize>) -> Ring {
        Ring {
            storage: self.storage,
            layout: match res {
                Ok(n) => self.layout.consume(n as nat),
                Err(_) => self.layout,
            },
        }
    }
}

/// One call on a cursor: the writer's `advance` or the reader's.
pub enum CursorOp {
    Commit(nat),
    Consume(nat),
}

/// A fixed-capacity circular byte buffer.
pub struct RingBuf {
    data: Vec<u8>,
    pos: usize,
    len: usize,
}

/// The view of a ring buffer that a producer fills.
pub struct RingBufWriter<'a> {
    pub ring: &'a mut RingBuf,
}

/// The view of a ring buffer that a consumer drains.
pub struct RingBufReader<'a> {
    pub ring: &'a mut RingBuf,
}

impl View for RingBuf {
    type V = Seq<u8>;

    /// The bytes that are held and not yet consumed, oldest first.
    open spec fn view(&self) -> Seq<u8> {
        Seq::new(self.layout().len, |i: int| self.storage()[self.layout().index(i)])
    }
}

impl RingBuf {
    /// The bytes of the storage, in storage order.
    pub closed spec fn storage(&self) -> Seq<u8> {
        self.data@
    }

    /// Where the cursors stand.
    pub closed spec fn layout(&self) -> Layout {
        Layout { cap: self.data@.len(), pos: self.pos as nat, len: self.len as nat }
    }

    /// The storage and the cursors together.
    pub open spec fn ring(&self) -> Ring {
        Ring { storage: self.storage(), layout: self.layout() }
    }

    /// The buffer is valid: the cursors are in range of the storage.
    pub open spec fn wf(&self) -> bool {
        &&& self.layout().wf()
        &&& self.storage().len() == self.layout().cap
        &&& self.layout().cap <= usize::MAX
    }

    /// The region that the writer view exposes, as it is stored now.
    pub open spec fn write_area(&self) -> Seq<u8> {
        self.storage().subrange(
            self.layout().write_start() as int,
            (self.layout().write_start() + self.layout().write_room()) as int,
        )
    }

    /// The region that the reader view exposes.
    pub open spec fn read_area(&self) -> Seq<u8> {
        self.storage().subrange(
            self.layout().pos as int,
            (self.layout().pos + self.layout().read_room()) as int,
        )
    }

    /// Allocates a zeroed buffer of the given capacity, with nothing held.
    pub fn new(capacity: usize) -> (buf: RingBuf)
        ensures
            buf.wf(),
            buf.layout() == (Layout { cap: capacity as nat, pos: 0, len: 0 }),
            buf.storage() == Seq::new(capacity as nat, |i: int| 0u8),
            buf@ == Seq::<u8>::empty(),
    {
        let buf = RingBuf { data: vec![0u8; capacity], pos: 0, len: 0 };
        assert(buf.storage() =~= Seq::new(capacity as nat, |i: int| 0u8));
        assert(buf@ =~= Seq::<u8>::empty());
        buf
    }

    /// The number of bytes that the buffer can hold.
    pub fn capacity(&self) -> (cap: usize)
        requires
            self.wf(),
        ensures
            cap == self.layout().cap,
    {
        self.data.len()
    }

    /// The number of bytes that are held and not yet consumed.
    pub fn remaining_to_read(&self) -> (n: usize)
        requires
            self.wf(),
        ensures
            n == self.layout().remaining_to_read(),
            n == self@.len(),
    {
        self.len
    }

    /// The number of bytes that can still be committed.
    pub fn remaining_to_write(&self) -> (n: usize)
        requires
            self.wf(),
        ensures
            n == self.layout().remaining_to_write(),
            n + self@.len() == self.layout().cap,
    {
        self.data.len() - self.len
    }

    /// Whether any byte is held: the consumer's side suspends when not.
    pub fn has_remaining_to_read(&self) -> (b: bool)
        requires
            self.wf(),
        ensures
            b == (self@.len() > 0),
            b == (self.layout().read_room() > 0),
    {
        self.len > 0
    }

    /// Whether any byte is free: the producer's side suspends when not.
    pub fn has_remaining_to_write(&self) -> (b: bool)
        requires
            self.wf(),
        ensures
            b == (self@.len() < self.layout().cap),
            b == (self.layout().write_room() > 0),
    {
        self.len < self.data.len()
    }

    /// Whether nothing is held.
    pub fn is_empty(&self) -> (b: bool)
        requires
            self.wf(),
        ensures
            b == (self@.len() == 0),
    {
        self.len == 0
    }

    /// Whether nothing is free.
    pub fn is_full(&self) -> (b: bool)
        requires
            self.wf(),
        ensures
            b == (self@.len() == self.layout().cap),
    {
        self.len == self.data.len()
    }

    /// The storage index at which the next committed byte lies.
    fn write_start(&self) -> (start: usize)
        requires
            self.wf(),
        ensures
            start == self.layout().write_start(),
    {
        let tail = self.data.len() - self.pos;
        if self.len < tail {
            self.pos + self.len
        } else {
            self.len - tail
        }
    }

    /// The length of the region that the writer view exposes.
    pub fn write_room(&self) -> (room: usize)
        requires
            self.wf(),
        ensures
            room == self.layout().write_room(),
            room <= self.layout().remaining_to_write(),
    {
        let tail = self.data.len() - self.pos;
        if self.len < tail {
            tail - self.len
        } else {
            self.data.len() - self.len
        }
    }

    /// The length of the region that the reader view exposes.
    pub fn read_room(&self) -> (room: usize)
        requires
            self.wf(),
        ensures
            room == self.layout().read_room(),
            room <= self@.len(),
    {
        let tail = self.data.len() - self.pos;
        if self.len <= tail {
            self.len
        } else {
            tail
        }
    }

    /// The free region that a producer may fill next: the free bytes from the
    /// write cursor up to the end of the storage or up to the read cursor.
    /// It is empty exactly when the buffer is full. Writing into it changes
    /// no byte that is held.
    pub fn mut_bytes(&mut self) -> (region: &mut [u8])
        requires
            old(self).wf(),
        ensures
            region@ == old(self).write_area(),
            final(region)@.len() == region@.len() ==> {
                &&& final(self).wf()
                &&& final(self).layout() == old(self).layout()
                &&& final(self).storage() == splice(
                    old(self).storage(),
                    old(self).layout().write_start() as int,
                    final(region)@,
                )
                &&& final(self).write_area() == final(region)@
                &&& final(self)@ == old(self)@
            },
    {
        let start = self.write_start();
        let room = self.write_room();
        proof {
            let before = *old(self);
            assert forall|r: Seq<u8>| r.len() == room implies {
                let after = #[trigger] splice(before.storage(), start as int, r);
                &&& after.len() == before.storage().len()
                &&& after.subrange(start as int, start + room) == r
                &&& Seq::new(before.layout().len, |i: int| after[before.layout().index(i)])
                    == before@
            } by {
                lemma_splice_free_region(before, r);
            }
        }
        let whole = self.data.as_mut_slice();
        let (head, _tail) = whole.split_at_mut(start + room);
        let (_front, region) = head.split_at_mut(start);
        region
    }

    /// Commits `n` bytes of the region that `mut_bytes` exposed: they are
    /// held from now on, after those held before. An `n` greater than the
    /// exposed region commits the exposed region and no more.
    pub fn advance_writer(&mut self, n: usize)
        requires
            old(self).wf(),
        ensures
            final(self).wf(),
            final(self).storage() == old(self).storage(),
            final(self).layout() == old(self).layout().commit(n as nat),
            final(self)@ == old(self)@ + old(self).write_area().subrange(
                0,
                (final(self)@.len() - old(self)@.len()) as int,
            ),
    {
        let room = self.write_room();
        let k = if n <= room {
            n
        } else {
            room
        };
        self.len = self.len + k;
        proof {
            let added = old(self).write_area().subrange(0, k as int);
            assert(final(self)@ =~= old(self)@ + added);
        }
    }

    /// The filled region that a consumer may drain next: the held bytes from
    /// the read cursor up to the end of the storage, oldest first. It is
    /// empty exactly when nothing is held.
    pub fn bytes(&self) -> (region: &[u8])
        requires
            self.wf(),
        ensures
            region@ == self.read_area(),
            region@ == self@.subrange(0, self.layout().read_room() as int),
    {
        let room = self.read_room();
        let region = vstd::slice::slice_subrange(self.data.as_slice(), self.pos, self.pos + room);
        assert(region@ =~= self@.subrange(0, room as int));
        region
    }

    /// Commits `n` bytes of the region that `bytes` exposed: they are held
    /// no longer. An `n` greater than the exposed region consumes the
    /// exposed region and no more.
    pub fn advance_reader(&mut self, n: usize)
        requires
            old(self).wf(),
        ensures
            final(self).wf(),
            final(self).storage() == old(self).storage(),
            final(self).layout() == old(self).layout().consume(n as nat),
            final(self)@ == old(self)@.skip((old(self)@.len() - final(self)@.len()) as int),
    {
        let room = self.read_room();
        let k = if n <= room {
            n
        } else {
            room
        };
        let tail = self.data.len() - self.pos;
        self.pos = if k < tail {
            self.pos + k
        } else {
            0
        };
        self.len = self.len - k;
        proof {
            assert(final(self)@ =~= old(self)@.skip(k as int));
        }
    }

    /// The view for a producer.
    pub fn writer(&mut self) -> (w: RingBufWriter<'_>)
        ensures
            *w.ring == *old(self),
            *final(self) == *final(w.ring),
    {
        RingBufWriter { ring: self }
    }

    /// The view for a consumer.
    pub fn reader(&mut self) -> (r: RingBufReader<'_>)
        ensures
            *r.ring == *old(self),
            *final(self) == *final(r.ring),
    {
        RingBufReader { ring: self }
    }
}

impl<'a> RingBufWriter<'a> {
    /// The number of bytes that can still be committed.
    pub fn remaining(&self) -> (n: usize)
        requires
            self.ring.wf(),
        ensures
            n == old(self.ring).layout().remaining_to_write(),
    {
        self.ring.remaining_to_write()
    }

    /// Whether any byte is free.
    pub fn has_remaining(&self) -> (b: bool)
        requires
            self.ring.wf(),
        ensures
            b == (old(self.ring).layout().write_room() > 0),
            b == (old(self.ring)@.len() < old(self.ring).layout().cap),
    {
        self.ring.has_remaining_to_write()
    }

    /// The free region to fill next; see `RingBuf::mut_bytes`.
    pub fn mut_bytes(&mut self) -> (region: &mut [u8])
        requires
            old(self).ring.wf(),
        ensures
            region@ == old(self).ring.write_area(),
            *final(final(self).ring) == *final(old(self).ring),
            final(region)@.len() == region@.len() ==> {
                &&& final(self).ring.wf()
                &&& final(self).ring.layout() == old(self).ring.layout()
                &&& final(self).ring.storage() == splice(
                    old(self).ring.storage(),
                    old(self).ring.layout().write_start() as int,
                    final(region)@,
                )
                &&& final(self).ring.write_area() == final(region)@
                &&& final(self).ring@ == old(self).ring@
            },
    {
        self.ring.mut_bytes()
    }

    /// Commits `n` written bytes, clamped to the region that the view
    /// exposes.
    pub fn advance(&mut self, n: usize)
        requires
            old(self).ring.wf(),
        ensures
            final(self).ring.wf(),
            final(self).ring.storage() == old(self).ring.storage(),
            final(self).ring.layout() == old(self).ring.layout().commit(n as nat),
            final(self).ring@ == old(self).ring@ + old(self).ring.write_area().subrange(
                0,
                (final(self).ring@.len() - old(self).ring@.len()) as int,
            ),
            *final(final(self).ring) == *final(old(self).ring),
    {
        self.ring.advance_writer(n);
    }
}

impl<'a> RingBufReader<'a> {
    /// The number of bytes that are held and not yet consumed.
    pub fn remaining(&self) -> (n: usize)
        requires
            self.ring.wf(),
        ensures
            n == old(self.ring)@.len(),
    {
        self.ring.remaining_to_read()
    }

    /// Whether any byte is held.
    pub fn has_remaining(&self) -> (b: bool)
        requires
            self.ring.wf(),
        ensures
            b == (old(self.ring)@.len() > 0),
            b == (old(self.ring).layout().read_room() > 0),
    {
        self.ring.has_remaining_to_read()
    }

    /// The filled region to drain next; see `RingBuf::bytes`.
    pub fn bytes(&self) -> (region: &[u8])
        requires
            self.ring.wf(),
        ensures
            region@ == old(self.ring).read_area(),
            region@ == old(self.ring)@.subrange(0, old(self.ring).layout().read_room() as int),
    {
        self.ring.bytes()
    }

    /// Commits `n` consumed bytes, clamped to the region that the view
    /// exposes.
    pub fn advance(&mut self, n: usize)
        requires
            old(self).ring.wf(),
        ensures
            final(self).ring.wf(),
            final(self).ring.storage() == old(self).ring.storage(),
            final(self).ring.layout() == old(self).ring.layout().consume(n as nat),
            final(self).ring@ == old(self).ring@.skip(
                (old(self).ring@.len() - final(self).ring@.len()) as int,
            ),
            *final(final(self).ring) == *final(old(self).ring),
    {
        self.ring.advance_reader(n);
    }
}

/// The storage with `region` written over the bytes from `start` on.
pub open spec fn splice(storage: Seq<u8>, start: int, region: Seq<u8>) -> Seq<u8> {
    storage.subrange(0, start) + region + storage.subrange(
        start + region.len(),
        storage.len() as int,
    )
}

/// Writing over the whole free region that the writer view exposes keeps the
/// length of the storage and every byte that is held.
proof fn lemma_splice_free_region(buf: RingBuf, region: Seq<u8>)
    requires
        buf.wf(),
        region.len() == buf.layout().write_room(),
    ensures
        ({
            let start = buf.layout().write_start() as int;
            let after = splice(buf.storage(), start, region);
            &&& after.len() == buf.storage().len()
            &&& after.subrange(start, start + region.len()) == region
            &&& Seq::new(buf.layout().len, |i: int| after[buf.layout().index(i)]) == buf@
        }),
{
    let start = buf.layout().write_start() as int;
    let after = splice(buf.storage(), start, region);
    assert(after.subrange(start, start + region.len()) =~= region);
    assert(Seq::new(buf.layout().len, |i: int| after[buf.layout().index(i)]) =~= buf@);
}

/// Every sequence of cursor calls keeps the cursors in range, and the bytes
/// left to read and the bytes left to write add up to the capacity after
/// each of them, whatever the counts that the calls were given.
pub proof fn lemma_run_keeps_balance(start: Layout, ops: Seq<CursorOp>)
    requires
        start.wf(),
    ensures
        start.run(ops).wf(),
        start.run(ops).cap == start.cap,
        start.run(ops).remaining_to_read() + start.run(ops).remaining_to_write() == start.cap,
    decreases ops.len(),
{
    if ops.len() > 0 {
        lemma_run_keeps_balance(start, ops.drop_last());
    }
}

/// A count greater than the exposed region commits exactly what the exposed
/// region holds: it is clamped, on either cursor, and the cursors stay in
/// range.
pub proof fn lemma_overcommit_is_clamped(layout: Layout, n: nat)
    requires
        layout.wf(),
    ensures
        n >= layout.write_room() ==> layout.commit(n) == layout.commit(layout.write_room()),
        n >= layout.read_room() ==> layout.consume(n) == layout.consume(layout.read_room()),
        layout.commit(n).wf(),
        layout.consume(n).wf(),
        layout.commit(n).len <= layout.len + layout.write_room(),
        layout.consume(n).len + layout.read_room() >= layout.len,
{
}

} // verus!
