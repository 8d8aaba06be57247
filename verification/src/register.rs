//! Registrations: the binding of one resource, the state its callbacks work
//! on, and the callbacks themselves, as it is handed to an event loop.
//!
//! The event loop owns a registration once it is submitted. It calls
//! `readable` and `writable` as the resource becomes ready, one call at a
//! time, and drops the registration as soon as a callback answers `false`.

use vstd::prelude::*;
use crate::error::{ReactorError, ReactorErrorKind};
use crate::sys::register::{register, AsHandler};
use crate::sys::{IoDesc, IoHandle};

verus! {

/// Why a resource was reported readable.
#[derive(Copy, Clone, Debug, PartialEq, Eq, Hash, Structural)]
pub struct ReadHint {
    /// There is data to read.
    pub data: bool,
    /// The peer hung up.
    pub hup: bool,
    /// The resource is in error.
    pub error: bool,
}

/// The readiness that a registration asks to be told of.
#[derive(Copy, Clone, Debug, PartialEq, Eq, Hash, Structural)]
pub struct Interest {
    pub readable: bool,
    pub writable: bool,
}

/// How the event loop reports readiness.
#[derive(Copy, Clone, Debug, PartialEq, Eq, Hash, Structural)]
pub enum PollOpt {
    /// Once, when the readiness changes.
    Edge,
    /// As long as the readiness lasts.
    Level,
}

/// The error of an event loop that refused a registration.
#[derive(Copy, Clone, Debug, PartialEq, Eq, Hash, Structural)]
pub struct EventError {
    pub error: ReactorError,
}

/// The result of handing something to an event loop.
pub type EventResult<T> = Result<T, EventError>;

impl ReadHint {
    /// The hint of a resource with data to read.
    pub fn data() -> (hint: ReadHint)
        ensures
            hint == (ReadHint { data: true, hup: false, error: false }),
    {
        ReadHint { data: true, hup: false, error: false }
    }

    /// The hint of a resource whose peer hung up.
    pub fn hup() -> (hint: ReadHint)
        ensures
            hint == (ReadHint { data: false, hup: true, error: false }),
    {
        ReadHint { data: false, hup: true, error: false }
    }

    /// The hint of a resource in error.
    pub fn error() -> (hint: ReadHint)
        ensures
            hint == (ReadHint { data: false, hup: false, error: true }),
    {
        ReadHint { data: false, hup: false, error: true }
    }
}

impl Interest {
    /// Interest in readability alone.
    pub fn readable() -> (interest: Interest)
        ensures
            interest == (Interest { readable: true, writable: false }),
    {
        Interest { readable: true, writable: false }
    }

    /// Interest in writability alone.
    pub fn writable() -> (interest: Interest)
        ensures
            interest == (Interest { readable: false, writable: true }),
    {
        Interest { readable: false, writable: true }
    }

    /// Interest in both.
    pub fn all() -> (interest: Interest)
        ensures
            interest == (Interest { readable: true, writable: true }),
    {
        Interest { readable: true, writable: true }
    }

    /// Whether readability is asked for.
    pub fn is_readable(&self) -> (b: bool)
        ensures
            b == self.readable,
    {
        self.readable
    }

    /// Whether writability is asked for.
    pub fn is_writable(&self) -> (b: bool)
        ensures
            b == self.writable,
    {
        self.writable
    }
}

impl PollOpt {
    /// Edge-triggered reports.
    pub fn edge() -> (opt: PollOpt)
        ensures
            opt == PollOpt::Edge,
    {
        PollOpt::Edge
    }

    /// Level-triggered reports.
    pub fn level() -> (opt: PollOpt)
        ensures
            opt == PollOpt::Level,
    {
        PollOpt::Level
    }
}

/// The callback for a readable resource.
///
/// `fit` says on which resource and state the callback may run, and `reads`
/// says what one run may do: it relates the resource and the state before
/// the run to those after it and to the answer, `true` for "keep this
/// interest registered".
pub trait ReadCallback<I, S> {
    spec fn fit(&self, io: I, shared: S) -> bool;

    spec fn reads(
        &self,
        io: I,
        shared: S,
        hint: ReadHint,
        io_after: I,
        shared_after: S,
        keep: bool,
    ) -> bool;

    fn call(&self, io: &mut I, shared: &mut S, hint: ReadHint) -> (keep: bool)
        requires
            self.fit(*old(io), *old(shared)),
        ensures
            self.fit(*final(io), *final(shared)),
            self.reads(*old(io), *old(shared), hint, *final(io), *final(shared), keep),
    ;
}

/// The callback for a writable resource; see `ReadCallback`.
pub trait WriteCallback<I, S> {
    spec fn fit(&self, io: I, shared: S) -> bool;

    spec fn writes(&self, io: I, shared: S, io_after: I, shared_after: S, keep: bool) -> bool;

    fn call(&self, io: &mut I, shared: &mut S) -> (keep: bool)
        requires
            self.fit(*old(io), *old(shared)),
        ensures
            self.fit(*final(io), *final(shared)),
            self.writes(*old(io), *old(shared), *final(io), *final(shared), keep),
    ;
}

/// What an event loop calls when a resource is ready.
///
/// `ready` says that the handler may be called, and the two relations say
/// what one call may do to it.
pub trait Evented: Sized {
    spec fn ready(&self) -> bool;

    spec fn on_readable(&self, hint: ReadHint, after: Self, keep: bool) -> bool;

    spec fn on_writable(&self, after: Self, keep: bool) -> bool;

    fn readable(&mut self, hint: ReadHint) -> (keep: bool)
        requires
            old(self).ready(),
        ensures
            final(self).ready(),
            old(self).on_readable(hint, *final(self), keep),
    ;

    fn writable(&mut self) -> (keep: bool)
        requires
            old(self).ready(),
        ensures
            final(self).ready(),
            old(self).on_writable(*final(self), keep),
    ;
}

/// What an event loop is told when a resource is submitted: which readiness
/// to report, and how.
pub trait Configured {
    spec fn config(&self) -> (Interest, PollOpt);

    fn cfg(&self) -> (opts: (Interest, PollOpt))
        ensures
            opts == self.config(),
    ;
}

/// Something that can be handed to an event loop.
pub trait Register: Sized {
    type Error;

    type Handler;

    /// What is handed over when the submission is accepted.
    spec fn submitted(self) -> Self::Handler;

    /// Whether the submission is acceptable.
    spec fn acceptable(&self) -> bool;

    fn register(self) -> (res: Result<Self::Handler, Self::Error>)
        ensures
            res is Ok <==> self.acceptable(),
            res matches Ok(handler) ==> handler == self.submitted(),
    ;
}

/// A resource, the state that its callbacks work on, the callbacks, and the
/// readiness to report.
pub struct Registration<I, S, R, W> {
    pub io: I,
    pub shared: S,
    pub read: R,
    pub write: W,
    pub opts: (Interest, PollOpt),
}

impl<I, S, R, W> Registration<I, S, R, W> where
    R: ReadCallback<I, S>,
    W: WriteCallback<I, S>,
 {
    /// A registration for readability, level-triggered.
    #[inline]
    pub fn new(io: I, shared: S, read: R, write: W) -> (reg: Registration<I, S, R, W>)
        ensures
            reg == (Registration {
                io: io,
                shared: shared,
                read: read,
                write: write,
                opts: (Interest { readable: true, writable: false }, PollOpt::Level),
            }),
    {
        Registration {
            io: io,
            shared: shared,
            read: read,
            write: write,
            opts: (Interest::readable(), PollOpt::level()),
        }
    }

    /// A registration for the given readiness, reported the given way.
    #[inline]
    pub fn with_opts(io: I, shared: S, read: R, write: W, interest: Interest, opt: PollOpt) -> (reg:
        Registration<I, S, R, W>)
        ensures
            reg == (Registration {
                io: io,
                shared: shared,
                read: read,
                write: write,
                opts: (interest, opt),
            }),
    {
        Registration { io: io, shared: shared, read: read, write: write, opts: (interest, opt) }
    }
}

impl<I, S, R, W> Registration<I, S, R, W> {
    /// The resource.
    #[inline]
    pub fn io(&self) -> (io: &I)
        ensures
            *io == self.io,
    {
        &self.io
    }
}

impl<I: IoHandle, S, R, W> IoHandle for Registration<I, S, R, W> {
    open spec fn descriptor(&self) -> IoDesc {
        self.io.descriptor()
    }

    fn desc(&self) -> (desc: &IoDesc) {
        self.io.desc()
    }
}

impl<I, S, R, W> Evented for Registration<I, S, R, W> where
    R: ReadCallback<I, S>,
    W: WriteCallback<I, S>,
 {
    /// Both callbacks fit the resource and the state, and they fit the same
    /// resources and states, so that either can run after the other.
    open spec fn ready(&self) -> bool {
        &&& self.read.fit(self.io, self.shared)
        &&& self.write.fit(self.io, self.shared)
        &&& forall|io: I, shared: S| #[trigger]
            self.read.fit(io, shared) <==> self.write.fit(io, shared)
    }

    /// A readable resource runs the read callback and nothing else.
    open spec fn on_readable(&self, hint: ReadHint, after: Self, keep: bool) -> bool {
        &&& self.read.reads(self.io, self.shared, hint, after.io, after.shared, keep)
        &&& after.read == self.read
        &&& after.write == self.write
        &&& after.opts == self.opts
    }

    /// A writable resource runs the write callback and nothing else.
    open spec fn on_writable(&self, after: Self, keep: bool) -> bool {
        &&& self.write.writes(self.io, self.shared, after.io, after.shared, keep)
        &&& after.read == self.read
        &&& after.write == self.write
        &&& after.opts == self.opts
    }

    #[inline]
    fn readable(&mut self, hint: ReadHint) -> (keep: bool) {
        self.read.call(&mut self.io, &mut self.shared, hint)
    }

    #[inline]
    fn writable(&mut self) -> (keep: bool) {
        self.write.call(&mut self.io, &mut self.shared)
    }
}

impl<I, S, R, W> Configured for Registration<I, S, R, W> {
    open spec fn config(&self) -> (Interest, PollOpt) {
        self.opts
    }

    #[inline]
    fn cfg(&self) -> (opts: (Interest, PollOpt)) {
        self.opts
    }
}

impl<I, S, R, W> Register for Registration<I, S, R, W> where
    I: IoHandle,
    R: ReadCallback<I, S>,
    W: WriteCallback<I, S>,
 {
    type Error = EventError;

    type Handler = AsHandler<Registration<I, S, R, W>>;

    open spec fn submitted(self) -> AsHandler<Registration<I, S, R, W>> {
        AsHandler(self)
    }

    /// A registration can be submitted when its descriptor is one that the
    /// operating system could have given, and it asks for some readiness.
    open spec fn acceptable(&self) -> bool {
        &&& self.io.descriptor().fd >= 0
        &&& (self.opts.0.readable || self.opts.0.writable)
    }

    /// Checks the registration and puts it in the form in which an event
    /// loop takes it. A registration that cannot be watched is refused.
    fn register(self) -> (res: EventResult<AsHandler<Registration<I, S, R, W>>>)
        ensures
            res matches Err(err) ==> err.error.kind == ReactorErrorKind::OtherError,
    {
        let valid = self.io.desc().fd >= 0;
        let wanted = self.opts.0.is_readable() || self.opts.0.is_writable();
        if valid && wanted {
            Ok(register(self))
        } else {
            Err(EventError { error: ReactorError { kind: ReactorErrorKind::OtherError } })
        }
    }
}

} // verus!
