//! The form in which a handler is handed to an event loop.

use vstd::prelude::*;
use crate::register::{Configured, Evented, Interest, PollOpt, ReadHint};
use crate::sys::{IoDesc, IoHandle};

verus! {

/// Everything an event loop needs of a handler: a descriptor to watch,
/// callbacks to run, and the readiness to report.
pub trait EventHandler: IoHandle + Evented + Configured {

}

impl<I: IoHandle + Evented + Configured> EventHandler for I {

}

/// What an event loop reports of a resource.
#[derive(Copy, Clone, Debug, PartialEq, Eq, Structural)]
pub enum Readiness {
    /// The resource can be read, and why.
    Readable(ReadHint),
    /// The resource can be written.
    Writable,
}

/// What an event loop does with a handler after a callback.
#[derive(Copy, Clone, Debug, PartialEq, Eq, Structural)]
pub enum Action {
    /// The callback asked to be called again: the interest stays.
    Reregister,
    /// The callback is finished: the handler is dropped.
    Deregister,
}

/// A handler as the event loop holds it.
pub struct AsHandler<T>(pub T);

impl<I: EventHandler> AsHandler<I> {
    /// Runs the handler's callback for a readable resource.
    #[inline]
    pub fn readable(&mut self, hint: ReadHint) -> (keep: bool)
        requires
            old(self).0.ready(),
        ensures
            final(self).0.ready(),
            old(self).0.on_readable(hint, final(self).0, keep),
    {
        self.0.readable(hint)
    }

    /// Runs the handler's callback for a writable resource.
    #[inline]
    pub fn writable(&mut self) -> (keep: bool)
        requires
            old(self).0.ready(),
        ensures
            final(self).0.ready(),
            old(self).0.on_writable(final(self).0, keep),
    {
        self.0.writable()
    }

    /// Runs the callback that a report of readiness is for, and says what
    /// becomes of the handler: it stays registered exactly when the
    /// callback answered `true`.
    pub fn dispatch(&mut self, ready: Readiness) -> (action: Action)
        requires
            old(self).0.ready(),
        ensures
            final(self).0.ready(),
            match ready {
                Readiness::Readable(hint) => old(self).0.on_readable(
                    hint,
                    final(self).0,
                    action == Action::Reregister,
                ),
                Readiness::Writable => old(self).0.on_writable(
                    final(self).0,
                    action == Action::Reregister,
                ),
            },
    {
        let keep = match ready {
            Readiness::Readable(hint) => self.0.readable(hint),
            Readiness::Writable => self.0.writable(),
        };
        if keep {
            Action::Reregister
        } else {
            Action::Deregister
        }
    }

    /// The descriptor to watch.
    #[inline]
    pub fn desc(&self) -> (desc: &IoDesc)
        ensures
            *desc == self.0.descriptor(),
    {
        self.0.desc()
    }

    /// The readiness to report.
    #[inline]
    pub fn interest(&self) -> (interest: Option<Interest>)
        ensures
            interest == Some(self.0.config().0),
    {
        Some(self.0.cfg().0)
    }

    /// How to report it.
    #[inline]
    pub fn opt(&self) -> (opt: Option<PollOpt>)
        ensures
            opt == Some(self.0.config().1),
    {
        Some(self.0.cfg().1)
    }

    /// Gives the handler back, as when the event loop drops it.
    pub fn into_inner(self) -> (handler: I)
        ensures
            handler == self.0,
    {
        self.0
    }
}

/// Puts a handler in the form in which an event loop takes it.
pub fn register<E: EventHandler>(ev: E) -> (handler: AsHandler<E>)
    ensures
        handler.0 == ev,
{
    AsHandler(ev)
}

} // verus!
