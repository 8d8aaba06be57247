//! The readiness set of an event loop: which descriptors are watched, and
//! for what.
//!
//! A descriptor is held by at most one registration per direction. A read
//! registration and a write registration of one descriptor can stand side
//! by side; a second registration for a direction that is taken is refused,
//! as is a descriptor that the operating system could not have given, and a
//! registration that asks for nothing.

use std::collections::HashMap;
use vstd::prelude::*;
use vstd::std_specs::hash::group_hash_axioms;
use crate::error::{ReactorError, ReactorErrorKind};
use crate::register::{Configured, EventError, EventResult, Interest};
use crate::sys::register::{register, Action, AsHandler, EventHandler};
use crate::sys::{IoDesc, IoHandle};

verus! {

broadcast use group_hash_axioms;

/// The directions of the descriptors that an event loop watches.
pub struct ReadinessSet {
    watched: HashMap<i32, Interest>,
}

/// No direction.
pub open spec fn nothing() -> Interest {
    Interest { readable: false, writable: false }
}

/// The directions of both.
pub open spec fn both(a: Interest, b: Interest) -> Interest {
    Interest { readable: a.readable || b.readable, writable: a.writable || b.writable }
}

/// The directions of `a` that are not directions of `b`.
pub open spec fn without(a: Interest, b: Interest) -> Interest {
    Interest { readable: a.readable && !b.readable, writable: a.writable && !b.writable }
}

/// Whether `a` and `b` have a direction in common.
pub open spec fn overlap(a: Interest, b: Interest) -> bool {
    (a.readable && b.readable) || (a.writable && b.writable)
}

/// The directions that are held of the descriptor `fd`.
pub open spec fn held(watched: Map<i32, Interest>, fd: i32) -> Interest {
    if watched.contains_key(fd) {
        watched[fd]
    } else {
        nothing()
    }
}

/// Whether a registration of `fd` for `interest` can be added to what is
/// watched.
pub open spec fn admissible(watched: Map<i32, Interest>, fd: i32, interest: Interest) -> bool {
    &&& fd >= 0
    &&& interest != nothing()
    &&& !overlap(held(watched, fd), interest)
}

/// What is watched after the directions `interest` of `fd` are let go.
pub open spec fn released(watched: Map<i32, Interest>, fd: i32, interest: Interest) -> Map<
    i32,
    Interest,
> {
    let left = without(held(watched, fd), interest);
    if left == nothing() {
        watched.remove(fd)
    } else {
        watched.insert(fd, left)
    }
}

fn refused() -> (err: EventError)
    ensures
        err.error.kind == ReactorErrorKind::OtherError,
{
    EventError { error: ReactorError { kind: ReactorErrorKind::OtherError } }
}

impl View for ReadinessSet {
    type V = Map<i32, Interest>;

    closed spec fn view(&self) -> Map<i32, Interest> {
        self.watched@
    }
}

impl ReadinessSet {
    /// The set is valid: every descriptor in it is one that the operating
    /// system could have given and is held for some direction.
    pub open spec fn wf(&self) -> bool {
        forall|fd: i32| #[trigger]
            self@.contains_key(fd) ==> fd >= 0 && self@[fd] != nothing()
    }

    /// A set that watches nothing.
    pub fn new() -> (set: ReadinessSet)
        ensures
            set.wf(),
            set@ == Map::<i32, Interest>::empty(),
    {
        ReadinessSet { watched: HashMap::new() }
    }

    /// The directions that are held of a descriptor.
    pub fn holds(&self, desc: &IoDesc) -> (interest: Interest)
        ensures
            interest == held(self@, desc.fd),
    {
        match self.watched.get(&desc.fd) {
            Some(interest) => *interest,
            None => Interest { readable: false, writable: false },
        }
    }

    /// Adds a registration of `desc` for `interest`. It is refused, and the
    /// set left as it is, when the descriptor is not one that the operating
    /// system could have given, when nothing is asked for, and when a
    /// direction that is asked for is taken.
    pub fn watch(&mut self, desc: &IoDesc, interest: Interest) -> (res: EventResult<()>)
        requires
            old(self).wf(),
        ensures
            final(self).wf(),
            res is Ok <==> admissible(old(self)@, desc.fd, interest),
            match res {
                Ok(_) => final(self)@ == old(self)@.insert(
                    desc.fd,
                    both(held(old(self)@, desc.fd), interest),
                ),
                Err(err) => final(self)@ == old(self)@ && err.error.kind
                    == ReactorErrorKind::OtherError,
            },
    {
        if desc.fd < 0 || (!interest.readable && !interest.writable) {
            return Err(refused());
        }
        let held = self.holds(desc);
        if (held.readable && interest.readable) || (held.writable && interest.writable) {
            return Err(refused());
        }
        let all = Interest {
            readable: held.readable || interest.readable,
            writable: held.writable || interest.writable,
        };
        self.watched.insert(desc.fd, all);
        Ok(())
    }

    /// Lets the directions `interest` of `desc` go. A descriptor of which no
    /// direction is left is watched no longer.
    pub fn unwatch(&mut self, desc: &IoDesc, interest: Interest)
        requires
            old(self).wf(),
        ensures
            final(self).wf(),
            final(self)@ == released(old(self)@, desc.fd, interest),
    {
        let held = self.holds(desc);
        let left = Interest {
            readable: held.readable && !interest.readable,
            writable: held.writable && !interest.writable,
        };
        if !left.readable && !left.writable {
            self.watched.remove(&desc.fd);
            assert(self@ =~= released(old(self)@, desc.fd, interest));
        } else {
            self.watched.insert(desc.fd, left);
        }
    }

    /// Takes a handler into the set: its descriptor is watched for the
    /// readiness that it asks for, and the handler is put in the form in
    /// which the event loop holds it. A handler that cannot be watched is
    /// refused.
    pub fn submit<E: EventHandler>(&mut self, ev: E) -> (res: EventResult<AsHandler<E>>)
        requires
            old(self).wf(),
        ensures
            final(self).wf(),
            res is Ok <==> admissible(old(self)@, ev.descriptor().fd, ev.config().0),
            match res {
                Ok(handler) => handler.0 == ev && final(self)@ == old(self)@.insert(
                    ev.descriptor().fd,
                    both(held(old(self)@, ev.descriptor().fd), ev.config().0),
                ),
                Err(err) => final(self)@ == old(self)@ && err.error.kind
                    == ReactorErrorKind::OtherError,
            },
    {
        let interest = ev.cfg().0;
        match self.watch(ev.desc(), interest) {
            Ok(_) => Ok(register(ev)),
            Err(err) => Err(err),
        }
    }

    /// Does to the set what a callback of `handler` asked for: a handler
    /// that stays registered stays watched, and the directions of one that
    /// is dropped are let go.
    pub fn settle<E: EventHandler>(&mut self, handler: &AsHandler<E>, action: Action)
        requires
            old(self).wf(),
        ensures
            final(self).wf(),
            final(self)@ == match action {
                Action::Reregister => old(self)@,
                Action::Deregister => released(
                    old(self)@,
                    handler.0.descriptor().fd,
                    handler.0.config().0,
                ),
            },
    {
        match action {
            Action::Reregister => {},
            Action::Deregister => {
                let interest = handler.0.cfg().0;
                self.unwatch(handler.0.desc(), interest);
            },
        }
    }
}

/// A direction that is taken is never given twice: after a registration was
/// added, another for a direction that it holds is refused, and what is
/// watched stays as it is, until the direction is let go.
pub proof fn lemma_no_direction_twice(
    watched: Map<i32, Interest>,
    fd: i32,
    first: Interest,
    second: Interest,
)
    requires
        admissible(watched, fd, first),
        overlap(first, second),
    ensures
        !admissible(watched.insert(fd, both(held(watched, fd), first)), fd, second),
{
}

/// A read registration and a write registration of one descriptor stand
/// side by side, in either order.
pub proof fn lemma_directions_coexist(watched: Map<i32, Interest>, fd: i32)
    requires
        fd >= 0,
        !watched.contains_key(fd),
    ensures
        ({
            let read = Interest { readable: true, writable: false };
            let write = Interest { readable: false, writable: true };
            &&& admissible(watched, fd, read)
            &&& admissible(watched.insert(fd, both(held(watched, fd), read)), fd, write)
            &&& admissible(watched, fd, write)
            &&& admissible(watched.insert(fd, both(held(watched, fd), write)), fd, read)
        }),
{
}

/// Letting go of what a registration added gives back what was watched
/// before it.
pub proof fn lemma_release_undoes_watch(watched: Map<i32, Interest>, fd: i32, interest: Interest)
    requires
        admissible(watched, fd, interest),
        watched.contains_key(fd) ==> watched[fd] != nothing(),
    ensures
        released(watched.insert(fd, both(held(watched, fd), interest)), fd, interest) == watched,
{
    let after = watched.insert(fd, both(held(watched, fd), interest));
    assert(released(after, fd, interest) =~= watched);
}

} // verus!
