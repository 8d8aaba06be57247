//! # aio
//!
//! The core of a non-blocking I/O runtime: a bounded ring buffer that carries
//! bytes from a readable resource to a writable one, the callbacks that an
//! event loop drives to fill and drain it, single-value and multi-value
//! completion cells, and one classification of every error below.

pub mod buf;
pub mod constants;
pub mod error;
pub mod event;
pub mod eventstream;
pub mod future;
pub mod impls;
pub mod iostream;
pub mod net;
pub mod register;
pub mod script;
pub mod sys;
pub mod util;

use vstd::prelude::*;

pub use error::{AioError, AioResult, Kind};
pub use iostream::{IoDuplexStream, IoReadStream, IoWriteStream};
pub use register::{Configured, Evented};
pub use sys::{IoDesc, IoHandle, IoRead, IoWrite};

verus! {

/// A state machine that an event source drives: each event that the source
/// has for it advances it by one step.
pub trait EventMachine<S> {
    type Event;

    fn advance(&mut self, source: &mut S, event: Self::Event);
}

/// A source of events that drives a state machine.
pub trait Source<E> {
    type Event;

    type Error;

    fn feed(&mut self, machine: E) -> Result<(), Self::Error>;
}

} // verus!
