//! The sizes that the engine works with when it is given none.

use vstd::prelude::*;

verus! {

/// The capacity of the ring buffer of a pipe that was given none.
pub const BUFFER_SIZE: usize = 65536;

} // verus!
