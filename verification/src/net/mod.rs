//! Accepting connections.
//!
//! The sockets themselves belong to the operating system. What is decided
//! here is what becomes of the result of one attempt to accept: a
//! connection is sent down the stream of connections, "would block" waits
//! for the next report, and any other error ends the stream.

use vstd::prelude::*;
use crate::error::{AioResult, Kind};
use crate::eventstream::{EventStream, StreamOp, StreamView};

verus! {

/// The stream of connections after one attempt to accept that gave `res`,
/// and the answer of the accept callback, `None` for accepting again.
///
/// A connection is sent down the stream, and the callback accepts again; if
/// the stream has ended, the connection is dropped and the callback goes.
/// "Would block" changes nothing, and the callback stays registered. Any
/// other error fails the stream, and the callback goes.
pub open spec fn spec_on_accept<S>(stream: StreamView<S>, res: AioResult<S>) -> (
    StreamView<S>,
    Option<bool>,
) {
    match res {
        Ok(sock) => (
            stream.offer(StreamOp::Send(sock)),
            if stream.end is Open {
                None
            } else {
                Some(false)
            },
        ),
        Err(err) => if err.kind == Kind::WouldBlock {
            (stream, Some(true))
        } else {
            (stream.offer(StreamOp::Fail(err)), Some(false))
        },
    }
}

/// The accept callback, after one attempt to accept that gave `res`; see
/// `spec_on_accept`.
pub fn on_accept<S>(res: AioResult<S>, stream: &mut EventStream<S>) -> (answer: Option<bool>)
    ensures
        (final(stream)@, answer) == spec_on_accept(old(stream)@, res),
{
    match res {
        Ok(sock) => {
            if stream.offer(StreamOp::Send(sock)) {
                None
            } else {
                Some(false)
            }
        },
        Err(err) => {
            match err.kind {
                Kind::WouldBlock => Some(true),
                _ => {
                    stream.offer(StreamOp::Fail(err));
                    Some(false)
                },
            }
        },
    }
}

} // verus!
