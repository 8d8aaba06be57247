//! Streams of discrete events.
//!
//! An `EventStream` carries zero or more values from one producer to one
//! consumer, in the order in which they were sent, and then at most one
//! terminal event: a failure or a close. The consumer observes the values
//! first and the terminal event last, once.

use vstd::prelude::*;
use crate::error::AioError;

verus! {

/// Whether a stream still takes values.
pub enum StreamEnd {
    /// The producer may still send.
    Open,
    /// The producer closed the stream; the consumer has not seen that yet.
    Closed,
    /// The producer failed the stream; the consumer has not seen that yet.
    Failed(AioError),
    /// The consumer has seen the terminal event.
    Done,
}

/// What a producer does to a stream.
pub enum StreamOp<T> {
    Send(T),
    Fail(AioError),
    Close,
}

/// What a consumer observes of a stream.
#[derive(Debug, PartialEq, Eq)]
pub enum Event<T> {
    Value(T),
    Failed(AioError),
    Closed,
}

/// Something that happens to a stream: the producer offers an operation, or
/// the consumer asks for the next event.
pub enum StreamEvent<T> {
    Offer(StreamOp<T>),
    Next,
}

/// A stream as the contracts see it: the values sent and not yet observed,
/// oldest first, and how the stream stands.
pub struct StreamView<T> {
    pub queued: Seq<T>,
    pub end: StreamEnd,
}

/// A multi-value, single-producer, single-consumer stream.
pub struct EventStream<T> {
    queue: Vec<T>,
    end: StreamEnd,
}

/// An `EventStream` that fails with an `AioError`.
pub type AioEventStream<T> = EventStream<T>;

impl<T> Event<T> {
    /// Whether the event ends the stream.
    pub open spec fn is_terminal(self) -> bool {
        !(self is Value)
    }
}

impl<T> StreamView<T> {
    /// The stream after a producer offers an operation: an open stream
    /// takes it, any other stream ignores it.
    pub open spec fn offer(self, op: StreamOp<T>) -> StreamView<T> {
        if self.end is Open {
            match op {
                StreamOp::Send(value) => StreamView { queued: self.queued.push(value), ..self },
                StreamOp::Fail(err) => StreamView { end: StreamEnd::Failed(err), ..self },
                StreamOp::Close => StreamView { end: StreamEnd::Closed, ..self },
            }
        } else {
            self
        }
    }

    /// What the consumer observes when it asks now: the oldest value that it
    /// has not observed, or the terminal event when there is none, or
    /// nothing.
    pub open spec fn front(self) -> Option<Event<T>> {
        if self.queued.len() > 0 {
            Some(Event::Value(self.queued[0]))
        } else {
            match self.end {
                StreamEnd::Closed => Some(Event::Closed),
                StreamEnd::Failed(err) => Some(Event::Failed(err)),
                _ => None,
            }
        }
    }

    /// The stream after the consumer asked.
    pub open spec fn advance(self) -> StreamView<T> {
        if self.queued.len() > 0 {
            StreamView { queued: self.queued.drop_first(), ..self }
        } else {
            match self.end {
                StreamEnd::Open => self,
                _ => StreamView { end: StreamEnd::Done, ..self },
            }
        }
    }

    /// The stream after one event.
    pub open spec fn step(self, event: StreamEvent<T>) -> StreamView<T> {
        match event {
            StreamEvent::Offer(op) => self.offer(op),
            StreamEvent::Next => self.advance(),
        }
    }

    /// The stream after a sequence of events, first to last.
    pub open spec fn run(self, events: Seq<StreamEvent<T>>) -> StreamView<T>
        decreases events.len(),
    {
        if events.len() == 0 {
            self
        } else {
            self.run(events.drop_last()).step(events.last())
        }
    }

    /// What the consumer observes over a sequence of events, in the order in
    /// which it observes it.
    pub open spec fn observed(self, events: Seq<StreamEvent<T>>) -> Seq<Event<T>>
        decreases events.len(),
    {
        if events.len() == 0 {
            Seq::empty()
        } else {
            let before = self.observed(events.drop_last());
            match (events.last(), self.run(events.drop_last()).front()) {
                (StreamEvent::Next, Some(event)) => before.push(event),
                _ => before,
            }
        }
    }

    /// The values that the stream took from the producer over a sequence of
    /// events, in the order in which it took them.
    pub open spec fn accepted(self, events: Seq<StreamEvent<T>>) -> Seq<T>
        decreases events.len(),
    {
        if events.len() == 0 {
            Seq::empty()
        } else {
            let before = self.accepted(events.drop_last());
            match (events.last(), self.run(events.drop_last()).end) {
                (StreamEvent::Offer(StreamOp::Send(value)), StreamEnd::Open) => before.push(value),
                _ => before,
            }
        }
    }
}

/// The values among what a consumer observed, in order.
pub open spec fn values_of<T>(events: Seq<Event<T>>) -> Seq<T>
    decreases events.len(),
{
    if events.len() == 0 {
        Seq::empty()
    } else {
        match events.last() {
            Event::Value(value) => values_of(events.drop_last()).push(value),
            _ => values_of(events.drop_last()),
        }
    }
}

impl<T> View for EventStream<T> {
    type V = StreamView<T>;

    closed spec fn view(&self) -> StreamView<T> {
        StreamView { queued: self.queue@, end: self.end }
    }
}

impl<T> EventStream<T> {
    /// An open stream with nothing sent.
    pub fn new() -> (stream: EventStream<T>)
        ensures
            stream@ == (StreamView { queued: Seq::<T>::empty(), end: StreamEnd::Open }),
    {
        EventStream { queue: Vec::new(), end: StreamEnd::Open }
    }

    /// Whether the producer may still send.
    pub fn is_open(&self) -> (b: bool)
        ensures
            b == (self@.end is Open),
    {
        match &self.end {
            StreamEnd::Open => true,
            _ => false,
        }
    }

    /// Sends a value. Sending into a stream that was failed or closed is a
    /// programming error: the stream must be open.
    pub fn send(&mut self, value: T)
        requires
            old(self)@.end is Open,
        ensures
            final(self)@ == old(self)@.offer(StreamOp::Send(value)),
            final(self)@.queued == old(self)@.queued.push(value),
    {
        self.queue.push(value);
    }

    /// Fails the stream. Ending a stream twice is a programming error: the
    /// stream must be open.
    pub fn fail(&mut self, err: AioError)
        requires
            old(self)@.end is Open,
        ensures
            final(self)@ == old(self)@.offer(StreamOp::Fail(err)),
    {
        self.end = StreamEnd::Failed(err);
    }

    /// Closes the stream. Ending a stream twice is a programming error: the
    /// stream must be open.
    pub fn close(&mut self)
        requires
            old(self)@.end is Open,
        ensures
            final(self)@ == old(self)@.offer(StreamOp::Close),
    {
        self.end = StreamEnd::Closed;
    }

    /// Offers an operation to the stream: an open stream takes it, a stream
    /// that was failed or closed stays as it is. Returns whether the stream
    /// took it. This is the guarded form of `send`, `fail` and `close`.
    pub fn offer(&mut self, op: StreamOp<T>) -> (accepted: bool)
        ensures
            final(self)@ == old(self)@.offer(op),
            accepted == (old(self)@.end is Open),
    {
        if self.is_open() {
            match op {
                StreamOp::Send(value) => {
                    self.queue.push(value);
                },
                StreamOp::Fail(err) => {
                    self.end = StreamEnd::Failed(err);
                },
                StreamOp::Close => {
                    self.end = StreamEnd::Closed;
                },
            }
            true
        } else {
            false
        }
    }

    /// The consumer's side: the next event, if there is one to observe now.
    /// Values come first, oldest first; the terminal event comes when no
    /// value is left, once; after it, and while an open stream has nothing
    /// queued, the answer is `None`.
    pub fn next(&mut self) -> (event: Option<Event<T>>)
        ensures
            event == old(self)@.front(),
            final(self)@ == old(self)@.advance(),
    {
        if self.queue.len() > 0 {
            let value = self.queue.remove(0);
            assert(self.queue@ =~= old(self)@.queued.drop_first());
            return Some(Event::Value(value));
        }
        let event = match &self.end {
            StreamEnd::Open => {
                return None;
            },
            StreamEnd::Closed => Some(Event::Closed),
            StreamEnd::Failed(err) => Some(Event::Failed(*err)),
            StreamEnd::Done => None,
        };
        self.end = StreamEnd::Done;
        event
    }
}

/// Once a stream was failed or closed, nothing that a producer offers
/// changes it: no value is taken after the terminal event, and no second
/// terminal event replaces the first.
pub proof fn lemma_ended_ignores_offers<T>(stream: StreamView<T>, op: StreamOp<T>)
    requires
        !(stream.end is Open),
    ensures
        stream.offer(op) == stream,
{
}

/// Whatever the producer offers and whenever the consumer asks: the consumer
/// observes values only, until it observes one terminal event, and nothing
/// after that.
pub proof fn lemma_one_terminal_event_last<T>(start: StreamView<T>, events: Seq<StreamEvent<T>>)
    requires
        !(start.end is Done),
    ensures
        ({
            let seen = start.observed(events);
            &&& forall|i: int| 0 <= i < seen.len() - 1 ==> #[trigger] seen[i] is Value
            &&& (seen.len() > 0 && seen.last().is_terminal()) <==> start.run(events).end is Done
            &&& start.run(events).end is Done ==> start.run(events).queued.len() == 0
        }),
    decreases events.len(),
{
    if events.len() > 0 {
        lemma_one_terminal_event_last(start, events.drop_last());
    }
}

/// The consumer observes the values in the order in which the stream took
/// them: what was queued at the start followed by what the stream took is
/// what the consumer observed followed by what is still queued.
pub proof fn lemma_values_in_order<T>(start: StreamView<T>, events: Seq<StreamEvent<T>>)
    ensures
        start.queued + start.accepted(events) == values_of(start.observed(events)) + start.run(
            events,
        ).queued,
    decreases events.len(),
{
    if events.len() == 0 {
        assert(start.queued + Seq::<T>::empty() =~= Seq::<T>::empty() + start.queued);
    } else {
        let init = events.drop_last();
        lemma_values_in_order(start, init);
        let mid = start.run(init);
        let seen = start.observed(init);
        match events.last() {
            StreamEvent::Offer(op) => {
                assert(start.observed(events) == seen);
                match op {
                    StreamOp::Send(value) => {
                        if mid.end is Open {
                            assert(start.queued + start.accepted(init).push(value) =~= (
                            start.queued + start.accepted(init)).push(value));
                            assert((values_of(seen) + mid.queued).push(value) =~= values_of(seen)
                                + mid.queued.push(value));
                        }
                    },
                    _ => {},
                }
            },
            StreamEvent::Next => {
                assert(start.accepted(events) == start.accepted(init));
                if mid.queued.len() > 0 {
                    let now = seen.push(Event::Value(mid.queued[0]));
                    assert(start.observed(events) == now);
                    assert(now.drop_last() =~= seen);
                    assert(values_of(now) == values_of(seen).push(mid.queued[0]));
                    assert(values_of(seen).push(mid.queued[0]) + mid.queued.drop_first()
                        =~= values_of(seen) + mid.queued);
                } else {
                    match mid.end {
                        StreamEnd::Closed => {
                            let now = seen.push(Event::<T>::Closed);
                            assert(now.drop_last() =~= seen);
                        },
                        StreamEnd::Failed(err) => {
                            let now = seen.push(Event::<T>::Failed(err));
                            assert(now.drop_last() =~= seen);
                        },
                        _ => {},
                    }
                }
            },
        }
    }
}

} // verus!
