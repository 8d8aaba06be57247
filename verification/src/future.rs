//! Single-value completion cells.
//!
//! A `Future` is resolved at most once, by a value or by an error, and the
//! consumer observes that resolution at most once. The cell has one owner at
//! a time: the producer's side of a transfer resolves it from inside a
//! callback, the consumer's side takes the outcome afterwards.

use vstd::prelude::*;
use crate::error::{AioError, AioResult};

verus! {

/// What a single-value cell holds.
pub enum FutureState<T> {
    /// Not resolved yet.
    Pending,
    /// Resolved by a value that the consumer has not taken.
    Completed(T),
    /// Resolved by an error that the consumer has not taken.
    Failed(AioError),
    /// Resolved, and the consumer has taken the outcome.
    Consumed,
}

/// A producer's terminal event.
pub enum Resolution<T> {
    Complete(T),
    Fail(AioError),
}

/// Something that happens to a cell: the producer offers a terminal event,
/// or the consumer asks for the outcome.
pub enum CellEvent<T> {
    Offer(Resolution<T>),
    Take,
}

/// A single-value, single-producer, single-consumer cell.
pub struct Future<T> {
    state: FutureState<T>,
}

/// A `Future` that fails with an `AioError`.
pub type AioFuture<T> = Future<T>;

impl<T> Resolution<T> {
    /// The outcome that the consumer sees for this event.
    pub open spec fn outcome(self) -> AioResult<T> {
        match self {
            Resolution::Complete(value) => Ok(value),
            Resolution::Fail(err) => Err(err),
        }
    }

    /// The state of a cell that this event resolved.
    pub open spec fn resolved(self) -> FutureState<T> {
        match self {
            Resolution::Complete(value) => FutureState::Completed(value),
            Resolution::Fail(err) => FutureState::Failed(err),
        }
    }
}

impl<T> FutureState<T> {
    /// The state after a producer offers a terminal event: a pending cell is
    /// resolved by it, any other cell ignores it.
    pub open spec fn offer(self, event: Resolution<T>) -> FutureState<T> {
        match self {
            FutureState::Pending => event.resolved(),
            _ => self,
        }
    }

    /// What the consumer gets when it asks now.
    pub open spec fn outcome(self) -> Option<AioResult<T>> {
        match self {
            FutureState::Completed(value) => Some(Ok(value)),
            FutureState::Failed(err) => Some(Err(err)),
            _ => None,
        }
    }

    /// The state after the consumer asked.
    pub open spec fn taken(self) -> FutureState<T> {
        match self {
            FutureState::Pending => FutureState::Pending,
            _ => FutureState::Consumed,
        }
    }

    /// The state after one event.
    pub open spec fn step(self, event: CellEvent<T>) -> FutureState<T> {
        match event {
            CellEvent::Offer(resolution) => self.offer(resolution),
            CellEvent::Take => self.taken(),
        }
    }

    /// The state after a sequence of events, first to last.
    pub open spec fn run(self, events: Seq<CellEvent<T>>) -> FutureState<T>
        decreases events.len(),
    {
        if events.len() == 0 {
            self
        } else {
            self.run(events.drop_last()).step(events.last())
        }
    }

    /// The terminal events that the consumer observes over a sequence of
    /// events, in the order in which it observes them.
    pub open spec fn observed(self, events: Seq<CellEvent<T>>) -> Seq<AioResult<T>>
        decreases events.len(),
    {
        if events.len() == 0 {
            Seq::empty()
        } else {
            let before = self.observed(events.drop_last());
            let state = self.run(events.drop_last());
            match (events.last(), state.outcome()) {
                (CellEvent::Take, Some(outcome)) => before.push(outcome),
                _ => before,
            }
        }
    }
}

impl<T> View for Future<T> {
    type V = FutureState<T>;

    closed spec fn view(&self) -> FutureState<T> {
        self.state
    }
}

impl<T> Future<T> {
    /// A cell that is not resolved.
    pub fn new() -> (cell: Future<T>)
        ensures
            cell@ == FutureState::<T>::Pending,
    {
        Future { state: FutureState::Pending }
    }

    /// A cell that is resolved by `outcome` and not yet taken.
    pub fn resolved(outcome: AioResult<T>) -> (cell: Future<T>)
        ensures
            cell@ == match outcome {
                Ok(value) => FutureState::Completed(value),
                Err(err) => FutureState::Failed(err),
            },
    {
        match outcome {
            Ok(value) => Future { state: FutureState::Completed(value) },
            Err(err) => Future { state: FutureState::Failed(err) },
        }
    }

    /// Whether the cell is not resolved yet.
    pub fn is_pending(&self) -> (b: bool)
        ensures
            b == (self@ is Pending),
    {
        match &self.state {
            FutureState::Pending => true,
            _ => false,
        }
    }

    /// Whether the cell was resolved, taken or not.
    pub fn is_resolved(&self) -> (b: bool)
        ensures
            b == !(self@ is Pending),
    {
        !self.is_pending()
    }

    /// Resolves the cell by a value. Resolving a cell twice is a
    /// programming error: the cell must be pending.
    pub fn complete(&mut self, value: T)
        requires
            old(self)@ is Pending,
        ensures
            final(self)@ == FutureState::Completed(value),
    {
        self.state = FutureState::Completed(value);
    }

    /// Resolves the cell by an error. Resolving a cell twice is a
    /// programming error: the cell must be pending.
    pub fn fail(&mut self, err: AioError)
        requires
            old(self)@ is Pending,
        ensures
            final(self)@ == FutureState::<T>::Failed(err),
    {
        self.state = FutureState::Failed(err);
    }

    /// Offers a terminal event to the cell: a pending cell is resolved by
    /// it, a resolved cell stays as it is. Returns whether the event
    /// resolved the cell. This is the guarded form, for a side of a
    /// transfer that may finish second.
    pub fn offer(&mut self, event: Resolution<T>) -> (accepted: bool)
        ensures
            final(self)@ == old(self)@.offer(event),
            accepted == (old(self)@ is Pending),
    {
        if self.is_pending() {
            match event {
                Resolution::Complete(value) => {
                    self.state = FutureState::Completed(value);
                },
                Resolution::Fail(err) => {
                    self.state = FutureState::Failed(err);
                },
            }
            true
        } else {
            false
        }
    }

    /// Whether the cell holds an error that the consumer has not taken.
    pub fn has_failed(&self) -> (b: bool)
        ensures
            b == (self@ is Failed),
    {
        match &self.state {
            FutureState::Failed(_) => true,
            _ => false,
        }
    }

    /// The consumer's side: takes the outcome if there is one to take. A
    /// pending cell gives `None` and stays pending; a resolved cell gives
    /// its outcome once, and `None` from then on.
    pub fn take(&mut self) -> (outcome: Option<AioResult<T>>)
        ensures
            outcome == old(self)@.outcome(),
            final(self)@ == old(self)@.taken(),
    {
        let mut state = FutureState::Consumed;
        core::mem::swap(&mut self.state, &mut state);
        match state {
            FutureState::Pending => {
                self.state = FutureState::Pending;
                None
            },
            FutureState::Completed(value) => Some(Ok(value)),
            FutureState::Failed(err) => Some(Err(err)),
            FutureState::Consumed => None,
        }
    }
}

/// Once a cell is resolved, no terminal event that a producer offers
/// changes it.
pub proof fn lemma_resolved_ignores_offers<T>(state: FutureState<T>, event: Resolution<T>)
    requires
        !(state is Pending),
    ensures
        state.offer(event) == state,
{
}

/// Whatever the producer offers and however often the consumer asks, the
/// consumer observes at most one terminal event, and a cell that was not
/// pending at the start or has been asked since it was resolved gives no
/// further one.
pub proof fn lemma_at_most_one_observed<T>(start: FutureState<T>, events: Seq<CellEvent<T>>)
    ensures
        start.observed(events).len() <= 1,
        start.observed(events).len() == 1 ==> start.run(events) is Consumed,
        start is Consumed ==> start.observed(events).len() == 0,
    decreases events.len(),
{
    if events.len() > 0 {
        lemma_at_most_one_observed(start, events.drop_last());
        lemma_consumed_stays(start, events.drop_last());
    }
}

/// A cell whose outcome was taken stays that way under every sequence of
/// events.
pub proof fn lemma_consumed_stays<T>(start: FutureState<T>, events: Seq<CellEvent<T>>)
    ensures
        start is Consumed ==> start.run(events) is Consumed,
        start.observed(events).len() >= 1 ==> start.run(events) is Consumed,
    decreases events.len(),
{
    if events.len() > 0 {
        lemma_consumed_stays(start, events.drop_last());
    }
}

/// Of the terminal events offered to a pending cell, the first is the one
/// that the consumer observes.
pub proof fn lemma_first_offer_wins<T>(
    first: Resolution<T>,
    later: Seq<Resolution<T>>,
)
    ensures
        ({
            let offers = Seq::new(later.len() + 1, |i: int| if i == 0 {
                CellEvent::Offer(first)
            } else {
                CellEvent::Offer(later[i - 1])
            });
            FutureState::<T>::Pending.run(offers).outcome() == Some(first.outcome())
        }),
    decreases later.len(),
{
    let offers = Seq::new(later.len() + 1, |i: int| if i == 0 {
        CellEvent::Offer(first)
    } else {
        CellEvent::Offer(later[i - 1])
    });
    if later.len() == 0 {
        assert(offers.drop_last() =~= Seq::<CellEvent<T>>::empty());
        assert(FutureState::<T>::Pending.run(offers.drop_last()) == FutureState::<T>::Pending);
    } else {
        lemma_first_offer_wins(first, later.drop_last());
        let shorter = Seq::new(later.drop_last().len() + 1, |i: int| if i == 0 {
            CellEvent::Offer(first)
        } else {
            CellEvent::Offer(later.drop_last()[i - 1])
        });
        assert(offers.drop_last() =~= shorter);
    }
}

} // verus!
