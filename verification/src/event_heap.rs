use vstd::prelude::*;
use crate::error::OpenBookError;
use crate::position::Position;

verus! {

/// What matching leaves for later settlement.
#[derive(Clone, Copy, Debug, PartialEq, Eq, Structural)]
pub enum Event {
    /// A trade of `quantity` base lots at `price` between a resting order and
    /// an incoming one. Both parties trade the same quantity. The fee on the
    /// quote traded is split by the two rates, in millionths: the maker's,
    /// negative for a rebate, and the taker's.
    Fill {
        maker: usize,
        maker_seq: u64,
        taker: usize,
        price: u64,
        quantity: u64,
        maker_fee: i64,
        taker_fee: u64,
    },
    /// A resting order that left the book without a trade.
    Out { owner: usize, seq: u64, quantity: u64 },
}

impl Event {
    /// The trader on whose behalf the event waits: the maker.
    pub open spec fn owner(self) -> usize {
        match self {
            Event::Fill { maker, .. } => maker,
            Event::Out { owner, .. } => owner,
        }
    }

    /// Sequence number of the resting order that the event is about.
    pub open spec fn seq(self) -> u64 {
        match self {
            Event::Fill { maker_seq, .. } => maker_seq,
            Event::Out { seq, .. } => seq,
        }
    }

    /// Base lots traded: the quantity of a fill, zero otherwise.
    pub open spec fn filled(self) -> nat {
        match self {
            Event::Fill { quantity, .. } => quantity as nat,
            Event::Out { .. } => 0,
        }
    }

    pub fn maker_owner(&self) -> (r: usize)
        ensures
            r == self.owner(),
    {
        match self {
            Event::Fill { maker, .. } => *maker,
            Event::Out { owner, .. } => *owner,
        }
    }
}

/// The ledger after the position at `who`, if there is one, took one penalty.
pub open spec fn penalize_at(ledger: Seq<Position>, who: usize) -> Seq<Position> {
    if who < ledger.len() {
        ledger.update(who as int, ledger[who as int].penalized())
    } else {
        ledger
    }
}

/// The queue after `e` was pushed: appended, and where the queue was full the
/// oldest event gave way.
pub open spec fn pushed_events(events: Seq<Event>, cap: usize, e: Event) -> Seq<Event> {
    if events.len() < cap {
        events.push(e)
    } else {
        events.skip(1).push(e)
    }
}

/// The ledger after a push: where the oldest event gave way, its maker took
/// one penalty.
pub open spec fn pushed_ledger(events: Seq<Event>, cap: usize, ledger: Seq<Position>) -> Seq<
    Position,
> {
    if events.len() < cap {
        ledger
    } else {
        penalize_at(ledger, events[0].owner())
    }
}

/// Bounded first-in first-out queue of events.
pub struct EventHeap {
    pub events: Vec<Event>,
    pub capacity: usize,
}

impl View for EventHeap {
    type V = Seq<Event>;

    open spec fn view(&self) -> Seq<Event> {
        self.events@
    }
}

impl EventHeap {
    /// The queue holds no more than its capacity.
    pub open spec fn wf(&self) -> bool {
        self.events@.len() <= self.capacity
    }

    pub fn new(capacity: usize) -> (q: EventHeap)
        ensures
            q.wf(),
            q@ == Seq::<Event>::empty(),
            q.capacity == capacity,
    {
        EventHeap { events: Vec::new(), capacity }
    }

    pub fn len(&self) -> (n: usize)
        ensures
            n == self@.len(),
    {
        self.events.len()
    }

    pub fn is_wf(&self) -> (r: bool)
        ensures
            r == self.wf(),
    {
        self.events.len() <= self.capacity
    }

    /// Appends `event`. A full queue first drops its oldest event, whose maker
    /// takes one penalty in `ledger`. Only a queue of capacity zero refuses.
    pub fn push(&mut self, event: Event, ledger: &mut Vec<Position>) -> (r: Result<
        (),
        OpenBookError,
    >)
        requires
            old(self).wf(),
        ensures
            final(self).capacity == old(self).capacity,
            final(self).wf(),
            old(self).capacity == 0 ==> r == Err::<(), OpenBookError>(OpenBookError::QueueFull)
                && final(self)@ == old(self)@ && final(ledger)@ == old(ledger)@,
            old(self).capacity > 0 ==> r.is_ok() && final(self)@ == pushed_events(
                old(self)@,
                old(self).capacity,
                event,
            ) && final(ledger)@ == pushed_ledger(old(self)@, old(self).capacity, old(ledger)@),
    {
        if self.capacity == 0 {
            return Err(OpenBookError::QueueFull);
        }
        if self.events.len() < self.capacity {
            self.events.push(event);
        } else {
            let evicted = self.events.remove(0);
            self.events.push(event);
            let who = evicted.maker_owner();
            if who < ledger.len() {
                let mut p = ledger[who];
                p.penalize();
                ledger.set(who, p);
            }
            assert(final(self)@ =~= old(self)@.skip(1).push(event));
        }
        Ok(())
    }

    /// Removes and returns the oldest event.
    pub fn pop_front(&mut self) -> (r: Option<Event>)
        requires
            old(self).wf(),
        ensures
            final(self).capacity == old(self).capacity,
            final(self).wf(),
            old(self)@.len() == 0 ==> r.is_none() && final(self)@ == old(self)@,
            old(self)@.len() > 0 ==> r == Some(old(self)@[0]) && final(self)@ == old(self)@.skip(1),
    {
        if self.events.len() == 0 {
            None
        } else {
            let e = self.events.remove(0);
            assert(self.events@ =~= old(self)@.skip(1));
            Some(e)
        }
    }
}

/// A push never lets the queue exceed its capacity.
pub proof fn lemma_push_keeps_capacity(events: Seq<Event>, cap: usize, e: Event)
    requires
        events.len() <= cap,
        cap > 0,
    ensures
        pushed_events(events, cap, e).len() <= cap,
        pushed_events(events, cap, e).last() == e,
{
}

/// Where a push drops an event, exactly one penalty counter grows, by exactly
/// one: that of the dropped event's maker. Every other position is untouched.
pub proof fn lemma_eviction_penalizes_one(
    events: Seq<Event>,
    cap: usize,
    ledger: Seq<Position>,
)
    requires
        events.len() == cap,
        cap > 0,
        events[0].owner() < ledger.len(),
        ledger[events[0].owner() as int].penalty_heap_count < u64::MAX,
    ensures
        pushed_ledger(events, cap, ledger).len() == ledger.len(),
        forall|i: int|
            0 <= i < ledger.len() && i != events[0].owner() ==> pushed_ledger(
                events,
                cap,
                ledger,
            )[i] == ledger[i],
        pushed_ledger(events, cap, ledger)[events[0].owner() as int].penalty_heap_count
            == ledger[events[0].owner() as int].penalty_heap_count + 1,
        pushed_ledger(events, cap, ledger)[events[0].owner() as int] == (Position {
            penalty_heap_count: (ledger[events[0].owner() as int].penalty_heap_count + 1) as u64,
            ..ledger[events[0].owner() as int]
        }),
{
}

/// A push into a queue with room changes no penalty counter.
pub proof fn lemma_push_with_room_penalizes_none(
    events: Seq<Event>,
    cap: usize,
    ledger: Seq<Position>,
)
    requires
        events.len() < cap,
    ensures
        pushed_ledger(events, cap, ledger) == ledger,
{
}

} // verus!
