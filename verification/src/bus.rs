//! The event bus: a broadcast channel from pollers to consumers. Publishing
//! appends to a logical log and never blocks or fails, whatever the number
//! of subscribers; each subscriber owns a cursor into that log and receives
//! every event published after it subscribed, in publish order. A subscriber
//! that falls more than the bus capacity behind is moved forward and handed
//! an explicit gap signal instead of the dropped events, so slow consumers
//! lose events for themselves only and never stall producers.
//!
//! Memory is bounded: only the last `capacity` events are kept, since no
//! receive can ever deliver an older one — a subscriber further back is
//! lagging and gets the gap signal. The abstract log of everything published
//! is carried as ghost state, so the contracts speak of the full history.

use crate::event::{clone_event, Event, EventView};
use vstd::prelude::*;

verus! {

/// What one receive attempt yields.
#[derive(Debug)]
pub enum RecvOutcome {
    /// The next event after the subscriber's position.
    Event(Event),
    /// The subscriber lagged: this many undelivered events were dropped for
    /// it, and its position moved to the oldest event still buffered.
    Lagged(usize),
    /// Nothing has been published beyond the subscriber's position.
    Empty,
}

/// The mathematical shape of a [`RecvOutcome`].
pub enum RecvOutcomeView {
    Event(EventView),
    Lagged(nat),
    Empty,
}

impl View for RecvOutcome {
    type V = RecvOutcomeView;

    open spec fn view(&self) -> RecvOutcomeView {
        match self {
            RecvOutcome::Event(e) => RecvOutcomeView::Event(e@),
            RecvOutcome::Lagged(n) => RecvOutcomeView::Lagged(*n as nat),
            RecvOutcome::Empty => RecvOutcomeView::Empty,
        }
    }
}

/// What a receive attempt yields and where it leaves the cursor, given the
/// published log, the bus capacity and the subscriber's cursor.
pub open spec fn spec_recv(log: Seq<EventView>, cap: nat, c: nat) -> (RecvOutcomeView, nat) {
    if c >= log.len() {
        (RecvOutcomeView::Empty, c)
    } else if log.len() - c > cap {
        (RecvOutcomeView::Lagged((log.len() - cap - c) as nat), (log.len() - cap) as nat)
    } else {
        (RecvOutcomeView::Event(log[c as int]), (c + 1) as nat)
    }
}

/// The broadcast bus: the retained window of recent events, its offset into
/// the full published history (kept as ghost state), and the per-subscriber
/// buffer capacity.
pub struct Bus {
    buffer: Vec<Event>,
    base: usize,
    capacity: usize,
    history: Ghost<Seq<EventView>>,
}

/// A subscriber's position in a bus's log.
pub struct Subscriber {
    cursor: usize,
}

impl Subscriber {
    /// The position: the log index of the next event to deliver.
    pub closed spec fn spec_cursor(self) -> nat {
        self.cursor as nat
    }
}

impl Bus {
    /// Everything published so far, in publish order.
    pub closed spec fn events(self) -> Seq<EventView> {
        self.history@
    }

    /// The per-subscriber buffer capacity.
    pub closed spec fn spec_capacity(self) -> nat {
        self.capacity as nat
    }

    #[verifier::type_invariant]
    closed spec fn wf(self) -> bool {
        &&& 1 <= self.capacity
        &&& self.buffer@.len() <= self.capacity
        &&& self.base + self.buffer@.len() == self.history@.len()
        &&& self.history@.len() <= usize::MAX
        &&& (0 < self.base ==> self.buffer@.len() == self.capacity)
        &&& forall|i: int|
            0 <= i < self.buffer@.len() ==> self.buffer@[i]@ == self.history@[self.base + i]
    }

    /// A bus with no events published and the given buffer capacity.
    pub fn new(capacity: usize) -> (r: Bus)
        requires
            1 <= capacity,
        ensures
            r.events() == Seq::<EventView>::empty(),
            r.spec_capacity() == capacity,
    {
        Bus { buffer: Vec::new(), base: 0, capacity, history: Ghost(Seq::empty()) }
    }

    /// How many events have been published over the bus's lifetime. The
    /// position counters are machine words, so one more publish asks for
    /// this count to be below the machine limit.
    pub fn published_count(&self) -> (n: usize)
        ensures
            n == self.events().len(),
    {
        proof {
            use_type_invariant(self);
        }
        self.base + self.buffer.len()
    }

    /// Publishes an event: appends it to the log. It cannot fail and cannot
    /// block, even with no subscriber at all; the event no longer retained
    /// for lagging subscribers, if any, is dropped from the window.
    pub fn publish(&mut self, e: Event)
        requires
            old(self).events().len() < usize::MAX,
        ensures
            final(self).events() == old(self).events().push(e@),
            final(self).spec_capacity() == old(self).spec_capacity(),
    {
        proof {
            use_type_invariant(&*self);
        }
        let ghost h0 = self.history@;
        let ghost base0 = self.base as int;
        let ghost buf0 = self.buffer@;
        let mut tmp = Bus { buffer: Vec::new(), base: 0, capacity: 1, history: Ghost(Seq::empty()) };
        core::mem::swap(&mut tmp, self);
        let Bus { mut buffer, mut base, capacity, history } = tmp;
        let trimmed = buffer.len() == capacity;
        if trimmed {
            buffer.remove(0);
            base = base + 1;
        }
        buffer.push(e);
        let ghost h1 = h0.push(e@);
        proof {
            assert forall|i: int| 0 <= i < buffer@.len() implies buffer@[i]@ == h1[base + i] by {
                if trimmed {
                    if i < buffer@.len() - 1 {
                        assert(buffer@[i] == buf0[i + 1]);
                    }
                } else {
                    if i < buffer@.len() - 1 {
                        assert(buffer@[i] == buf0[i]);
                    }
                }
            }
        }
        *self = Bus { buffer, base, capacity, history: Ghost(h1) };
        proof {
            assert(self.events() =~= old(self).events().push(e@));
        }
    }

    /// A new subscriber, positioned after everything already published: it
    /// will observe exactly the events published from now on.
    pub fn subscribe(&self) -> (s: Subscriber)
        ensures
            s.spec_cursor() == self.events().len(),
    {
        proof {
            use_type_invariant(self);
        }
        Subscriber { cursor: self.base + self.buffer.len() }
    }

    /// One receive attempt for `sub`: the next event in publish order, or a
    /// gap signal if `sub` lagged more than the capacity behind, or nothing.
    pub fn recv(&self, sub: &mut Subscriber) -> (r: RecvOutcome)
        ensures
            r@ == spec_recv(self.events(), self.spec_capacity(), old(sub).spec_cursor()).0,
            final(sub).spec_cursor() == spec_recv(
                self.events(),
                self.spec_capacity(),
                old(sub).spec_cursor(),
            ).1,
    {
        proof {
            use_type_invariant(self);
        }
        let len = self.base + self.buffer.len();
        if sub.cursor >= len {
            RecvOutcome::Empty
        } else if len - sub.cursor > self.capacity {
            let skipped = len - self.capacity - sub.cursor;
            sub.cursor = len - self.capacity;
            RecvOutcome::Lagged(skipped)
        } else {
            proof {
                assert(sub.cursor >= self.base);
            }
            let e = clone_event(&self.buffer[sub.cursor - self.base]);
            sub.cursor = sub.cursor + 1;
            RecvOutcome::Event(e)
        }
    }
}

/// Law (fan-out): an event published while two subscribers are caught up is
/// observed, in full, by each of them independently.
pub proof fn lemma_fanout(log: Seq<EventView>, cap: nat, e: EventView, c1: nat, c2: nat)
    requires
        1 <= cap,
        c1 == log.len(),
        c2 == log.len(),
    ensures
        spec_recv(log.push(e), cap, c1).0 == RecvOutcomeView::Event(e),
        spec_recv(log.push(e), cap, c2).0 == RecvOutcomeView::Event(e),
{
    assert(log.push(e)[c1 as int] == e);
    assert(log.push(e)[c2 as int] == e);
}

/// Law (fan-out, whole cycle): a subscriber within the capacity window
/// receives every event from its position to the end of the log — exactly
/// once each, in publish order, its cursor advancing one event per receive.
/// The statement depends on one cursor alone, so any number of subscribers
/// observe the same events independently of each other.
pub proof fn lemma_in_order_delivery(log: Seq<EventView>, cap: nat, c: nat)
    requires
        c <= log.len(),
        log.len() - c <= cap,
    ensures
        forall|j: int|
            c <= j < log.len() ==> #[trigger] spec_recv(log, cap, j as nat) == (
            RecvOutcomeView::Event(log[j]),
            (j + 1) as nat,
            ),
{
}

/// Law (lagging subscriber): a subscriber more than the capacity behind is
/// handed a gap signal counting the dropped events, is moved to the oldest
/// event still buffered, and receives that event on its next attempt — the
/// publisher is never blocked and the subscriber keeps going.
pub proof fn lemma_lagging_subscriber(log: Seq<EventView>, cap: nat, c: nat)
    requires
        1 <= cap,
        c < log.len(),
        log.len() - c > cap,
    ensures
        spec_recv(log, cap, c).0 == RecvOutcomeView::Lagged((log.len() - cap - c) as nat),
        spec_recv(log, cap, c).1 == log.len() - cap,
        spec_recv(log, cap, (log.len() - cap) as nat).0 == RecvOutcomeView::Event(
            log[(log.len() - cap) as int],
        ),
{
}

} // verus!
