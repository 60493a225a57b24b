//! The event queue: events wait here, in the order of their arrival, until the
//! application takes them.

use crate::event::Event;
use vstd::prelude::*;

verus! {

/// A first-in-first-out queue of events. It has no capacity limit: it grows
/// for as long as events are pushed and none is taken.
pub struct EventQueue {
    events: Vec<Event>,
}

impl View for EventQueue {
    type V = Seq<Event>;

    closed spec fn view(&self) -> Seq<Event> {
        self.events@
    }
}

impl EventQueue {
    /// An empty queue.
    pub fn new() -> (queue: EventQueue)
        ensures
            queue@ == Seq::<Event>::empty(),
    {
        EventQueue { events: Vec::new() }
    }

    /// Append `event` behind all events that wait.
    pub fn push(&mut self, event: Event)
        ensures
            final(self)@ == old(self)@.push(event),
    {
        self.events.push(event);
    }

    /// Whether an event waits.
    pub fn has_event(&self) -> (waiting: bool)
        ensures
            waiting == (self@.len() > 0),
    {
        self.events.len() > 0
    }

    /// The number of events that wait.
    pub fn len(&self) -> (n: usize)
        ensures
            n == self@.len(),
    {
        self.events.len()
    }

    /// Take the event that has waited longest.
    pub fn pop(&mut self) -> (event: Event)
        requires
            old(self)@.len() > 0,
        ensures
            event == old(self)@.first(),
            final(self)@ == old(self)@.drop_first(),
    {
        let event = self.events.remove(0);
        assert(old(self)@.remove(0) =~= old(self)@.drop_first());
        event
    }
}

/// The queue after the events of `arrivals` were pushed onto `queue`, first
/// to last.
pub open spec fn after_pushes(queue: Seq<Event>, arrivals: Seq<Event>) -> Seq<Event>
    decreases arrivals.len(),
{
    if arrivals.len() == 0 {
        queue
    } else {
        after_pushes(queue.push(arrivals.first()), arrivals.drop_first())
    }
}

/// The queue after `n` events were taken from `queue`.
pub open spec fn after_pops(queue: Seq<Event>, n: nat) -> Seq<Event>
    decreases n,
{
    if n == 0 {
        queue
    } else {
        after_pops(queue.drop_first(), (n - 1) as nat)
    }
}

/// Pushing appends: the arrivals wait behind what waited before, in their
/// own order.
pub proof fn lemma_pushes_append(queue: Seq<Event>, arrivals: Seq<Event>)
    ensures
        after_pushes(queue, arrivals) == queue + arrivals,
    decreases arrivals.len(),
{
    if arrivals.len() == 0 {
        assert(queue + arrivals =~= queue);
    } else {
        lemma_pushes_append(queue.push(arrivals.first()), arrivals.drop_first());
        assert(queue.push(arrivals.first()) + arrivals.drop_first() =~= queue + arrivals);
    }
}

/// Taking `n` events removes the `n` that waited longest.
pub proof fn lemma_pops_skip(queue: Seq<Event>, n: nat)
    requires
        n <= queue.len(),
    ensures
        after_pops(queue, n) == queue.skip(n as int),
    decreases n,
{
    if n == 0 {
        assert(queue.skip(0) =~= queue);
    } else {
        lemma_pops_skip(queue.drop_first(), (n - 1) as nat);
        assert(queue.drop_first().skip(n - 1) =~= queue.skip(n as int));
    }
}

/// First in, first out: after the events of `arrivals` were pushed onto an
/// empty queue, the pop that follows `k` others returns the event pushed
/// after `k` others, and after as many pops as pushes the queue is empty.
pub proof fn lemma_fifo(arrivals: Seq<Event>, k: nat)
    requires
        k < arrivals.len(),
    ensures
        after_pops(after_pushes(Seq::empty(), arrivals), k).first() == arrivals[k as int],
        after_pops(after_pushes(Seq::empty(), arrivals), arrivals.len()) == Seq::<Event>::empty(),
{
    let filled = after_pushes(Seq::empty(), arrivals);
    lemma_pushes_append(Seq::empty(), arrivals);
    assert(Seq::<Event>::empty() + arrivals =~= arrivals);
    lemma_pops_skip(filled, k);
    lemma_pops_skip(filled, arrivals.len());
    assert(arrivals.skip(arrivals.len() as int) =~= Seq::<Event>::empty());
}

/// Three events pushed onto an empty queue come out in the order in which
/// they went in.
pub proof fn lemma_fifo_three(e1: Event, e2: Event, e3: Event)
    ensures
        ({
            let q0 = Seq::<Event>::empty().push(e1).push(e2).push(e3);
            let q1 = q0.drop_first();
            let q2 = q1.drop_first();
            &&& q0.first() == e1
            &&& q1.first() == e2
            &&& q2.first() == e3
            &&& q2.drop_first() == Seq::<Event>::empty()
        }),
{
    let q0 = Seq::<Event>::empty().push(e1).push(e2).push(e3);
    assert(q0.drop_first().drop_first().drop_first() =~= Seq::<Event>::empty());
}

} // verus!
