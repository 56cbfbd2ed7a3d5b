//! Delivery of events: a bounded queue of posted events and the listeners
//! of each event type, to which pending events are handed in order.

use vstd::prelude::*;
use std::collections::VecDeque;
use crate::event::{Event, EventListener, EventType, event_type_of};

verus! {

/// The number of events the queue holds unless another is asked for.
pub const EVENT_QUEUE_CAPACITY: usize = 1024;

/// Posted events waiting for delivery, and the listeners by event type.
/// A full queue turns new events away and counts them.
pub struct EventManager {
    listeners: Vec<(EventType, Box<dyn EventListener>)>,
    queue: VecDeque<Event>,
    capacity: usize,
    dropped: u64,
    delivered: Ghost<Seq<(int, Event)>>,
}

/// The deliveries of `ev` to the listeners, of types `types`, among the
/// first `n`: one to each listener of its type, in listener order.
pub open spec fn deliveries_to(ev: Event, types: Seq<EventType>, n: nat) -> Seq<(int, Event)>
    decreases n,
{
    if n == 0 {
        Seq::empty()
    } else {
        deliveries_to(ev, types, (n - 1) as nat) + (if types[n - 1] == event_type_of(&ev) {
            seq![((n - 1) as int, ev)]
        } else {
            Seq::empty()
        })
    }
}

/// The deliveries of the events `pending`, oldest first, each to every
/// listener of its type, in listener order (pairs of listener index and
/// event).
pub open spec fn delivery_plan(pending: Seq<Event>, types: Seq<EventType>) -> Seq<(int, Event)>
    decreases pending.len(),
{
    if pending.len() == 0 {
        Seq::empty()
    } else {
        deliveries_to(pending[0], types, types.len()) + delivery_plan(pending.drop_first(), types)
    }
}

/// The event types of listener entries, in the order they listen.
pub open spec fn entry_types(v: Seq<(EventType, Box<dyn EventListener>)>) -> Seq<EventType> {
    v.map_values(|e: (EventType, Box<dyn EventListener>)| e.0)
}

impl EventManager {
    /// The events waiting for delivery, oldest first.
    pub closed spec fn pending(&self) -> Seq<Event> {
        self.queue@
    }

    /// The deliveries made so far: which listener (by index) was handed
    /// which event, in the order they were made.
    pub closed spec fn deliveries(&self) -> Seq<(int, Event)> {
        self.delivered@
    }

    /// The most events that can wait.
    pub closed spec fn limit(&self) -> usize {
        self.capacity
    }

    /// How many events were turned away.
    pub closed spec fn dropped_count(&self) -> u64 {
        self.dropped
    }

    /// The event type each listener listens for, in the order they came.
    pub closed spec fn listener_types(&self) -> Seq<EventType> {
        entry_types(self.listeners@)
    }

    /// A manager whose queue holds `EVENT_QUEUE_CAPACITY` events.
    pub fn new() -> (m: EventManager)
        ensures
            m.pending() == Seq::<Event>::empty(),
            m.limit() == EVENT_QUEUE_CAPACITY,
            m.dropped_count() == 0,
            m.listener_types() == Seq::<EventType>::empty(),
            m.deliveries() == Seq::<(int, Event)>::empty(),
    {
        Self::with_capacity(EVENT_QUEUE_CAPACITY)
    }

    /// A manager whose queue holds `capacity` events (at least one).
    pub fn with_capacity(capacity: usize) -> (m: EventManager)
        ensures
            m.pending() == Seq::<Event>::empty(),
            m.limit() == (if capacity < 1 { 1 } else { capacity }),
            m.dropped_count() == 0,
            m.listener_types() == Seq::<EventType>::empty(),
            m.deliveries() == Seq::<(int, Event)>::empty(),
    {
        let m = EventManager {
            listeners: Vec::new(),
            queue: VecDeque::new(),
            capacity: if capacity < 1 { 1 } else { capacity },
            dropped: 0,
            delivered: Ghost(Seq::empty()),
        };
        assert(entry_types(m.listeners@) =~= Seq::<EventType>::empty());
        m
    }

    /// Adds a listener for events of type `typ`.
    pub fn listen(&mut self, listener: Box<dyn EventListener>, typ: EventType)
        ensures
            final(self).listener_types() == old(self).listener_types().push(typ),
            final(self).pending() == old(self).pending(),
            final(self).limit() == old(self).limit(),
            final(self).dropped_count() == old(self).dropped_count(),
            final(self).deliveries() == old(self).deliveries(),
    {
        let entry = (typ, listener);
        let ghost pushed = entry;
        self.listeners.push(entry);
        assert(self.listeners@ == old(self).listeners@.push(pushed));
        assert(entry_types(self.listeners@) =~= entry_types(old(self).listeners@).push(typ));
    }

    /// Queues `ev` for delivery; a full queue turns it away (handing it
    /// back) and counts it.
    pub fn try_post_event(&mut self, ev: Event) -> (r: Result<(), Event>)
        ensures
            old(self).pending().len() >= old(self).limit() ==> r == Err::<(), Event>(ev) && final(self).pending()
                == old(self).pending() && final(self).dropped_count() == old(self).dropped_count().wrapping_add(1),
            old(self).pending().len() < old(self).limit() ==> r is Ok && final(self).pending()
                == old(self).pending().push(ev) && final(self).dropped_count() == old(self).dropped_count(),
            final(self).limit() == old(self).limit(),
            final(self).listener_types() == old(self).listener_types(),
            final(self).deliveries() == old(self).deliveries(),
    {
        if self.queue.len() >= self.capacity {
            self.dropped = self.dropped.wrapping_add(1);
            return Err(ev);
        }
        self.queue.push_back(ev);
        Ok(())
    }

    /// Queues `ev` if there is room (see `try_post_event`).
    pub fn post_event(&mut self, ev: Event)
        ensures
            old(self).pending().len() >= old(self).limit() ==> final(self).pending() == old(self).pending()
                && final(self).dropped_count() == old(self).dropped_count().wrapping_add(1),
            old(self).pending().len() < old(self).limit() ==> final(self).pending() == old(self).pending().push(ev)
                && final(self).dropped_count() == old(self).dropped_count(),
            final(self).limit() == old(self).limit(),
            final(self).listener_types() == old(self).listener_types(),
            final(self).deliveries() == old(self).deliveries(),
    {
        let _ = self.try_post_event(ev);
    }

    /// How many events were turned away.
    pub fn dropped_events(&self) -> (n: u64)
        ensures
            n == self.dropped_count(),
    {
        self.dropped
    }

    /// Hands every pending event, oldest first, to each listener of its
    /// type in the order they came; the queue is then empty.
    pub fn process_pending(&mut self)
        ensures
            final(self).pending() == Seq::<Event>::empty(),
            final(self).deliveries() == old(self).deliveries() + delivery_plan(
                old(self).pending(),
                old(self).listener_types(),
            ),
            final(self).listener_types() == old(self).listener_types(),
            final(self).limit() == old(self).limit(),
            final(self).dropped_count() == old(self).dropped_count(),
    {
        let ghost types = entry_types(self.listeners@);
        let ghost start = self.delivered@;
        let ghost all = self.queue@;
        loop
            invariant
                entry_types(self.listeners@) == types,
                types == entry_types(old(self).listeners@),
                self.capacity == old(self).capacity,
                self.dropped == old(self).dropped,
                all == old(self).queue@,
                start == old(self).delivered@,
                start + delivery_plan(all, types) == self.delivered@ + delivery_plan(self.queue@, types),
            ensures
                self.queue@.len() == 0,
                entry_types(self.listeners@) == types,
                self.capacity == old(self).capacity,
                self.dropped == old(self).dropped,
                start + delivery_plan(all, types) == self.delivered@,
            decreases self.queue@.len(),
        {
            let ghost q = self.queue@;
            let ev = match self.queue.pop_front() {
                Some(ev) => ev,
                None => {
                    assert(delivery_plan(q, types) =~= Seq::<(int, Event)>::empty());
                    assert(self.delivered@ + Seq::<(int, Event)>::empty() =~= self.delivered@);
                    break;
                },
            };
            assert(q[0] == ev && self.queue@ =~= q.drop_first());
            let typ = ev.get_type();
            let n = self.listeners.len();
            let ghost left = self.queue@.len();
            let ghost base = self.delivered@;
            assert(start + delivery_plan(all, types) == base + delivery_plan(q, types));
            let mut i: usize = 0;
            while i < n
                invariant
                    i <= n,
                    n == self.listeners@.len(),
                    n == types.len(),
                    entry_types(self.listeners@) == types,
                    self.queue@.len() == left,
                    self.queue@ == q.drop_first(),
                    self.capacity == old(self).capacity,
                    self.dropped == old(self).dropped,
                    typ == event_type_of(&ev),
                    self.delivered@ == base + deliveries_to(ev, types, i as nat),
                decreases n - i,
            {
                assert(types[i as int] == self.listeners@[i as int].0);
                if self.listeners[i].0 == typ {
                    let ghost before = self.listeners@;
                    let entry = &mut self.listeners[i];
                    entry.1.receive_event(&ev, &());
                    proof {
                        self.delivered@ = self.delivered@.push((i as int, ev));
                    }
                    assert(entry_types(self.listeners@) =~= entry_types(before));
                }
                assert(self.delivered@ =~= base + deliveries_to(ev, types, (i + 1) as nat));
                i = i + 1;
            }
            assert(delivery_plan(q, types) == deliveries_to(q[0], types, types.len()) + delivery_plan(q.drop_first(), types));
            assert(start + delivery_plan(all, types) =~= self.delivered@ + delivery_plan(self.queue@, types));
        }
    }
}

} // verus!
