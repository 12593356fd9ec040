//! The event bridge: a bounded queue between the input hook, which must never
//! be held up, and the dispatcher, which consumes events at its own pace.
//!
//! The queue keeps the order in which the hook saw the events. When it is full
//! and another event arrives, the oldest queued event is dropped to make
//! room: the hook never waits, and the dispatcher sees the newest events.

use crate::event::RawEvent;
use std::collections::VecDeque;
use vstd::prelude::*;

verus! {

/// The capacity of the bridge unless another is asked for.
pub const DEFAULT_CAPACITY: usize = 32;

/// The queue was full when an event arrived: `dropped`, the oldest event in
/// it, was discarded to make room. The event that arrived is in the queue.
#[derive(Clone, Copy, Debug, PartialEq, Eq, Structural)]
pub struct BridgeOverflow {
    pub dropped: RawEvent,
}

/// What a bridge is: the events queued, oldest first, and how many it holds
/// at most.
pub struct BridgeView {
    pub queued: Seq<RawEvent>,
    pub capacity: nat,
}

impl BridgeView {
    /// A bridge has room for at least one event and never holds more than
    /// its capacity.
    pub open spec fn well_formed(self) -> bool {
        0 < self.capacity && self.queued.len() <= self.capacity
    }

    pub open spec fn is_full(self) -> bool {
        self.queued.len() >= self.capacity
    }

    /// The bridge after `event` arrived: the event is queued last, and where
    /// the queue was full its oldest event is gone.
    pub open spec fn offered(self, event: RawEvent) -> BridgeView {
        if self.is_full() {
            BridgeView { queued: self.queued.drop_first().push(event), capacity: self.capacity }
        } else {
            BridgeView { queued: self.queued.push(event), capacity: self.capacity }
        }
    }

    /// The bridge after all of `events` arrived, in order, with none taken
    /// in between.
    pub open spec fn offered_all(self, events: Seq<RawEvent>) -> BridgeView
        decreases events.len(),
    {
        if events.len() == 0 {
            self
        } else {
            self.offered_all(events.drop_last()).offered(events.last())
        }
    }

    /// The bridge after its oldest event was taken.
    pub open spec fn taken(self) -> BridgeView {
        if self.queued.len() == 0 {
            self
        } else {
            BridgeView { queued: self.queued.drop_first(), capacity: self.capacity }
        }
    }

    /// The newest events of `events`, as many as the bridge can hold.
    pub open spec fn newest(self, events: Seq<RawEvent>) -> Seq<RawEvent> {
        if events.len() <= self.capacity {
            events
        } else {
            events.subrange(events.len() - self.capacity, events.len() as int)
        }
    }
}

/// The bounded, ordered queue of events between the input hook and the
/// dispatcher.
pub struct EventBridge {
    queue: VecDeque<RawEvent>,
    capacity: usize,
}

impl View for EventBridge {
    type V = BridgeView;

    closed spec fn view(&self) -> BridgeView {
        BridgeView { queued: self.queue@, capacity: self.capacity as nat }
    }
}

impl EventBridge {
    pub open spec fn wf(&self) -> bool {
        self@.well_formed()
    }

    /// An empty bridge that holds up to `capacity` events. There is no
    /// bridge without room for an event.
    pub fn new(capacity: usize) -> (bridge: Option<EventBridge>)
        ensures
            bridge is Some <==> capacity > 0,
            bridge matches Some(b) ==> b.wf() && b@ == (BridgeView {
                queued: Seq::empty(),
                capacity: capacity as nat,
            }),
    {
        if capacity == 0 {
            None
        } else {
            Some(EventBridge { queue: VecDeque::new(), capacity })
        }
    }

    /// An empty bridge of the default capacity.
    pub fn with_default_capacity() -> (bridge: EventBridge)
        ensures
            bridge.wf(),
            bridge@ == (BridgeView { queued: Seq::empty(), capacity: DEFAULT_CAPACITY as nat }),
    {
        EventBridge { queue: VecDeque::new(), capacity: DEFAULT_CAPACITY }
    }

    pub fn capacity(&self) -> (capacity: usize)
        ensures
            capacity == self@.capacity,
    {
        self.capacity
    }

    /// The number of events queued.
    pub fn len(&self) -> (n: usize)
        ensures
            n == self@.queued.len(),
    {
        self.queue.len()
    }

    pub fn is_empty(&self) -> (empty: bool)
        ensures
            empty == (self@.queued.len() == 0),
    {
        self.queue.len() == 0
    }

    pub fn is_full(&self) -> (full: bool)
        ensures
            full == self@.is_full(),
    {
        self.queue.len() >= self.capacity
    }

    /// Queues `event` behind all events queued before. This never waits. The
    /// event is queued in every case; where the queue was full, its oldest
    /// event was dropped for it and is reported.
    pub fn offer(&mut self, event: RawEvent) -> (delivered: Result<(), BridgeOverflow>)
        requires
            old(self).wf(),
        ensures
            final(self).wf(),
            final(self)@ == old(self)@.offered(event),
            match delivered {
                Ok(_) => !old(self)@.is_full(),
                Err(overflow) => old(self)@.is_full() && overflow.dropped == old(self)@.queued[0],
            },
    {
        if self.queue.len() >= self.capacity {
            let oldest = self.queue.pop_front();
            self.queue.push_back(event);
            match oldest {
                Some(dropped) => Err(BridgeOverflow { dropped }),
                None => Ok(()),
            }
        } else {
            self.queue.push_back(event);
            Ok(())
        }
    }

    /// Takes the oldest event out of the queue; none where it is empty.
    pub fn take(&mut self) -> (event: Option<RawEvent>)
        requires
            old(self).wf(),
        ensures
            final(self).wf(),
            final(self)@ == old(self)@.taken(),
            event == if old(self)@.queued.len() > 0 {
                Some(old(self)@.queued[0])
            } else {
                None
            },
    {
        self.queue.pop_front()
    }

    /// Takes all queued events out, oldest first.
    pub fn drain(&mut self) -> (events: Vec<RawEvent>)
        requires
            old(self).wf(),
        ensures
            final(self).wf(),
            events@ == old(self)@.queued,
            final(self)@ == (BridgeView { queued: Seq::empty(), capacity: old(self)@.capacity }),
    {
        let mut events: Vec<RawEvent> = Vec::new();
        loop
            invariant
                self.wf(),
                self@.capacity == old(self)@.capacity,
                events@ + self@.queued == old(self)@.queued,
            ensures
                self@.queued.len() == 0,
            decreases self@.queued.len(),
        {
            match self.take() {
                Some(event) => {
                    let ghost before = events@;
                    events.push(event);
                    assert(seq![event] + self@.queued =~= old(self)@.queued.subrange(
                        before.len() as int,
                        old(self)@.queued.len() as int,
                    ));
                },
                None => {
                    break ;
                },
            }
        }
        assert(self@.queued =~= Seq::empty());
        events
    }
}

/// However many events arrive, the bridge stays within its capacity and
/// holds the newest of them in the order of their arrival: of the events
/// queued before and those that arrived, the oldest are dropped, as many as
/// do not fit.
pub proof fn lemma_flood_keeps_newest(bridge: BridgeView, events: Seq<RawEvent>)
    requires
        bridge.well_formed(),
    ensures
        bridge.offered_all(events).well_formed(),
        bridge.offered_all(events).capacity == bridge.capacity,
        bridge.offered_all(events).queued == bridge.newest(bridge.queued + events),
    decreases events.len(),
{
    if events.len() > 0 {
        lemma_flood_keeps_newest(bridge, events.drop_last());
    }
}

/// While the queue has room, events leave the bridge in the order in which
/// they arrived, behind those queued before, and none is lost.
pub proof fn lemma_order_kept(bridge: BridgeView, events: Seq<RawEvent>)
    requires
        bridge.well_formed(),
        bridge.queued.len() + events.len() <= bridge.capacity,
    ensures
        bridge.offered_all(events).queued == bridge.queued + events,
{
    lemma_flood_keeps_newest(bridge, events);
}

/// A flood of more events than the bridge holds leaves exactly the newest of
/// them in the queue, as many as the capacity, whatever was queued before.
pub proof fn lemma_flood_fills(bridge: BridgeView, events: Seq<RawEvent>)
    requires
        bridge.well_formed(),
        events.len() >= bridge.capacity,
    ensures
        bridge.offered_all(events).queued.len() == bridge.capacity,
        bridge.offered_all(events).queued == events.subrange(
            events.len() - bridge.capacity,
            events.len() as int,
        ),
{
    lemma_flood_keeps_newest(bridge, events);
    let all = bridge.queued + events;
    assert(bridge.newest(all) =~= events.subrange(
        events.len() - bridge.capacity,
        events.len() as int,
    ));
}

} // verus!
