//! The event channel: a bounded first-in-first-out queue between the event
//! producers and the single consumer.
//!
//! The model captures the backpressure discipline: a non-blocking `try_send`
//! that refuses (and changes nothing) once the queue is full, a `send` for
//! low-rate producers that asks for room, and a `recv` that hands events out
//! strictly in arrival order. Concurrency lives outside the library; the
//! queue's behaviour under any interleaving is this sequential one.

use vstd::prelude::*;

use std::collections::VecDeque;

use crate::models::{NetworkEvent, NetworkEventView};

verus! {

/// Ghost mirror of the event channel: the queued events, oldest first, and
/// the fixed capacity.
pub struct EventChannelView {
    pub queue: Seq<NetworkEventView>,
    pub capacity: usize,
}

/// A bounded multi-producer/single-consumer event queue.
pub struct EventChannel {
    queue: VecDeque<NetworkEvent>,
    capacity: usize,
}

impl View for EventChannel {
    type V = EventChannelView;

    closed spec fn view(&self) -> EventChannelView {
        EventChannelView { queue: self.queue.deep_view(), capacity: self.capacity }
    }
}

impl EventChannel {
    /// The queue never holds more than its capacity.
    pub open spec fn wf(self) -> bool {
        self@.queue.len() <= self@.capacity
    }

    /// An empty channel of the given capacity.
    pub fn new(capacity: usize) -> (r: Self)
        requires
            1 <= capacity,
        ensures
            r.wf(),
            r@.capacity == capacity,
            r@.queue == Seq::<NetworkEventView>::empty(),
    {
        let r = EventChannel { queue: VecDeque::new(), capacity };
        proof {
            assert(r@.queue =~= Seq::<NetworkEventView>::empty());
        }
        r
    }

    /// Non-blocking enqueue: accepted exactly while there is room; a refused
    /// event is dropped and the queue is left as it was, so a hot producer is
    /// never blocked.
    pub fn try_send(&mut self, event: NetworkEvent) -> (accepted: bool)
        requires
            old(self).wf(),
        ensures
            final(self).wf(),
            final(self)@.capacity == old(self)@.capacity,
            accepted == (old(self)@.queue.len() < old(self)@.capacity),
            accepted ==> final(self)@.queue == old(self)@.queue.push(event@),
            !accepted ==> final(self)@.queue == old(self)@.queue,
    {
        if self.queue.len() < self.capacity {
            self.queue.push_back(event);
            proof {
                assert(self@.queue =~= old(self)@.queue.push(self.queue@.last()@));
            }
            true
        } else {
            false
        }
    }

    /// Enqueue for a low-rate producer, which may wait for room: the model
    /// asks the caller for it.
    pub fn send(&mut self, event: NetworkEvent)
        requires
            old(self).wf(),
            old(self)@.queue.len() < old(self)@.capacity,
        ensures
            final(self).wf(),
            final(self)@.capacity == old(self)@.capacity,
            final(self)@.queue == old(self)@.queue.push(event@),
    {
        self.queue.push_back(event);
        proof {
            assert(self@.queue =~= old(self)@.queue.push(self.queue@.last()@));
        }
    }

    /// Dequeue in strict arrival order: the oldest event, or nothing while
    /// the queue is empty.
    pub fn recv(&mut self) -> (r: Option<NetworkEvent>)
        requires
            old(self).wf(),
        ensures
            final(self).wf(),
            final(self)@.capacity == old(self)@.capacity,
            match r {
                Some(e) => old(self)@.queue.len() > 0 && e@ == old(self)@.queue[0]
                    && final(self)@.queue == old(self)@.queue.drop_first(),
                None => old(self)@.queue.len() == 0 && final(self)@.queue == old(self)@.queue,
            },
    {
        let r = self.queue.pop_front();
        proof {
            if r is Some {
                assert(self@.queue =~= old(self)@.queue.drop_first());
            } else {
                assert(self@.queue =~= old(self)@.queue);
            }
        }
        r
    }

    /// How many events are waiting.
    pub fn len(&self) -> (r: usize)
        ensures
            r == self@.queue.len(),
    {
        self.queue.len()
    }

    /// The fixed capacity.
    pub fn capacity(&self) -> (r: usize)
        ensures
            r == self@.capacity,
    {
        self.capacity
    }
}

/// Backpressure keeps the pipeline live: a full channel refuses an event
/// without changing anything, and after one receive there is room again, so
/// a refused producer and a draining consumer can always make progress.
pub proof fn lemma_backpressure_liveness(c: EventChannelView)
    requires
        c.queue.len() == c.capacity,
        1 <= c.capacity,
    ensures
        !(c.queue.len() < c.capacity),
        c.queue.drop_first().len() < c.capacity,
{
}

} // verus!
