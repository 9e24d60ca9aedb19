//! The broadcast-buffer policy: each subscriber owns a bounded queue of
//! routed events, and a publisher that finds it full drops the oldest
//! event to make room. A missed pointer move is self-correcting on the
//! next one, so latency wins over completeness, and publishing never
//! blocks.

use vstd::prelude::*;

use crate::event::KvmEvent;

verus! {

/// The buffer contents after one event is pushed: the event goes to the
/// back, and the oldest event leaves if the buffer was full.
pub open spec fn spec_after_push(items: Seq<KvmEvent>, capacity: int, e: KvmEvent) -> Seq<
    KvmEvent,
> {
    if items.len() < capacity {
        items.push(e)
    } else {
        items.drop_first().push(e)
    }
}

/// The buffer contents after a whole sequence of events is pushed.
pub open spec fn spec_push_all(items: Seq<KvmEvent>, capacity: int, evs: Seq<KvmEvent>) -> Seq<
    KvmEvent,
>
    decreases evs.len(),
{
    if evs.len() == 0 {
        items
    } else {
        spec_push_all(spec_after_push(items, capacity, evs[0]), capacity, evs.drop_first())
    }
}

/// One subscriber's bounded event buffer with drop-oldest overflow.
pub struct EventQueue {
    pub capacity: usize,
    pub items: Vec<KvmEvent>,
    /// How many events this subscriber has lost to overflow; counting
    /// stops at the counter's ceiling rather than wrapping.
    pub dropped: u64,
}

impl EventQueue {
    /// True while the buffer respects its bound.
    pub open spec fn wf(&self) -> bool {
        &&& 1 <= self.capacity
        &&& self.items@.len() <= self.capacity
    }

    /// An empty buffer for one subscriber.
    pub fn new(capacity: usize) -> (q: EventQueue)
        requires
            1 <= capacity,
        ensures
            q.capacity == capacity,
            q.items@.len() == 0,
            q.dropped == 0,
            q.wf(),
    {
        EventQueue { capacity, items: Vec::new(), dropped: 0 }
    }

    /// Publishes one event to this subscriber: never blocks and never
    /// fails; a full buffer loses its oldest event and counts the loss.
    pub fn push(&mut self, e: KvmEvent)
        requires
            old(self).wf(),
        ensures
            final(self).wf(),
            final(self).capacity == old(self).capacity,
            final(self).items@ == spec_after_push(
                old(self).items@,
                old(self).capacity as int,
                e,
            ),
            final(self).dropped == (if old(self).items@.len() < old(self).capacity {
                old(self).dropped as int
            } else if old(self).dropped == u64::MAX {
                old(self).dropped as int
            } else {
                old(self).dropped + 1
            }),
    {
        if self.items.len() >= self.capacity {
            self.items.remove(0);
            if self.dropped < u64::MAX {
                self.dropped = self.dropped + 1;
            }
        }
        self.items.push(e);
        proof {
            assert(self.items@ =~= spec_after_push(
                old(self).items@,
                old(self).capacity as int,
                e,
            ));
        }
    }

    /// Takes the oldest buffered event, if any.
    pub fn pop(&mut self) -> (r: Option<KvmEvent>)
        requires
            old(self).wf(),
        ensures
            final(self).wf(),
            final(self).capacity == old(self).capacity,
            final(self).dropped == old(self).dropped,
            old(self).items@.len() == 0 ==> r is None && final(self).items@ == old(self).items@,
            old(self).items@.len() > 0 ==> r == Some(old(self).items@[0]) && final(self).items@
                == old(self).items@.drop_first(),
    {
        if self.items.len() == 0 {
            None
        } else {
            let e = self.items.remove(0);
            proof {
                assert(self.items@ =~= old(self).items@.drop_first());
            }
            Some(e)
        }
    }

    pub fn len(&self) -> (n: usize)
        ensures
            n == self.items@.len(),
    {
        self.items.len()
    }
}

/// However many events are published, a subscriber's buffer holds
/// exactly the most recent ones — the last `capacity` of everything it
/// was offered, or everything when that fits.
pub proof fn lemma_queue_keeps_latest(items: Seq<KvmEvent>, capacity: int, evs: Seq<KvmEvent>)
    requires
        1 <= capacity,
        items.len() <= capacity,
    ensures
        spec_push_all(items, capacity, evs) == ((items + evs).skip(
            if items.len() + evs.len() <= capacity {
                0
            } else {
                items.len() + evs.len() - capacity
            },
        )),
    decreases evs.len(),
{
    if evs.len() == 0 {
        assert((items + evs).skip(0) =~= items);
    } else {
        let next = spec_after_push(items, capacity, evs[0]);
        lemma_queue_keeps_latest(next, capacity, evs.drop_first());
        if items.len() < capacity {
            assert(next + evs.drop_first() =~= items + evs);
        } else {
            assert(next + evs.drop_first() =~= (items + evs).skip(1));
            assert(forall|d: int|
                0 <= d <= (items + evs).len() - 1 ==> (items + evs).skip(1).skip(d) =~= (items
                    + evs).skip(1 + d));
        }
    }
}

} // verus!
