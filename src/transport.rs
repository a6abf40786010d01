//! The event transport: a bounded ring of capture records between the
//! capture probes and the aggregator. Producers never wait: when no slot is
//! free the record is dropped and counted.
use vstd::prelude::*;

use crate::event::RawEvent;

verus! {

pub struct EventRing {
    capacity: usize,
    records: Vec<RawEvent>,
    dropped: u64,
}

impl EventRing {
    /// The records waiting for the consumer, oldest first.
    pub closed spec fn spec_records(self) -> Seq<RawEvent> {
        self.records@
    }

    pub closed spec fn spec_capacity(self) -> nat {
        self.capacity as nat
    }

    pub closed spec fn spec_dropped(self) -> nat {
        self.dropped as nat
    }

    pub open spec fn wf(self) -> bool {
        &&& self.spec_records().len() <= self.spec_capacity()
        &&& self.spec_capacity() > 0
    }

    /// The ring after `event` was offered to `self`: appended when a slot was
    /// free, dropped and counted (saturating) when none was.
    pub open spec fn spec_submit_post(self, event: RawEvent, after: EventRing) -> bool {
        &&& after.spec_capacity() == self.spec_capacity()
        &&& if self.spec_records().len() < self.spec_capacity() {
            &&& after.spec_records() == self.spec_records().push(event)
            &&& after.spec_dropped() == self.spec_dropped()
        } else {
            &&& after.spec_records() == self.spec_records()
            &&& after.spec_dropped() == if self.spec_dropped() < u64::MAX {
                self.spec_dropped() + 1
            } else {
                self.spec_dropped()
            }
        }
    }

    /// An empty ring with room for `capacity` records.
    pub fn new(capacity: usize) -> (r: EventRing)
        requires
            capacity > 0,
        ensures
            r.wf(),
            r.spec_capacity() == capacity,
            r.spec_records() == Seq::<RawEvent>::empty(),
            r.spec_dropped() == 0,
    {
        EventRing { capacity, records: Vec::new(), dropped: 0 }
    }

    pub fn capacity(&self) -> (r: usize)
        ensures
            r == self.spec_capacity(),
    {
        self.capacity
    }

    pub fn len(&self) -> (r: usize)
        ensures
            r == self.spec_records().len(),
    {
        self.records.len()
    }

    /// How many records were dropped because the ring was full.
    pub fn dropped(&self) -> (r: u64)
        ensures
            r == self.spec_dropped(),
    {
        self.dropped
    }

    /// Offers a record; returns whether it was stored.
    pub fn submit(&mut self, event: RawEvent) -> (r: bool)
        requires
            old(self).wf(),
        ensures
            final(self).wf(),
            r == (old(self).spec_records().len() < old(self).spec_capacity()),
            old(self).spec_submit_post(event, *final(self)),
    {
        if self.records.len() < self.capacity {
            self.records.push(event);
            true
        } else {
            self.dropped = self.dropped.saturating_add(1);
            false
        }
    }

    /// Takes every waiting record, oldest first, and leaves the ring empty.
    pub fn drain(&mut self) -> (r: Vec<RawEvent>)
        requires
            old(self).wf(),
        ensures
            final(self).wf(),
            r@ == old(self).spec_records(),
            final(self).spec_records() == Seq::<RawEvent>::empty(),
            final(self).spec_capacity() == old(self).spec_capacity(),
            final(self).spec_dropped() == old(self).spec_dropped(),
    {
        let mut taken = Vec::new();
        std::mem::swap(&mut taken, &mut self.records);
        taken
    }
}

} // verus!
