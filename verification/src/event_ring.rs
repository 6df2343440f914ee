use vstd::prelude::*;

use crate::allocator::not_aligned_64;
use crate::error::AllocateReason;
use crate::error::PciError;
use crate::error::PciResult;
use crate::error::RingReason;
use crate::ring::ring_too_small;
use crate::trb::Event;
use crate::trb::Trb;

verus! {

/// One stretch of memory that holds slots of the event ring.
#[derive(Debug, Clone, Copy, PartialEq, Eq, Structural)]
pub struct Segment {
    /// The address of the first slot, as the controller sees it.
    pub base: u64,
    /// The number of slots.
    pub size: u16,
}

impl Segment {
    /// The segment has a slot, begins on a 64-byte boundary and lies inside
    /// the address space.
    pub open spec fn wf(self) -> bool {
        &&& self.size >= 1
        &&& self.base % 64 == 0
        &&& self.base + 16 * self.size <= u64::MAX
    }

    /// The entry of the event ring segment table for this segment: the
    /// address in the first two words, the number of slots in the low half
    /// of the third, and zero in the rest.
    pub open spec fn spec_table_entry(self) -> [u32; 4] {
        [(self.base & 0xffff_ffff) as u32, (self.base >> 32) as u32, self.size as u32, 0]
    }

    #[verifier::when_used_as_spec(spec_table_entry)]
    pub fn table_entry(self) -> (entry: [u32; 4])
        ensures
            entry == self.spec_table_entry(),
    {
        [
            #[verifier::truncate]
            ((self.base & 0xffff_ffff) as u32),
            #[verifier::truncate]
            ((self.base >> 32) as u32),
            self.size as u32,
            0,
        ]
    }
}

/// The block in the slot `index` of the segment `segment` of `memory`, if
/// `memory` has such a slot.
pub open spec fn slot_at(memory: Seq<Vec<Trb>>, segment: int, index: int) -> Option<Trb> {
    if 0 <= segment < memory.len() && 0 <= index < memory[segment]@.len() {
        Some(memory[segment]@[index])
    } else {
        None
    }
}

/// The state of the ring that the controller fills and the driver empties.
pub struct EventRingModel {
    pub segments: Seq<Segment>,
    /// The segment of the slot the next event is expected in.
    pub segment: int,
    /// The index of that slot in its segment.
    pub index: int,
    /// The cycle bit the controller writes events with in this pass.
    pub cycle: bool,
}

impl EventRingModel {
    pub open spec fn wf(self) -> bool {
        &&& self.segments.len() >= 1
        &&& forall|s: int| 0 <= s < self.segments.len() ==> (#[trigger] self.segments[s]).wf()
        &&& 0 <= self.segment < self.segments.len()
        &&& 0 <= self.index < self.segments[self.segment].size
    }

    /// The address of the slot the next event is expected in.
    pub open spec fn dequeue_pointer(self) -> int {
        self.segments[self.segment].base + 16 * self.index
    }

    /// The block in the slot the next event is expected in.
    pub open spec fn front(self, memory: Seq<Vec<Trb>>) -> Option<Trb> {
        slot_at(memory, self.segment, self.index)
    }

    /// The controller has written an event to the slot the next event is
    /// expected in: the block there carries the cycle bit of this pass.
    pub open spec fn ready(self, memory: Seq<Vec<Trb>>) -> bool {
        self.front(memory) matches Some(trb) && trb.cycle_bit() == self.cycle
    }

    /// The ring after one event was taken: the next slot is the one after,
    /// in the next segment where this one is at its end, and in the first
    /// segment, with the cycle state toggled, after the last.
    pub open spec fn advance(self) -> EventRingModel {
        if self.index + 1 < self.segments[self.segment].size {
            EventRingModel { index: self.index + 1, ..self }
        } else if self.segment + 1 < self.segments.len() {
            EventRingModel { segment: self.segment + 1, index: 0, ..self }
        } else {
            EventRingModel { segment: 0, index: 0, cycle: !self.cycle, ..self }
        }
    }

    /// The ring after `n` events were taken.
    pub open spec fn advance_by(self, n: nat) -> EventRingModel
        decreases n,
    {
        if n == 0 {
            self
        } else {
            self.advance_by((n - 1) as nat).advance()
        }
    }

    /// The slot `(segment, index)` comes before the slot `(s, i)`.
    pub open spec fn before(segment: int, index: int, s: int, i: int) -> bool {
        segment < s || (segment == s && index < i)
    }
}

/// Taking an event leaves the ring in order.
pub proof fn lemma_advance_wf(m: EventRingModel)
    requires
        m.wf(),
    ensures
        m.advance().wf(),
        m.advance().segments == m.segments,
{
    let after = m.advance();
    assert(after.segments[after.segment].wf());
}

/// An event that was taken, with the address up to which the ring was
/// emptied by it.
#[derive(Debug, Clone, Copy, PartialEq, Eq, Structural)]
pub struct Dequeued {
    pub event: Event,
    /// The address of the slot after the one the event was in.
    pub next_pointer: u64,
}

/// The event ring, as far as the driver keeps track of it: where its
/// segments lie, up to where it was emptied, and the cycle bit that tells
/// the controller's new events from old ones.
pub struct EventRing {
    segments: Vec<Segment>,
    segment: usize,
    index: usize,
    cycle: bool,
}

impl View for EventRing {
    type V = EventRingModel;

    closed spec fn view(&self) -> EventRingModel {
        EventRingModel {
            segments: self.segments@,
            segment: self.segment as int,
            index: self.index as int,
            cycle: self.cycle,
        }
    }
}

impl EventRing {
    /// An event ring over `segments`, emptied up to the first slot of the
    /// first segment, with a cycle state of 1.
    ///
    /// An empty list of segments or a segment without slots is refused with
    /// `TooSmall`, as is a segment that reaches beyond the address space; a
    /// segment that does not begin on a 64-byte boundary is refused with
    /// `NotAlignedAddress`. The first segment at fault decides.
    pub fn new(segments: Vec<Segment>) -> (r: PciResult<EventRing>)
        ensures
            segments@.len() >= 1 && (forall|s: int|
                0 <= s < segments@.len() ==> (#[trigger] segments@[s]).wf()) ==> (r matches Ok(ring)
                && ring@ == (EventRingModel { segments: segments@, segment: 0, index: 0, cycle: true })
                && ring@.wf()),
            segments@.len() == 0 ==> r == Err::<EventRing, PciError>(ring_too_small(0)),
            forall|s: int|
                0 <= s < segments@.len() && !(#[trigger] segments@[s]).wf() && (forall|p: int|
                    0 <= p < s ==> (#[trigger] segments@[p]).wf()) ==> r == Err::<
                    EventRing,
                    PciError,
                >(
                    if segments@[s].size < 1 || segments@[s].base + 16 * segments@[s].size
                        > u64::MAX {
                        ring_too_small(segments@[s].size as usize)
                    } else {
                        not_aligned_64()
                    },
                ),
    {
        if segments.len() == 0 {
            return Err(PciError::FailedOperateRing(RingReason::TooSmall { capacity: 0 }));
        }
        let mut s: usize = 0;
        while s < segments.len()
            invariant
                s <= segments@.len(),
                forall|p: int| 0 <= p < s ==> (#[trigger] segments@[p]).wf(),
            decreases segments@.len() - s,
        {
            let segment = segments[s];
            if segment.size < 1 || segment.size as u64 > (u64::MAX - segment.base) / 16 {
                return Err(
                    PciError::FailedOperateRing(
                        RingReason::TooSmall { capacity: segment.size as usize },
                    ),
                );
            }
            if segment.base % 64 != 0 {
                return Err(
                    PciError::FailedAllocate(
                        AllocateReason::NotAlignedAddress { expect_align_size: 64 },
                    ),
                );
            }
            s = s + 1;
        }
        Ok(EventRing { segments, segment: 0, index: 0, cycle: true })
    }

    /// The ring is in order.
    pub open spec fn wf(&self) -> bool {
        self@.wf()
    }

    /// The address up to which the ring was emptied, which is what the
    /// controller is told through the dequeue pointer register.
    pub fn dequeue_pointer(&self) -> (pointer: u64)
        requires
            self.wf(),
        ensures
            pointer == self@.dequeue_pointer(),
    {
        assert(self@.segments[self@.segment].wf());
        self.segments[self.segment].base + 16 * (self.index as u64)
    }

    /// The cycle bit that the next event is expected with.
    pub fn cycle_state(&self) -> (cycle: bool)
        ensures
            cycle == self@.cycle,
    {
        self.cycle
    }

    /// The segment with the number `index`, or `None` where the ring has no
    /// such segment.
    pub fn segment(&self, index: usize) -> (segment: Option<Segment>)
        ensures
            index < self@.segments.len() ==> segment == Some(self@.segments[index as int]),
            index >= self@.segments.len() ==> segment is None,
    {
        if index < self.segments.len() {
            Some(self.segments[index])
        } else {
            None
        }
    }

    /// The number of segments.
    pub fn segments_count(&self) -> (count: usize)
        ensures
            count == self@.segments.len(),
    {
        self.segments.len()
    }

    /// The event ring segment table, entry by entry, as it has to lie in
    /// memory for the controller.
    pub fn segment_table(&self) -> (table: Vec<[u32; 4]>)
        ensures
            table@.len() == self@.segments.len(),
            forall|s: int|
                0 <= s < table@.len() ==> #[trigger] table@[s] == self@.segments[s].table_entry(),
    {
        let mut table: Vec<[u32; 4]> = Vec::new();
        let mut s: usize = 0;
        while s < self.segments.len()
            invariant
                s <= self.segments@.len(),
                table@.len() == s,
                forall|p: int|
                    0 <= p < s ==> #[trigger] table@[p] == self.segments@[p].table_entry(),
            decreases self.segments@.len() - s,
        {
            table.push(self.segments[s].table_entry());
            s = s + 1;
        }
        table
    }

    fn step(&mut self)
        requires
            old(self).wf(),
        ensures
            final(self).wf(),
            final(self)@ == old(self)@.advance(),
    {
        proof {
            lemma_advance_wf(self@);
        }
        let count: usize = self.segments.len();
        if self.index + 1 < self.segments[self.segment].size as usize {
            self.index = self.index + 1;
        } else if self.segment < count - 1 {
            self.segment = self.segment + 1;
            self.index = 0;
        } else {
            self.segment = 0;
            self.index = 0;
            self.cycle = !self.cycle;
        }
    }

    /// Takes the next event off the ring, if the controller has written
    /// one.
    ///
    /// `memory` is the content of the segments as it is now. The ring is
    /// empty, and stays as it is, where the block at the dequeue pointer
    /// does not carry the cycle bit of this pass; the cycle bit alone
    /// decides. Otherwise the block is decoded and the ring moves on by one
    /// slot.
    pub fn pop(&mut self, memory: &Vec<Vec<Trb>>) -> (r: Option<Dequeued>)
        requires
            old(self).wf(),
        ensures
            final(self).wf(),
            old(self)@.ready(memory@) ==> final(self)@ == old(self)@.advance() && r == Some(
                Dequeued {
                    event: Event::decode(old(self)@.front(memory@)->Some_0),
                    next_pointer: final(self)@.dequeue_pointer() as u64,
                },
            ),
            !old(self)@.ready(memory@) ==> final(self)@ == old(self)@ && r is None,
    {
        if self.segment >= memory.len() || self.index >= memory[self.segment].len() {
            return None;
        }
        let trb = memory[self.segment][self.index];
        if trb.cycle_bit() != self.cycle {
            return None;
        }
        self.step();
        Some(Dequeued { event: Event::decode(trb), next_pointer: self.dequeue_pointer() })
    }

    /// Takes all events off the ring that the controller has written, in
    /// the order in which it wrote them.
    ///
    /// Events are taken until the block at the dequeue pointer does not
    /// carry the cycle bit of the pass: that check alone ends the run.
    pub fn drain(&mut self, memory: &Vec<Vec<Trb>>) -> (events: Vec<Dequeued>)
        requires
            old(self).wf(),
        ensures
            final(self).wf(),
            final(self)@ == old(self)@.advance_by(events@.len()),
            !final(self)@.ready(memory@),
            forall|j: int|
                0 <= j < events@.len() ==> old(self)@.advance_by(j as nat).ready(memory@)
                    && #[trigger] events@[j] == (Dequeued {
                    event: Event::decode(
                        old(self)@.advance_by(j as nat).front(memory@)->Some_0,
                    ),
                    next_pointer: old(self)@.advance_by((j + 1) as nat).dequeue_pointer() as u64,
                }),
    {
        let mut events: Vec<Dequeued> = Vec::new();
        let ghost start = self@;
        loop
            invariant
                self.wf(),
                start == old(self)@,
                start.wf(),
                self@ == start.advance_by(events@.len()),
                self@.segments == start.segments,
                forall|j: int|
                    0 <= j < events@.len() ==> start.advance_by(j as nat).ready(memory@)
                        && #[trigger] events@[j] == (Dequeued {
                        event: Event::decode(start.advance_by(j as nat).front(memory@)->Some_0),
                        next_pointer: start.advance_by((j + 1) as nat).dequeue_pointer() as u64,
                    }),
                // Until the ring has wrapped it is in its first pass; after
                // that it cannot get past the slot it started from, whose
                // block carries the cycle bit of the first pass.
                self@.cycle == start.cycle ==> events@.len() == 0 || !EventRingModel::before(
                    self@.segment,
                    self@.index,
                    start.segment,
                    start.index,
                ),
                self@.cycle != start.cycle ==> events@.len() > 0 && !EventRingModel::before(
                    start.segment,
                    start.index,
                    self@.segment,
                    self@.index,
                ),
                events@.len() > 0 ==> start.ready(memory@),
            ensures
                self.wf(),
                self@ == start.advance_by(events@.len()),
                !self@.ready(memory@),
                forall|j: int|
                    0 <= j < events@.len() ==> start.advance_by(j as nat).ready(memory@)
                        && #[trigger] events@[j] == (Dequeued {
                        event: Event::decode(start.advance_by(j as nat).front(memory@)->Some_0),
                        next_pointer: start.advance_by((j + 1) as nat).dequeue_pointer() as u64,
                    }),
            decreases
                    (if self@.cycle == start.cycle {
                        1int
                    } else {
                        0int
                    }),
                    self@.segments.len() - self@.segment,
                    self@.segments[self@.segment].size - self@.index,
        {
            let ghost before = self@;
            let ghost n = events@.len();
            match self.pop(memory) {
                None => {
                    break ;
                },
                Some(dequeued) => {
                    proof {
                        assert(start.advance_by((n + 1) as nat) == start.advance_by(n).advance());
                        lemma_advance_wf(before);
                    }
                    events.push(dequeued);
                },
            }
        }
        events
    }
}

} // verus!
