use vstd::prelude::*;

use crate::allocator::not_aligned_64;
use crate::error::AllocateReason;
use crate::error::PciError;
use crate::error::PciResult;
use crate::error::RingReason;
use crate::trb::lemma_trb_types;
use crate::trb::lemma_with_cycle_bit;
use crate::trb::SetupData;
use crate::trb::Trb;
use crate::trb::TYPE_LINK;
use crate::volatile::Access;
use crate::volatile::VolatileMemory;

verus! {

/// The state of a ring that the driver fills and the controller empties.
///
/// The last slot holds the link block, which sends the controller back to
/// the first slot; the slots before it are the usable ones. `outstanding`
/// holds the blocks that were enqueued and that the controller has not yet
/// been seen to take, oldest first, each as it was written to its slot.
pub struct RingModel {
    pub slots: Seq<Trb>,
    /// The address of the first slot, as the controller sees it.
    pub base: u64,
    /// The slot the next block goes to.
    pub enqueue: int,
    /// The slot of the oldest outstanding block.
    pub dequeue: int,
    pub outstanding: Seq<Trb>,
    /// The cycle bit that blocks are written with in this pass.
    pub cycle: bool,
}

impl RingModel {
    pub open spec fn capacity(self) -> int {
        self.slots.len() as int
    }

    /// The number of slots that can hold a block of the driver's.
    pub open spec fn usable(self) -> int {
        self.capacity() - 1
    }

    /// The slot of the `k`-th outstanding block.
    pub open spec fn slot_of(self, k: int) -> int {
        if self.dequeue + k < self.usable() {
            self.dequeue + k
        } else {
            self.dequeue + k - self.usable()
        }
    }

    /// The address of the slot `index`.
    pub open spec fn slot_addr(self, index: int) -> int {
        self.base + 16 * index
    }

    pub open spec fn wf(self) -> bool {
        &&& self.capacity() >= 2
        &&& 0 <= self.dequeue < self.usable()
        &&& 0 <= self.enqueue < self.usable()
        &&& self.outstanding.len() <= self.usable()
        &&& self.enqueue == self.slot_of(self.outstanding.len() as int)
        &&& self.base % 64 == 0
        &&& self.base + 16 * self.capacity() <= usize::MAX
        &&& forall|k: int|
            0 <= k < self.outstanding.len() ==> self.slots[self.slot_of(k)]
                == #[trigger] self.outstanding[k]
    }

    /// The number of blocks the ring can take before it is full.
    pub open spec fn free(self) -> int {
        self.usable() - self.outstanding.len()
    }

    /// Every usable slot holds a block the controller has not taken.
    pub open spec fn full(self) -> bool {
        self.outstanding.len() == self.usable()
    }

    /// The next block goes to the last usable slot, after which the ring
    /// starts over.
    pub open spec fn wraps(self) -> bool {
        self.enqueue == self.usable() - 1
    }

    /// The link block of the ring, stamped for the pass that ends.
    pub open spec fn link(self) -> Trb {
        Trb::link(self.base, true).with_cycle_bit(self.cycle)
    }

    /// The ring after `trb` was enqueued: the block is written to the
    /// enqueue slot with the cycle bit of this pass. Where that was the last
    /// usable slot, the link block is written after it with the same cycle
    /// bit, the enqueue slot becomes the first and the cycle state toggles.
    pub open spec fn enqueue(self, trb: Trb) -> RingModel {
        let stamped = trb.with_cycle_bit(self.cycle);
        let written = self.slots.update(self.enqueue, stamped);
        if self.wraps() {
            RingModel {
                slots: written.update(self.usable(), self.link()),
                enqueue: 0,
                cycle: !self.cycle,
                outstanding: self.outstanding.push(stamped),
                ..self
            }
        } else {
            RingModel {
                slots: written,
                enqueue: self.enqueue + 1,
                outstanding: self.outstanding.push(stamped),
                ..self
            }
        }
    }

    /// The stores that enqueueing `trb` makes to the memory the controller
    /// reads the ring from: the block goes to its slot and, where the ring
    /// wraps, the link block to the link slot.
    pub open spec fn enqueue_stores(self, trb: Trb) -> Seq<Access> {
        let block = trb_stores(self.slot_addr(self.enqueue), trb.with_cycle_bit(self.cycle));
        if self.wraps() {
            block + trb_stores(self.slot_addr(self.usable()), self.link())
        } else {
            block
        }
    }

    /// The stores that enqueueing each block of `trbs` in turn makes.
    pub open spec fn enqueue_all_stores(self, trbs: Seq<Trb>) -> Seq<Access>
        decreases trbs.len(),
    {
        if trbs.len() == 0 {
            Seq::empty()
        } else {
            self.enqueue_stores(trbs[0]) + self.enqueue(trbs[0]).enqueue_all_stores(trbs.skip(1))
        }
    }

    /// The ring after each block of `trbs` was enqueued in turn.
    pub open spec fn enqueue_all(self, trbs: Seq<Trb>) -> RingModel
        decreases trbs.len(),
    {
        if trbs.len() == 0 {
            self
        } else {
            self.enqueue(trbs[0]).enqueue_all(trbs.skip(1))
        }
    }

    /// Which outstanding block lies at the address `pointer`, if one does.
    pub open spec fn position_of(self, pointer: u64) -> Option<int> {
        let offset = pointer - self.base;
        let slot = offset / 16;
        let k = if slot >= self.dequeue {
            slot - self.dequeue
        } else {
            slot + self.usable() - self.dequeue
        };
        if pointer >= self.base && offset % 16 == 0 && slot < self.usable() && k
            < self.outstanding.len() {
            Some(k)
        } else {
            None
        }
    }

    /// The block in the slot at the address `pointer`, if the ring has a
    /// slot there.
    pub open spec fn at_pointer(self, pointer: u64) -> Option<Trb> {
        let offset = pointer - self.base;
        if pointer >= self.base && offset % 16 == 0 && offset / 16 < self.capacity() {
            Some(self.slots[offset / 16])
        } else {
            None
        }
    }

    /// The ring after the controller took the `count` oldest outstanding
    /// blocks.
    pub open spec fn release(self, count: int) -> RingModel {
        RingModel {
            dequeue: self.slot_of(count),
            outstanding: self.outstanding.skip(count),
            ..self
        }
    }
}

/// The stores that put the block `trb` into the memory at `addr`: the
/// parameter, the status and then the control word, so that the cycle bit,
/// which hands the block to the controller, is stored last.
pub open spec fn trb_stores(addr: int, trb: Trb) -> Seq<Access> {
    seq![
        Access { write: true, wide: true, addr: addr as usize, value: trb.parameter },
        Access { write: true, wide: false, addr: (addr + 8) as usize, value: trb.status as u64 },
        Access { write: true, wide: false, addr: (addr + 12) as usize, value: trb.control as u64 },
    ]
}

fn store_trb<M: VolatileMemory>(mem: &mut M, addr: usize, trb: Trb)
    requires
        addr + 16 <= usize::MAX,
    ensures
        final(mem).history() == old(mem).history() + trb_stores(addr as int, trb),
{
    mem.write_volatile_64(addr, trb.parameter);
    mem.write_volatile_32(addr + 8, trb.status);
    mem.write_volatile_32(addr + 12, trb.control);
    assert(mem.history() =~= old(mem).history() + trb_stores(addr as int, trb));
}

/// The ring that [`Ring::new`] makes of `capacity` slots at `base`, or the
/// error it refuses them with: all slots are zero, no block is outstanding
/// and the cycle state is 1.
///
/// A capacity below two is refused with `TooSmall`; so is a ring that
/// would reach beyond the address space. A base that is not a multiple of
/// 64 is refused with `NotAlignedAddress`.
pub open spec fn ring_made(base: u64, capacity: usize) -> PciResult<RingModel> {
    if capacity < 2 || base + 16 * capacity > usize::MAX {
        Err(ring_too_small(capacity))
    } else if base % 64 != 0 {
        Err(not_aligned_64())
    } else {
        Ok(
            RingModel {
                slots: Seq::new(capacity as nat, |i: int| Trb { parameter: 0, status: 0, control: 0 }),
                base,
                enqueue: 0,
                dequeue: 0,
                outstanding: Seq::empty(),
                cycle: true,
            },
        )
    }
}

/// The error of an enqueue on a ring without a free slot.
pub open spec fn ring_full() -> PciError {
    PciError::FailedOperateRing(RingReason::Full)
}

/// The error for a ring that cannot hold a block beside its link block.
pub open spec fn ring_too_small(capacity: usize) -> PciError {
    PciError::FailedOperateRing(RingReason::TooSmall { capacity })
}

/// The error for a pointer that is not that of an outstanding block.
pub open spec fn nothing_pending() -> PciError {
    PciError::FailedOperateRing(RingReason::NothingPending)
}

/// Enqueueing on a ring that is not full gives a ring in order.
pub proof fn lemma_enqueue_wf(m: RingModel, trb: Trb)
    requires
        m.wf(),
        !m.full(),
    ensures
        m.enqueue(trb).wf(),
        m.enqueue(trb).outstanding.len() == m.outstanding.len() + 1,
        m.enqueue(trb).dequeue == m.dequeue,
        m.enqueue(trb).capacity() == m.capacity(),
        m.enqueue(trb).base == m.base,
{
    let after = m.enqueue(trb);
    let stamped = trb.with_cycle_bit(m.cycle);
    let n = m.outstanding.len() as int;
    assert forall|k: int| 0 <= k < after.outstanding.len() implies after.slots[after.slot_of(k)]
        == #[trigger] after.outstanding[k] by {
        if k < n {
            assert(m.slots[m.slot_of(k)] == m.outstanding[k]);
            assert(m.slot_of(k) != m.enqueue);
        }
    }
}

/// An enqueue never overwrites a block the controller has not taken: on a
/// full ring it is refused, and otherwise every outstanding block is still
/// in its slot afterwards. Where the enqueue fills the last usable slot,
/// the ring wraps through its link block: the link slot then holds a link
/// block that points at the first slot, asks the controller to toggle its
/// cycle state and carries the cycle bit of the pass that ends, and the
/// ring's own cycle state is toggled.
pub proof fn lemma_enqueue_spares_outstanding(m: RingModel, trb: Trb)
    requires
        m.wf(),
        !m.full(),
    ensures
        forall|k: int|
            0 <= k < m.outstanding.len() ==> m.enqueue(trb).slots[m.slot_of(k)]
                == #[trigger] m.outstanding[k],
        m.wraps() ==> {
            let link = m.enqueue(trb).slots[m.usable()];
            &&& link.trb_type() == TYPE_LINK
            &&& link.toggle_cycle()
            &&& link.cycle_bit() == m.cycle
            &&& link.parameter == m.base
            &&& m.enqueue(trb).cycle == !m.cycle
            &&& m.enqueue(trb).enqueue == 0
        },
        !m.wraps() ==> m.enqueue(trb).cycle == m.cycle && m.enqueue(trb).enqueue == m.enqueue
            + 1,
{
    assert forall|k: int| 0 <= k < m.outstanding.len() implies m.enqueue(trb).slots[m.slot_of(k)]
        == #[trigger] m.outstanding[k] by {
        assert(m.slots[m.slot_of(k)] == m.outstanding[k]);
        assert(m.slot_of(k) != m.enqueue);
    }
    if m.wraps() {
        lemma_with_cycle_bit(Trb::link(m.base, true), m.cycle);
        lemma_trb_types(
            m.base,
            0,
            SetupData { request_type: 0, request: 0, value: 0, index: 0, length: 0 },
            0,
            0,
            true,
            false,
        );
        let base = m.base;
        assert(base & 0xffff_ffff_ffff_fff0 == base) by (bit_vector)
            requires
                base % 64 == 0,
        ;
    }
}

/// Enqueueing as many blocks as there is room for gives a ring in order
/// that holds them all, behind those that were outstanding before.
pub proof fn lemma_enqueue_all(m: RingModel, trbs: Seq<Trb>)
    requires
        m.wf(),
        m.outstanding.len() + trbs.len() <= m.usable(),
    ensures
        m.enqueue_all(trbs).wf(),
        m.enqueue_all(trbs).capacity() == m.capacity(),
        m.enqueue_all(trbs).dequeue == m.dequeue,
        m.enqueue_all(trbs).outstanding.len() == m.outstanding.len() + trbs.len(),
        forall|k: int|
            0 <= k < m.outstanding.len() ==> #[trigger] m.enqueue_all(trbs).outstanding[k]
                == m.outstanding[k],
    decreases trbs.len(),
{
    if trbs.len() > 0 {
        lemma_enqueue_wf(m, trbs[0]);
        lemma_enqueue_all(m.enqueue(trbs[0]), trbs.skip(1));
        assert forall|k: int| 0 <= k < m.outstanding.len() implies #[trigger] m.enqueue_all(
            trbs,
        ).outstanding[k] == m.outstanding[k] by {
            assert(m.enqueue(trbs[0]).outstanding[k] == m.outstanding[k]);
        }
    }
}

/// Enqueueing a sequence of one block is enqueueing that block.
pub proof fn lemma_enqueue_one(m: RingModel, trb: Trb)
    ensures
        m.enqueue_all(seq![trb]) == m.enqueue(trb),
        m.enqueue_all_stores(seq![trb]) == m.enqueue_stores(trb),
{
    let blocks = seq![trb];
    assert(blocks.skip(1).len() == 0);
    assert(m.enqueue(trb).enqueue_all(blocks.skip(1)) == m.enqueue(trb));
    assert(m.enqueue(trb).enqueue_all_stores(blocks.skip(1)) == Seq::<Access>::empty());
    assert(m.enqueue_all_stores(blocks) =~= m.enqueue_stores(trb));
}

/// A ring without outstanding blocks takes as many blocks as it has usable
/// slots and is full after that, so that one more enqueue is refused.
pub proof fn lemma_fill(m: RingModel, trbs: Seq<Trb>)
    requires
        m.wf(),
        m.outstanding.len() == 0,
        trbs.len() == m.usable(),
    ensures
        m.enqueue_all(trbs).wf(),
        m.enqueue_all(trbs).full(),
{
    lemma_enqueue_all(m, trbs);
}

/// A block written to a slot is read back from that slot as it was
/// written, with the cycle bit of the pass it was written in, for as long
/// as the controller has not taken it, whatever is enqueued after it.
pub proof fn lemma_round_trip(m: RingModel, trb: Trb, more: Seq<Trb>)
    requires
        m.wf(),
        m.outstanding.len() + 1 + more.len() <= m.usable(),
    ensures
        ({
            let read = m.enqueue(trb).enqueue_all(more).slots[m.enqueue];
            &&& read == trb.with_cycle_bit(m.cycle)
            &&& read.cycle_bit() == m.cycle
            &&& read.parameter == trb.parameter
            &&& read.status == trb.status
            &&& read.trb_type() == trb.trb_type()
        }),
{
    let first = m.enqueue(trb);
    let last = first.enqueue_all(more);
    let n = m.outstanding.len() as int;
    lemma_enqueue_wf(m, trb);
    lemma_enqueue_all(first, more);
    assert(last.outstanding[n] == first.outstanding[n]);
    assert(last.slots[last.slot_of(n)] == last.outstanding[n]);
    assert(last.slot_of(n) == m.slot_of(n));
    lemma_with_cycle_bit(trb, m.cycle);
}

/// What [`RingModel::position_of`] finds is the outstanding block at the
/// address asked for, and it finds every such block.
pub proof fn lemma_position_of(m: RingModel, pointer: u64, k: int)
    requires
        m.wf(),
    ensures
        m.position_of(pointer) == Some(k) <==> 0 <= k < m.outstanding.len() && pointer
            == m.slot_addr(m.slot_of(k)),
{
}

/// Releasing outstanding blocks gives a ring in order in which the blocks
/// that stay are still in their slots.
pub proof fn lemma_release_wf(m: RingModel, count: int)
    requires
        m.wf(),
        0 <= count <= m.outstanding.len(),
    ensures
        m.release(count).wf(),
        m.release(count).outstanding.len() == m.outstanding.len() - count,
{
    let after = m.release(count);
    assert forall|k: int| 0 <= k < after.outstanding.len() implies after.slots[after.slot_of(k)]
        == #[trigger] after.outstanding[k] by {
        assert(m.slots[m.slot_of(count + k)] == m.outstanding[count + k]);
        assert(after.slot_of(k) == m.slot_of(count + k));
    }
}

/// A command ring or a transfer ring: a fixed number of slots that the
/// driver fills in a circle and the controller empties behind it.
pub struct Ring {
    slots: Vec<Trb>,
    base: u64,
    enqueue: usize,
    dequeue: usize,
    pending: usize,
    cycle: bool,
    outstanding: Ghost<Seq<Trb>>,
}

impl View for Ring {
    type V = RingModel;

    closed spec fn view(&self) -> RingModel {
        RingModel {
            slots: self.slots@,
            base: self.base,
            enqueue: self.enqueue as int,
            dequeue: self.dequeue as int,
            outstanding: self.outstanding@,
            cycle: self.cycle,
        }
    }
}

impl Ring {
    /// The ring is in order.
    pub open spec fn wf(&self) -> bool {
        &&& self@.wf()
        &&& self.counted()
    }

    /// The ring's count of outstanding blocks is right.
    pub closed spec fn counted(&self) -> bool {
        self.pending == self.outstanding@.len()
    }

    /// A ring of `capacity` slots, the link slot included, whose first slot
    /// the controller sees at `base`; see [`ring_made`].
    pub fn new(base: u64, capacity: usize) -> (r: PciResult<Ring>)
        ensures
            match ring_made(base, capacity) {
                Ok(model) => r matches Ok(ring) && ring.wf() && ring@ == model,
                Err(e) => r == Err::<Ring, PciError>(e),
            },
    {
        if capacity < 2 || base > usize::MAX as u64 || capacity > (usize::MAX - base as usize) / 16 {
            return Err(PciError::FailedOperateRing(RingReason::TooSmall { capacity }));
        }
        if base % 64 != 0 {
            return Err(
                PciError::FailedAllocate(AllocateReason::NotAlignedAddress { expect_align_size: 64 }),
            );
        }
        let mut slots: Vec<Trb> = Vec::new();
        let mut i: usize = 0;
        while i < capacity
            invariant
                i <= capacity,
                slots@ == Seq::new(i as nat, |i: int| Trb { parameter: 0, status: 0, control: 0 }),
            decreases capacity - i,
        {
            slots.push(Trb { parameter: 0, status: 0, control: 0 });
            i = i + 1;
            assert(slots@ =~= Seq::new(
                i as nat,
                |i: int| Trb { parameter: 0, status: 0, control: 0 },
            ));
        }
        Ok(
            Ring {
                slots,
                base,
                enqueue: 0,
                dequeue: 0,
                pending: 0,
                cycle: true,
                outstanding: Ghost(Seq::empty()),
            },
        )
    }

    /// The number of slots, the link slot included.
    pub fn capacity(&self) -> (capacity: usize)
        ensures
            capacity == self@.capacity(),
    {
        self.slots.len()
    }

    /// The address of the first slot.
    pub fn base(&self) -> (base: u64)
        ensures
            base == self@.base,
    {
        self.base
    }

    /// The cycle bit that the next block is written with.
    pub fn cycle_state(&self) -> (cycle: bool)
        ensures
            cycle == self@.cycle,
    {
        self.cycle
    }

    /// The number of blocks the controller has not yet been seen to take.
    pub fn pending(&self) -> (pending: usize)
        requires
            self.wf(),
        ensures
            pending == self@.outstanding.len(),
    {
        self.pending
    }

    /// The block in the slot `index`, or `None` where the ring has no such
    /// slot.
    pub fn read(&self, index: usize) -> (trb: Option<Trb>)
        ensures
            index < self@.capacity() ==> trb == Some(self@.slots[index as int]),
            index >= self@.capacity() ==> trb is None,
    {
        if index < self.slots.len() {
            Some(self.slots[index])
        } else {
            None
        }
    }

    /// The number of blocks the ring can take before it is full.
    pub fn free_slots(&self) -> (free: usize)
        requires
            self.wf(),
        ensures
            free == self@.free(),
    {
        self.slots.len() - 1 - self.pending
    }

    /// The block at the address `pointer`, or `None` where that is not the
    /// address of a slot of this ring.
    pub fn trb_at(&self, pointer: u64) -> (trb: Option<Trb>)
        requires
            self.wf(),
        ensures
            trb == self@.at_pointer(pointer),
    {
        if pointer < self.base {
            return None;
        }
        let offset: u64 = pointer - self.base;
        if offset % 16 != 0 || offset / 16 >= self.slots.len() as u64 {
            return None;
        }
        let index: usize = (offset / 16) as usize;
        Some(self.slots[index])
    }

    /// Writes `trb` to the next free slot, stamped with the cycle bit of
    /// this pass, and returns the address of that slot.
    ///
    /// A full ring refuses the block with `Full` and stays as it is: a slot
    /// the controller has not taken is never written to. See
    /// [`RingModel::enqueue`] for what becomes of the ring otherwise.
    pub fn enqueue<M: VolatileMemory>(&mut self, mem: &mut M, trb: Trb) -> (r: PciResult<u64>)
        requires
            old(self).wf(),
        ensures
            final(self).wf(),
            old(self)@.full() ==> r == Err::<u64, PciError>(ring_full()) && final(self)@ == old(self)@
                && final(mem).history() == old(mem).history(),
            !old(self)@.full() ==> r == Ok::<u64, PciError>(
                old(self)@.slot_addr(old(self)@.enqueue) as u64,
            ) && final(self)@ == old(self)@.enqueue(trb) && final(mem).history() == old(mem).history()
                + old(self)@.enqueue_stores(trb),
    {
        let usable: usize = self.slots.len() - 1;
        if self.pending == usable {
            return Err(PciError::FailedOperateRing(RingReason::Full));
        }
        proof {
            lemma_enqueue_wf(self@, trb);
        }
        let stamped = trb.with_cycle_bit(self.cycle);
        let index: usize = self.enqueue;
        let addr: u64 = self.base + 16 * (index as u64);
        self.slots.set(index, stamped);
        self.pending = self.pending + 1;
        proof {
            self.outstanding@ = self.outstanding@.push(stamped);
        }
        store_trb(mem, addr as usize, stamped);
        if index == usable - 1 {
            let link = Trb::link(self.base, true).with_cycle_bit(self.cycle);
            self.slots.set(usable, link);
            let ghost stored = mem.history();
            store_trb(mem, (self.base + 16 * (usable as u64)) as usize, link);
            proof {
                let block = trb_stores(addr as int, stamped);
                let linked = trb_stores(old(self)@.slot_addr(usable as int), link);
                assert(mem.history() =~= old(mem).history() + (block + linked));
            }
            self.cycle = !self.cycle;
            self.enqueue = 0;
        } else {
            self.enqueue = index + 1;
        }
        Ok(addr)
    }

    /// Notes that the controller has taken the block at the address
    /// `trb_pointer` and, since it takes them in order, all outstanding
    /// blocks before it. Returns how many blocks that were.
    ///
    /// A pointer that is not the address of an outstanding block is refused
    /// with `NothingPending` and the ring stays as it is.
    pub fn acknowledge(&mut self, trb_pointer: u64) -> (r: PciResult<usize>)
        requires
            old(self).wf(),
        ensures
            final(self).wf(),
            match old(self)@.position_of(trb_pointer) {
                Some(k) => r == Ok::<usize, PciError>((k + 1) as usize) && final(self)@ == old(self)@.release(k + 1),
                None => r == Err::<usize, PciError>(nothing_pending()) && final(self)@ == old(self)@,
            },
    {
        let usable: usize = self.slots.len() - 1;
        if trb_pointer < self.base {
            return Err(PciError::FailedOperateRing(RingReason::NothingPending));
        }
        let offset: u64 = trb_pointer - self.base;
        if offset % 16 != 0 || offset / 16 >= usable as u64 {
            return Err(PciError::FailedOperateRing(RingReason::NothingPending));
        }
        let slot: usize = (offset / 16) as usize;
        let k: usize = if slot >= self.dequeue {
            slot - self.dequeue
        } else {
            usable - self.dequeue + slot
        };
        if k >= self.pending {
            return Err(PciError::FailedOperateRing(RingReason::NothingPending));
        }
        proof {
            lemma_release_wf(self@, k + 1);
        }
        let count: usize = k + 1;
        self.dequeue = if count < usable - self.dequeue {
            self.dequeue + count
        } else {
            count - (usable - self.dequeue)
        };
        self.pending = self.pending - count;
        proof {
            self.outstanding@ = self.outstanding@.skip(count as int);
        }
        Ok(count)
    }
}

} // verus!
