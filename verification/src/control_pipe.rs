use vstd::prelude::*;

use crate::error::PciError;
use crate::error::PciResult;
use crate::error::RingReason;
use crate::registers::doorbell::ring_access;
use crate::registers::doorbell::Doorbell;
use crate::registers::doorbell::TARGET_CONTROL_ENDPOINT;
use crate::ring::lemma_enqueue_wf;
use crate::ring::ring_full;
use crate::ring::Ring;
use crate::ring::RingModel;
use crate::trb::SetupData;
use crate::trb::Trb;
use crate::volatile::Access;
use crate::volatile::VolatileMemory;

verus! {

/// The standard request that reads a descriptor.
pub const REQUEST_GET_DESCRIPTOR: u8 = 6;

/// The standard request that selects a configuration.
pub const REQUEST_SET_CONFIGURATION: u8 = 9;

/// The class request that selects the protocol of a HID interface.
pub const REQUEST_SET_PROTOCOL: u8 = 11;

/// The transfer type of a setup stage that no data stage follows.
pub const TRANSFER_NO_DATA: u8 = 0;

/// The transfer type of a setup stage that a data stage towards the
/// device follows.
pub const TRANSFER_OUT_DATA: u8 = 2;

/// The transfer type of a setup stage that a data stage towards the host
/// follows.
pub const TRANSFER_IN_DATA: u8 = 3;

/// A request on the default control pipe.
#[derive(Debug, Clone, Copy, PartialEq, Eq, Structural)]
pub struct Request {
    pub setup: SetupData,
}

impl Request {
    /// The request that selects the configuration `config_value`.
    pub open spec fn spec_configuration(config_value: u16) -> Request {
        Request {
            setup: SetupData { request_type: 0, request: 9, value: config_value, index: 0, length: 0 },
        }
    }

    /// The request that reads `length` bytes of the descriptor with the
    /// given type and index.
    pub open spec fn spec_get_descriptor(descriptor_type: u8, descriptor_index: u8, length: u16)
        -> Request {
        Request {
            setup: SetupData {
                request_type: 0x80,
                request: 6,
                value: (256 * descriptor_type + descriptor_index) as u16,
                index: 0,
                length,
            },
        }
    }

    /// The request that puts the HID interface `interface` into the boot
    /// protocol (`protocol` 0) or the report protocol (`protocol` 1).
    pub open spec fn spec_set_protocol(interface: u16, protocol: u16) -> Request {
        Request {
            setup: SetupData {
                request_type: 0x21,
                request: 11,
                value: protocol,
                index: interface,
                length: 0,
            },
        }
    }

    #[verifier::when_used_as_spec(spec_configuration)]
    pub fn configuration(config_value: u16) -> (request: Request)
        ensures
            request == Self::spec_configuration(config_value),
    {
        Request {
            setup: SetupData {
                request_type: 0,
                request: REQUEST_SET_CONFIGURATION,
                value: config_value,
                index: 0,
                length: 0,
            },
        }
    }

    #[verifier::when_used_as_spec(spec_get_descriptor)]
    pub fn get_descriptor(descriptor_type: u8, descriptor_index: u8, length: u16) -> (request:
        Request)
        ensures
            request == Self::spec_get_descriptor(descriptor_type, descriptor_index, length),
    {
        Request {
            setup: SetupData {
                request_type: 0x80,
                request: REQUEST_GET_DESCRIPTOR,
                value: 256 * (descriptor_type as u16) + descriptor_index as u16,
                index: 0,
                length,
            },
        }
    }

    #[verifier::when_used_as_spec(spec_set_protocol)]
    pub fn set_protocol(interface: u16, protocol: u16) -> (request: Request)
        ensures
            request == Self::spec_set_protocol(interface, protocol),
    {
        Request {
            setup: SetupData {
                request_type: 0x21,
                request: REQUEST_SET_PROTOCOL,
                value: protocol,
                index: interface,
                length: 0,
            },
        }
    }
}

/// The blocks of a control transfer without a data stage: the setup stage
/// and a status stage that raises the completion event.
pub open spec fn no_data_transfer(request: Request) -> Seq<Trb> {
    seq![Trb::setup_stage(request.setup, 0), Trb::status_stage(true, true)]
}

/// The blocks of a control transfer that reads `length` bytes into the
/// buffer at `buffer_addr`: the setup stage, a data stage that raises the
/// completion event, and the status stage.
pub open spec fn in_data_transfer(request: Request, buffer_addr: u64, length: u16) -> Seq<Trb> {
    seq![
        Trb::setup_stage(request.setup, 3),
        Trb::data_stage(buffer_addr, length as u32, true, true),
        Trb::status_stage(false, false),
    ]
}

/// The blocks of a control transfer that writes `length` bytes from the
/// buffer at `buffer_addr`: the setup stage, the data stage, and a status
/// stage that raises the completion event.
pub open spec fn out_data_transfer(request: Request, buffer_addr: u64, length: u16) -> Seq<Trb> {
    seq![
        Trb::setup_stage(request.setup, 2),
        Trb::data_stage(buffer_addr, length as u32, false, false),
        Trb::status_stage(true, true),
    ]
}

/// The accesses that start a transfer of the blocks `blocks` on `ring`: the
/// stores that put the blocks into the ring, and after them the store that
/// rings the doorbell at `doorbell` for `target`.
pub open spec fn transfer_accesses(ring: RingModel, blocks: Seq<Trb>, doorbell: usize, target: u8)
    -> Seq<Access> {
    ring.enqueue_all_stores(blocks).push(ring_access(doorbell, target, 0))
}

/// The default control pipe of a device: the transfer ring of its endpoint
/// zero together with the doorbell of its slot.
pub struct ControlPipe {
    doorbell: Doorbell,
    ring: Ring,
}

impl ControlPipe {
    pub closed spec fn spec_doorbell(&self) -> Doorbell {
        self.doorbell
    }

    /// The transfer ring of the pipe.
    pub closed spec fn ring(&self) -> RingModel {
        self.ring@
    }

    /// The pipe is in order.
    pub open spec fn wf(&self) -> bool {
        &&& self.ring().wf()
        &&& self.counted()
    }

    /// The ring's count of outstanding blocks is right.
    pub closed spec fn counted(&self) -> bool {
        self.ring.counted()
    }

    /// A pipe over `ring` that rings `doorbell`.
    pub fn new(doorbell: Doorbell, ring: Ring) -> (pipe: Self)
        requires
            ring.wf(),
        ensures
            pipe.wf(),
            pipe.doorbell() == doorbell,
            pipe.ring() == ring@,
    {
        ControlPipe { doorbell, ring }
    }

    #[verifier::when_used_as_spec(spec_doorbell)]
    pub fn doorbell(&self) -> (doorbell: Doorbell)
        ensures
            doorbell == self.spec_doorbell(),
    {
        self.doorbell
    }

    /// The block at the address `pointer` of the pipe's ring; see
    /// [`Ring::trb_at`].
    pub fn trb_at(&self, pointer: u64) -> (trb: Option<Trb>)
        requires
            self.wf(),
        ensures
            trb == self.ring().at_pointer(pointer),
    {
        self.ring.trb_at(pointer)
    }

    /// Notes that the controller has taken the blocks up to the one at
    /// `pointer`; see [`Ring::acknowledge`].
    pub fn acknowledge(&mut self, pointer: u64) -> (r: PciResult<usize>)
        requires
            old(self).wf(),
        ensures
            final(self).wf(),
            final(self).doorbell() == old(self).doorbell(),
            match old(self).ring().position_of(pointer) {
                Some(k) => r == Ok::<usize, PciError>((k + 1) as usize) && final(self).ring()
                    == old(self).ring().release(k + 1),
                None => {
                    &&& r == Err::<usize, PciError>(crate::ring::nothing_pending())
                    &&& final(self).ring() == old(self).ring()
                },
            },
    {
        self.ring.acknowledge(pointer)
    }

    /// Starts a control transfer without a data stage.
    ///
    /// The two blocks of [`no_data_transfer`] are enqueued and the doorbell
    /// is rung for the control endpoint. Where the ring has no room for both
    /// blocks, neither is enqueued, the doorbell is not rung and the call
    /// fails with `Full`. Returns the address of the status stage, which is
    /// the block the completion event points at.
    pub fn control_out_no_data<M: VolatileMemory>(&mut self, mem: &mut M, request: Request) -> (r:
        PciResult<u64>)
        requires
            old(self).wf(),
        ensures
            final(self).wf(),
            final(self).doorbell() == old(self).doorbell(),
            old(self).ring().free() < 2 ==> r == Err::<
                u64,
                PciError,
            >(ring_full()) && final(self).ring() == old(self).ring() && final(mem).history() == old(mem).history(),
            old(self).ring().free() >= 2 ==> {
                let first = old(self).ring().enqueue(no_data_transfer(request)[0]);
                &&& final(self).ring() == first.enqueue(no_data_transfer(request)[1])
                &&& final(self).ring() == old(self).ring().enqueue_all(no_data_transfer(request))
                &&& r == Ok::<u64, PciError>(first.slot_addr(first.enqueue) as u64)
                &&& final(mem).history() == old(mem).history() + transfer_accesses(
                    old(self).ring(),
                    no_data_transfer(request),
                    old(self).doorbell().addr(),
                    1,
                )
            },
    {
        if self.ring.free_slots() < 2 {
            return Err(PciError::FailedOperateRing(RingReason::Full));
        }
        let ghost start = self.ring@;
        let setup = Trb::setup_stage(request.setup, TRANSFER_NO_DATA);
        let status = Trb::status_stage(true, true);
        proof {
            lemma_enqueue_wf(start, setup);
            lemma_unfold_two(start, no_data_transfer(request));
        }
        let _ = self.ring.enqueue(mem, setup);
        let r = self.ring.enqueue(mem, status);
        self.doorbell.notify(mem, TARGET_CONTROL_ENDPOINT, 0);
        proof {
            let blocks = no_data_transfer(request);
            let first = start.enqueue_stores(setup);
            let second = start.enqueue(setup).enqueue_stores(status);
            assert(start.enqueue_all_stores(blocks) =~= first + second);
            assert(mem.history() =~= old(mem).history() + transfer_accesses(
                start,
                blocks,
                self.doorbell.addr(),
                1,
            ));
        }
        r
    }

    /// Starts a control transfer that writes `length` bytes from the buffer
    /// at `buffer_addr`.
    ///
    /// The three blocks of [`out_data_transfer`] are enqueued and the
    /// doorbell is rung for the control endpoint. Where the ring has no room
    /// for all three, none is enqueued, the doorbell is not rung and the
    /// call fails with `Full`. Returns the address of the status stage,
    /// which is the block the completion event points at.
    pub fn control_out_with_data<M: VolatileMemory>(
        &mut self,
        mem: &mut M,
        request: Request,
        buffer_addr: u64,
        length: u16,
    ) -> (r: PciResult<u64>)
        requires
            old(self).wf(),
        ensures
            final(self).wf(),
            final(self).doorbell() == old(self).doorbell(),
            old(self).ring().free() < 3 ==> r == Err::<
                u64,
                PciError,
            >(ring_full()) && final(self).ring() == old(self).ring() && final(mem).history() == old(mem).history(),
            old(self).ring().free() >= 3 ==> {
                let blocks = out_data_transfer(request, buffer_addr, length);
                let second = old(self).ring().enqueue(blocks[0]).enqueue(blocks[1]);
                &&& final(self).ring() == second.enqueue(blocks[2])
                &&& final(self).ring() == old(self).ring().enqueue_all(blocks)
                &&& r == Ok::<u64, PciError>(second.slot_addr(second.enqueue) as u64)
                &&& final(mem).history() == old(mem).history() + transfer_accesses(
                    old(self).ring(),
                    blocks,
                    old(self).doorbell().addr(),
                    1,
                )
            },
    {
        if self.ring.free_slots() < 3 {
            return Err(PciError::FailedOperateRing(RingReason::Full));
        }
        let ghost start = self.ring@;
        let setup = Trb::setup_stage(request.setup, TRANSFER_OUT_DATA);
        let data = Trb::data_stage(buffer_addr, length as u32, false, false);
        let status = Trb::status_stage(true, true);
        proof {
            lemma_enqueue_wf(start, setup);
            lemma_enqueue_wf(start.enqueue(setup), data);
            lemma_unfold_three(start, out_data_transfer(request, buffer_addr, length));
        }
        let _ = self.ring.enqueue(mem, setup);
        let _ = self.ring.enqueue(mem, data);
        let r = self.ring.enqueue(mem, status);
        self.doorbell.notify(mem, TARGET_CONTROL_ENDPOINT, 0);
        proof {
            let blocks = out_data_transfer(request, buffer_addr, length);
            let first = start.enqueue_stores(setup);
            let second = start.enqueue(setup).enqueue_stores(data);
            let third = start.enqueue(setup).enqueue(data).enqueue_stores(status);
            assert(start.enqueue_all_stores(blocks) =~= first + second + third);
            assert(mem.history() =~= old(mem).history() + transfer_accesses(
                start,
                blocks,
                self.doorbell.addr(),
                1,
            ));
        }
        r
    }

    /// Starts a control transfer that reads `length` bytes into the buffer
    /// at `buffer_addr`.
    ///
    /// The three blocks of [`in_data_transfer`] are enqueued and the
    /// doorbell is rung for the control endpoint. Where the ring has no room
    /// for all three, none is enqueued, the doorbell is not rung and the
    /// call fails with `Full`. Returns the address of the data stage, which
    /// is the block the completion event points at.
    pub fn control_in_with_data<M: VolatileMemory>(
        &mut self,
        mem: &mut M,
        request: Request,
        buffer_addr: u64,
        length: u16,
    ) -> (r: PciResult<u64>)
        requires
            old(self).wf(),
        ensures
            final(self).wf(),
            final(self).doorbell() == old(self).doorbell(),
            old(self).ring().free() < 3 ==> r == Err::<
                u64,
                PciError,
            >(ring_full()) && final(self).ring() == old(self).ring() && final(mem).history() == old(mem).history(),
            old(self).ring().free() >= 3 ==> {
                let blocks = in_data_transfer(request, buffer_addr, length);
                let first = old(self).ring().enqueue(blocks[0]);
                &&& final(self).ring() == first.enqueue(blocks[1]).enqueue(blocks[2])
                &&& final(self).ring() == old(self).ring().enqueue_all(blocks)
                &&& r == Ok::<u64, PciError>(first.slot_addr(first.enqueue) as u64)
                &&& final(mem).history() == old(mem).history() + transfer_accesses(
                    old(self).ring(),
                    blocks,
                    old(self).doorbell().addr(),
                    1,
                )
            },
    {
        if self.ring.free_slots() < 3 {
            return Err(PciError::FailedOperateRing(RingReason::Full));
        }
        let ghost start = self.ring@;
        let setup = Trb::setup_stage(request.setup, TRANSFER_IN_DATA);
        let data = Trb::data_stage(buffer_addr, length as u32, true, true);
        let status = Trb::status_stage(false, false);
        proof {
            lemma_enqueue_wf(start, setup);
            lemma_enqueue_wf(start.enqueue(setup), data);
            lemma_unfold_three(start, in_data_transfer(request, buffer_addr, length));
        }
        let _ = self.ring.enqueue(mem, setup);
        let r = self.ring.enqueue(mem, data);
        let _ = self.ring.enqueue(mem, status);
        self.doorbell.notify(mem, TARGET_CONTROL_ENDPOINT, 0);
        proof {
            let blocks = in_data_transfer(request, buffer_addr, length);
            let first = start.enqueue_stores(setup);
            let second = start.enqueue(setup).enqueue_stores(data);
            let third = start.enqueue(setup).enqueue(data).enqueue_stores(status);
            assert(start.enqueue_all_stores(blocks) =~= first + second + third);
            assert(mem.history() =~= old(mem).history() + transfer_accesses(
                start,
                blocks,
                self.doorbell.addr(),
                1,
            ));
        }
        r
    }
}

proof fn lemma_unfold_two(m: RingModel, blocks: Seq<Trb>)
    requires
        blocks.len() == 2,
    ensures
        m.enqueue_all(blocks) == m.enqueue(blocks[0]).enqueue(blocks[1]),
        m.enqueue_all_stores(blocks) =~= m.enqueue_stores(blocks[0]) + m.enqueue(
            blocks[0],
        ).enqueue_stores(blocks[1]),
{
    let rest = blocks.skip(1);
    assert(rest.len() == 1 && rest[0] == blocks[1]);
    assert(rest.skip(1).len() == 0);
    let first = m.enqueue(blocks[0]);
    assert(first.enqueue_all(rest) == first.enqueue(rest[0]).enqueue_all(rest.skip(1)));
    assert(first.enqueue_all_stores(rest) =~= first.enqueue_stores(rest[0]) + first.enqueue(
        rest[0],
    ).enqueue_all_stores(rest.skip(1)));
}

proof fn lemma_unfold_three(m: RingModel, blocks: Seq<Trb>)
    requires
        blocks.len() == 3,
    ensures
        m.enqueue_all(blocks) == m.enqueue(blocks[0]).enqueue(blocks[1]).enqueue(blocks[2]),
        m.enqueue_all_stores(blocks) =~= m.enqueue_stores(blocks[0]) + m.enqueue(
            blocks[0],
        ).enqueue_stores(blocks[1]) + m.enqueue(blocks[0]).enqueue(blocks[1]).enqueue_stores(
            blocks[2],
        ),
{
    let rest = blocks.skip(1);
    assert(rest.len() == 2 && rest[0] == blocks[1] && rest[1] == blocks[2]);
    lemma_unfold_two(m.enqueue(blocks[0]), rest);
}

} // verus!
