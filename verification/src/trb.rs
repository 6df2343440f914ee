use vstd::prelude::*;

verus! {

/// The size of a transfer request block in bytes.
pub const TRB_BYTES: u64 = 16;

pub const TYPE_NORMAL: u8 = 1;

pub const TYPE_SETUP_STAGE: u8 = 2;

pub const TYPE_DATA_STAGE: u8 = 3;

pub const TYPE_STATUS_STAGE: u8 = 4;

pub const TYPE_LINK: u8 = 6;

pub const TYPE_ENABLE_SLOT: u8 = 9;

pub const TYPE_ADDRESS_DEVICE: u8 = 11;

pub const TYPE_CONFIGURE_ENDPOINT: u8 = 12;

pub const TYPE_NO_OP_COMMAND: u8 = 23;

pub const TYPE_TRANSFER_EVENT: u8 = 32;

pub const TYPE_COMMAND_COMPLETION: u8 = 33;

pub const TYPE_PORT_STATUS_CHANGE: u8 = 34;

/// The completion code of an operation that succeeded.
pub const COMPLETION_SUCCESS: u8 = 1;

/// The completion code of a transfer that moved fewer bytes than asked for.
pub const COMPLETION_SHORT_PACKET: u8 = 13;

/// A transfer request block: the 16-byte record that the driver and the
/// controller pass to each other through the rings.
///
/// The first eight bytes are the parameter, the next four the status and
/// the last four the control word. Bit 0 of the control word is the cycle
/// bit, bits 10 to 15 are the type.
#[derive(Debug, Clone, Copy, PartialEq, Eq, Structural)]
pub struct Trb {
    pub parameter: u64,
    pub status: u32,
    pub control: u32,
}

/// The eight bytes a control transfer begins with.
#[derive(Debug, Clone, Copy, PartialEq, Eq, Structural)]
pub struct SetupData {
    pub request_type: u8,
    pub request: u8,
    pub value: u16,
    pub index: u16,
    pub length: u16,
}

impl Trb {
    /// The cycle bit, by which the consumer of a ring tells the blocks
    /// written in this pass from those left over from the one before.
    pub open spec fn spec_cycle_bit(self) -> bool {
        self.control & 1 == 1
    }

    /// The type of the block.
    pub open spec fn spec_trb_type(self) -> u8 {
        ((self.control >> 10) & 0x3f) as u8
    }

    /// The block with the cycle bit replaced by `cycle`.
    pub open spec fn spec_with_cycle_bit(self, cycle: bool) -> Trb {
        Trb {
            parameter: self.parameter,
            status: self.status,
            control: (self.control & 0xffff_fffe) | (if cycle {
                1u32
            } else {
                0u32
            }),
        }
    }

    /// Bit 1 of the control word, which in a link block tells the
    /// controller to toggle its cycle state.
    pub open spec fn spec_toggle_cycle(self) -> bool {
        self.control & 2 == 2
    }

    /// The four little-endian words of the block as they lie in memory.
    pub open spec fn spec_words(self) -> [u32; 4] {
        [
            (self.parameter & 0xffff_ffff) as u32,
            (self.parameter >> 32) as u32,
            self.status,
            self.control,
        ]
    }

    /// The block whose words in memory are `words`.
    pub open spec fn spec_from_words(words: [u32; 4]) -> Trb {
        Trb {
            parameter: (words[0] as u64) | ((words[1] as u64) << 32),
            status: words[2],
            control: words[3],
        }
    }

    /// A link block, which sends the controller on to the ring segment at
    /// `segment_addr` and, with `toggle_cycle`, makes it toggle its cycle
    /// state there.
    pub open spec fn spec_link(segment_addr: u64, toggle_cycle: bool) -> Trb {
        Trb {
            parameter: segment_addr & 0xffff_ffff_ffff_fff0,
            status: 0,
            control: (6u32 << 10) | (if toggle_cycle {
                2u32
            } else {
                0u32
            }),
        }
    }

    /// An enable slot command.
    pub open spec fn spec_enable_slot() -> Trb {
        Trb { parameter: 0, status: 0, control: 9u32 << 10 }
    }

    /// An address device command for the slot `slot_id`, whose input context
    /// lies at `input_context_addr`.
    pub open spec fn spec_address_device(input_context_addr: u64, slot_id: u8) -> Trb {
        Trb {
            parameter: input_context_addr & 0xffff_ffff_ffff_fff0,
            status: 0,
            control: (11u32 << 10) | ((slot_id as u32) << 24),
        }
    }

    /// A configure endpoint command for the slot `slot_id`, whose input
    /// context lies at `input_context_addr`.
    pub open spec fn spec_configure_endpoint(input_context_addr: u64, slot_id: u8) -> Trb {
        Trb {
            parameter: input_context_addr & 0xffff_ffff_ffff_fff0,
            status: 0,
            control: (12u32 << 10) | ((slot_id as u32) << 24),
        }
    }

    /// The setup stage of a control transfer. The eight bytes of `setup`
    /// travel in the parameter itself; `transfer_type` says whether a data
    /// stage follows and in which direction (0 none, 2 out, 3 in).
    pub open spec fn spec_setup_stage(setup: SetupData, transfer_type: u8) -> Trb {
        Trb {
            parameter: (setup.request_type as u64) | ((setup.request as u64) << 8) | ((
            setup.value as u64) << 16) | ((setup.index as u64) << 32) | ((setup.length as u64)
                << 48),
            status: 8,
            control: (2u32 << 10) | (1u32 << 6) | (((transfer_type & 3) as u32) << 16),
        }
    }

    /// The data stage of a control transfer of `length` bytes to or from the
    /// buffer at `buffer_addr`. Lengths are held in 17 bits.
    pub open spec fn spec_data_stage(buffer_addr: u64, length: u32, dir_in: bool, ioc: bool)
        -> Trb {
        Trb {
            parameter: buffer_addr,
            status: length & 0x1_ffff,
            control: (3u32 << 10) | (if dir_in {
                1u32 << 16
            } else {
                0u32
            }) | (if ioc {
                1u32 << 5
            } else {
                0u32
            }),
        }
    }

    /// The status stage of a control transfer.
    pub open spec fn spec_status_stage(dir_in: bool, ioc: bool) -> Trb {
        Trb {
            parameter: 0,
            status: 0,
            control: (4u32 << 10) | (if dir_in {
                1u32 << 16
            } else {
                0u32
            }) | (if ioc {
                1u32 << 5
            } else {
                0u32
            }),
        }
    }

    /// A normal transfer of `length` bytes to or from the buffer at
    /// `buffer_addr`, which raises an event when it completes.
    pub open spec fn spec_normal(buffer_addr: u64, length: u32) -> Trb {
        Trb {
            parameter: buffer_addr,
            status: length & 0x1_ffff,
            control: (1u32 << 10) | (1u32 << 5),
        }
    }

    #[verifier::when_used_as_spec(spec_cycle_bit)]
    pub fn cycle_bit(self) -> (cycle: bool)
        ensures
            cycle == self.spec_cycle_bit(),
    {
        self.control & 1 == 1
    }

    #[verifier::when_used_as_spec(spec_trb_type)]
    pub fn trb_type(self) -> (trb_type: u8)
        ensures
            trb_type == self.spec_trb_type(),
    {
        #[verifier::truncate]
        (((self.control >> 10) & 0x3f) as u8)
    }

    #[verifier::when_used_as_spec(spec_with_cycle_bit)]
    pub fn with_cycle_bit(self, cycle: bool) -> (trb: Trb)
        ensures
            trb == self.spec_with_cycle_bit(cycle),
    {
        Trb {
            parameter: self.parameter,
            status: self.status,
            control: (self.control & 0xffff_fffe) | (if cycle {
                1u32
            } else {
                0u32
            }),
        }
    }

    #[verifier::when_used_as_spec(spec_toggle_cycle)]
    pub fn toggle_cycle(self) -> (toggle: bool)
        ensures
            toggle == self.spec_toggle_cycle(),
    {
        self.control & 2 == 2
    }

    #[verifier::when_used_as_spec(spec_words)]
    pub fn words(self) -> (words: [u32; 4])
        ensures
            words == self.spec_words(),
    {
        [
            #[verifier::truncate]
            ((self.parameter & 0xffff_ffff) as u32),
            #[verifier::truncate]
            ((self.parameter >> 32) as u32),
            self.status,
            self.control,
        ]
    }

    #[verifier::when_used_as_spec(spec_from_words)]
    pub fn from_words(words: [u32; 4]) -> (trb: Trb)
        ensures
            trb == Self::spec_from_words(words),
    {
        Trb {
            parameter: (words[0] as u64) | ((words[1] as u64) << 32),
            status: words[2],
            control: words[3],
        }
    }

    #[verifier::when_used_as_spec(spec_link)]
    pub fn link(segment_addr: u64, toggle_cycle: bool) -> (trb: Trb)
        ensures
            trb == Self::spec_link(segment_addr, toggle_cycle),
    {
        Trb {
            parameter: segment_addr & 0xffff_ffff_ffff_fff0,
            status: 0,
            control: (6u32 << 10) | (if toggle_cycle {
                2u32
            } else {
                0u32
            }),
        }
    }

    #[verifier::when_used_as_spec(spec_enable_slot)]
    pub fn enable_slot() -> (trb: Trb)
        ensures
            trb == Self::spec_enable_slot(),
    {
        Trb { parameter: 0, status: 0, control: 9u32 << 10 }
    }

    #[verifier::when_used_as_spec(spec_address_device)]
    pub fn address_device(input_context_addr: u64, slot_id: u8) -> (trb: Trb)
        ensures
            trb == Self::spec_address_device(input_context_addr, slot_id),
    {
        Trb {
            parameter: input_context_addr & 0xffff_ffff_ffff_fff0,
            status: 0,
            control: (11u32 << 10) | ((slot_id as u32) << 24),
        }
    }

    #[verifier::when_used_as_spec(spec_configure_endpoint)]
    pub fn configure_endpoint(input_context_addr: u64, slot_id: u8) -> (trb: Trb)
        ensures
            trb == Self::spec_configure_endpoint(input_context_addr, slot_id),
    {
        Trb {
            parameter: input_context_addr & 0xffff_ffff_ffff_fff0,
            status: 0,
            control: (12u32 << 10) | ((slot_id as u32) << 24),
        }
    }

    #[verifier::when_used_as_spec(spec_setup_stage)]
    pub fn setup_stage(setup: SetupData, transfer_type: u8) -> (trb: Trb)
        ensures
            trb == Self::spec_setup_stage(setup, transfer_type),
    {
        Trb {
            parameter: (setup.request_type as u64) | ((setup.request as u64) << 8) | ((
            setup.value as u64) << 16) | ((setup.index as u64) << 32) | ((setup.length as u64)
                << 48),
            status: 8,
            control: (2u32 << 10) | (1u32 << 6) | (((transfer_type & 3) as u32) << 16),
        }
    }

    #[verifier::when_used_as_spec(spec_data_stage)]
    pub fn data_stage(buffer_addr: u64, length: u32, dir_in: bool, ioc: bool) -> (trb: Trb)
        ensures
            trb == Self::spec_data_stage(buffer_addr, length, dir_in, ioc),
    {
        Trb {
            parameter: buffer_addr,
            status: length & 0x1_ffff,
            control: (3u32 << 10) | (if dir_in {
                1u32 << 16
            } else {
                0u32
            }) | (if ioc {
                1u32 << 5
            } else {
                0u32
            }),
        }
    }

    #[verifier::when_used_as_spec(spec_status_stage)]
    pub fn status_stage(dir_in: bool, ioc: bool) -> (trb: Trb)
        ensures
            trb == Self::spec_status_stage(dir_in, ioc),
    {
        Trb {
            parameter: 0,
            status: 0,
            control: (4u32 << 10) | (if dir_in {
                1u32 << 16
            } else {
                0u32
            }) | (if ioc {
                1u32 << 5
            } else {
                0u32
            }),
        }
    }

    #[verifier::when_used_as_spec(spec_normal)]
    pub fn normal(buffer_addr: u64, length: u32) -> (trb: Trb)
        ensures
            trb == Self::spec_normal(buffer_addr, length),
    {
        Trb { parameter: buffer_addr, status: length & 0x1_ffff, control: (1u32 << 10) | (1u32 << 5) }
    }
}


/// What the controller reports through the event ring.
#[derive(Debug, Clone, Copy, PartialEq, Eq, Structural)]
pub enum Event {
    /// A transfer on an endpoint of a device has completed.
    Transfer {
        /// The address of the block that completed.
        trb_pointer: u64,
        /// The number of bytes asked for that were not transferred.
        residual_length: u32,
        completion_code: u8,
        endpoint_id: u8,
        slot_id: u8,
    },
    /// A command on the command ring has completed.
    CommandCompletion { command_trb_pointer: u64, completion_code: u8, slot_id: u8 },
    /// A root hub port has changed its state.
    PortStatusChange { port_id: u8, completion_code: u8 },
    /// An event the driver does not handle.
    NotSupport { trb_type: u8 },
}

impl Event {
    /// The event that the block `trb` reports.
    pub open spec fn spec_decode(trb: Trb) -> Event {
        let trb_type = trb.spec_trb_type();
        if trb_type == 32 {
            Event::Transfer {
                trb_pointer: trb.parameter,
                residual_length: trb.status & 0xff_ffff,
                completion_code: (trb.status >> 24) as u8,
                endpoint_id: ((trb.control >> 16) & 0x1f) as u8,
                slot_id: (trb.control >> 24) as u8,
            }
        } else if trb_type == 33 {
            Event::CommandCompletion {
                command_trb_pointer: trb.parameter,
                completion_code: (trb.status >> 24) as u8,
                slot_id: (trb.control >> 24) as u8,
            }
        } else if trb_type == 34 {
            Event::PortStatusChange {
                port_id: ((trb.parameter >> 24) & 0xff) as u8,
                completion_code: (trb.status >> 24) as u8,
            }
        } else {
            Event::NotSupport { trb_type }
        }
    }

    /// The block, with a cycle bit of zero, by which a controller reports
    /// this event.
    pub open spec fn spec_encode(self) -> Trb {
        match self {
            Event::Transfer {
                trb_pointer,
                residual_length,
                completion_code,
                endpoint_id,
                slot_id,
            } => Trb {
                parameter: trb_pointer,
                status: (residual_length & 0xff_ffff) | ((completion_code as u32) << 24),
                control: (32u32 << 10) | (((endpoint_id & 0x1f) as u32) << 16) | ((slot_id as u32)
                    << 24),
            },
            Event::CommandCompletion { command_trb_pointer, completion_code, slot_id } => Trb {
                parameter: command_trb_pointer,
                status: (completion_code as u32) << 24,
                control: (33u32 << 10) | ((slot_id as u32) << 24),
            },
            Event::PortStatusChange { port_id, completion_code } => Trb {
                parameter: (port_id as u64) << 24,
                status: (completion_code as u32) << 24,
                control: 34u32 << 10,
            },
            Event::NotSupport { trb_type } => Trb {
                parameter: 0,
                status: 0,
                control: ((trb_type & 0x3f) as u32) << 10,
            },
        }
    }

    /// The event uses only the bits its block has room for, and an event
    /// that is not handled is of none of the types that are.
    pub open spec fn wf(self) -> bool {
        match self {
            Event::Transfer { residual_length, endpoint_id, .. } => residual_length <= 0xff_ffff
                && endpoint_id <= 0x1f,
            Event::NotSupport { trb_type } => trb_type <= 0x3f && trb_type != 32 && trb_type != 33
                && trb_type != 34,
            _ => true,
        }
    }

    #[verifier::when_used_as_spec(spec_decode)]
    pub fn decode(trb: Trb) -> (event: Event)
        ensures
            event == Self::spec_decode(trb),
    {
        let trb_type = trb.trb_type();
        if trb_type == 32 {
            Event::Transfer {
                trb_pointer: trb.parameter,
                residual_length: trb.status & 0xff_ffff,
                completion_code: #[verifier::truncate]
                ((trb.status >> 24) as u8),
                endpoint_id: #[verifier::truncate]
                (((trb.control >> 16) & 0x1f) as u8),
                slot_id: #[verifier::truncate]
                ((trb.control >> 24) as u8),
            }
        } else if trb_type == 33 {
            Event::CommandCompletion {
                command_trb_pointer: trb.parameter,
                completion_code: #[verifier::truncate]
                ((trb.status >> 24) as u8),
                slot_id: #[verifier::truncate]
                ((trb.control >> 24) as u8),
            }
        } else if trb_type == 34 {
            Event::PortStatusChange {
                port_id: #[verifier::truncate]
                (((trb.parameter >> 24) & 0xff) as u8),
                completion_code: #[verifier::truncate]
                ((trb.status >> 24) as u8),
            }
        } else {
            Event::NotSupport { trb_type }
        }
    }

    #[verifier::when_used_as_spec(spec_encode)]
    pub fn encode(self) -> (trb: Trb)
        ensures
            trb == self.spec_encode(),
    {
        match self {
            Event::Transfer {
                trb_pointer,
                residual_length,
                completion_code,
                endpoint_id,
                slot_id,
            } => Trb {
                parameter: trb_pointer,
                status: (residual_length & 0xff_ffff) | ((completion_code as u32) << 24),
                control: (32u32 << 10) | (((endpoint_id & 0x1f) as u32) << 16) | ((slot_id as u32)
                    << 24),
            },
            Event::CommandCompletion { command_trb_pointer, completion_code, slot_id } => Trb {
                parameter: command_trb_pointer,
                status: (completion_code as u32) << 24,
                control: (33u32 << 10) | ((slot_id as u32) << 24),
            },
            Event::PortStatusChange { port_id, completion_code } => Trb {
                parameter: (port_id as u64) << 24,
                status: (completion_code as u32) << 24,
                control: 34u32 << 10,
            },
            Event::NotSupport { trb_type } => Trb {
                parameter: 0,
                status: 0,
                control: ((trb_type & 0x3f) as u32) << 10,
            },
        }
    }
}

proof fn lemma_cycle_bits(c: u32)
    by (bit_vector)
    ensures
        ((c & 0xffff_fffe) | 1u32) & 1 == 1,
        ((c & 0xffff_fffe) | 0u32) & 1 != 1,
        (((c & 0xffff_fffe) | 1u32) >> 10) & 0x3f == (c >> 10) & 0x3f,
        (((c & 0xffff_fffe) | 0u32) >> 10) & 0x3f == (c >> 10) & 0x3f,
        (((c & 0xffff_fffe) | 1u32) & 2 == 2) == (c & 2 == 2),
        (((c & 0xffff_fffe) | 0u32) & 2 == 2) == (c & 2 == 2),
        ((c & 0xffff_fffe) | 1u32) >> 16 == c >> 16,
        ((c & 0xffff_fffe) | 0u32) >> 16 == c >> 16,
        ((c & 0xffff_fffe) | 1u32) >> 24 == c >> 24,
        ((c & 0xffff_fffe) | 0u32) >> 24 == c >> 24,
        (((c & 0xffff_fffe) | 1u32) & 0xffff_fffe) == (c & 0xffff_fffe),
        (((c & 0xffff_fffe) | 0u32) & 0xffff_fffe) == (c & 0xffff_fffe),
        c & 1 == 1 ==> (c & 0xffff_fffe) | 1u32 == c,
        c & 1 != 1 ==> (c & 0xffff_fffe) | 0u32 == c,
{
}

/// Stamping a block with a cycle bit sets that bit and nothing else: the
/// type, the link toggle, the parameter and the status stay, as does
/// everything an event is decoded from, and a second stamp replaces the
/// first.
pub proof fn lemma_with_cycle_bit(trb: Trb, cycle: bool)
    ensures
        trb.with_cycle_bit(cycle).cycle_bit() == cycle,
        trb.with_cycle_bit(cycle).trb_type() == trb.trb_type(),
        trb.with_cycle_bit(cycle).toggle_cycle() == trb.toggle_cycle(),
        trb.with_cycle_bit(cycle).parameter == trb.parameter,
        trb.with_cycle_bit(cycle).status == trb.status,
        Event::decode(trb.with_cycle_bit(cycle)) == Event::decode(trb),
        forall|other: bool| #[trigger]
            trb.with_cycle_bit(other).with_cycle_bit(cycle) == trb.with_cycle_bit(cycle),
        trb.with_cycle_bit(trb.cycle_bit()) == trb,
{
    lemma_cycle_bits(trb.control);
}

proof fn lemma_type_bits(slot: u8, transfer_type: u8)
    by (bit_vector)
    ensures
        ((((6u32 << 10) | 2u32) >> 10) & 0x3f) as u8 == 6,
        ((((6u32 << 10) | 0u32) >> 10) & 0x3f) as u8 == 6,
        ((6u32 << 10) | 2u32) & 2 == 2,
        ((6u32 << 10) | 0u32) & 2 != 2,
        (((9u32 << 10) >> 10) & 0x3f) as u8 == 9,
        ((((11u32 << 10) | ((slot as u32) << 24)) >> 10) & 0x3f) as u8 == 11,
        ((((12u32 << 10) | ((slot as u32) << 24)) >> 10) & 0x3f) as u8 == 12,
        ((((2u32 << 10) | (1u32 << 6) | (((transfer_type & 3) as u32) << 16)) >> 10) & 0x3f) as u8
            == 2,
        ((((3u32 << 10) | (1u32 << 16) | (1u32 << 5)) >> 10) & 0x3f) as u8 == 3,
        ((((3u32 << 10) | (1u32 << 16) | 0u32) >> 10) & 0x3f) as u8 == 3,
        ((((3u32 << 10) | 0u32 | (1u32 << 5)) >> 10) & 0x3f) as u8 == 3,
        ((((3u32 << 10) | 0u32 | 0u32) >> 10) & 0x3f) as u8 == 3,
        ((((4u32 << 10) | (1u32 << 16) | (1u32 << 5)) >> 10) & 0x3f) as u8 == 4,
        ((((4u32 << 10) | (1u32 << 16) | 0u32) >> 10) & 0x3f) as u8 == 4,
        ((((4u32 << 10) | 0u32 | (1u32 << 5)) >> 10) & 0x3f) as u8 == 4,
        ((((4u32 << 10) | 0u32 | 0u32) >> 10) & 0x3f) as u8 == 4,
        ((((1u32 << 10) | (1u32 << 5)) >> 10) & 0x3f) as u8 == 1,
{
}

/// Each kind of block carries the type the controller knows it by, and a
/// link block carries the toggle it was made with.
pub proof fn lemma_trb_types(
    addr: u64,
    slot_id: u8,
    setup: SetupData,
    transfer_type: u8,
    length: u32,
    flag: bool,
    ioc: bool,
)
    ensures
        Trb::link(addr, flag).trb_type() == TYPE_LINK,
        Trb::link(addr, flag).toggle_cycle() == flag,
        Trb::enable_slot().trb_type() == TYPE_ENABLE_SLOT,
        Trb::address_device(addr, slot_id).trb_type() == TYPE_ADDRESS_DEVICE,
        Trb::configure_endpoint(addr, slot_id).trb_type() == TYPE_CONFIGURE_ENDPOINT,
        Trb::setup_stage(setup, transfer_type).trb_type() == TYPE_SETUP_STAGE,
        Trb::data_stage(addr, length, flag, ioc).trb_type() == TYPE_DATA_STAGE,
        Trb::status_stage(flag, ioc).trb_type() == TYPE_STATUS_STAGE,
        Trb::normal(addr, length).trb_type() == TYPE_NORMAL,
{
    lemma_type_bits(slot_id, transfer_type);
}

proof fn lemma_word_bits(p: u64)
    by (bit_vector)
    ensures
        (((p & 0xffff_ffff) as u32) as u64) | ((((p >> 32) as u32) as u64) << 32) == p,
{
}

proof fn lemma_bits_of_words(a: u32, b: u32)
    by (bit_vector)
    ensures
        ((((a as u64) | ((b as u64) << 32)) & 0xffff_ffff) as u32) == a,
        ((((a as u64) | ((b as u64) << 32)) >> 32) as u32) == b,
{
}

/// A block is the same after a trip through its four words in memory, and
/// so are four words after a trip through a block.
pub proof fn lemma_words_round_trip(trb: Trb, words: [u32; 4])
    ensures
        Trb::from_words(trb.words()) == trb,
        Trb::from_words(words).words() == words,
{
    lemma_word_bits(trb.parameter);
    lemma_bits_of_words(words[0], words[1]);
    assert(Trb::from_words(words).words()@ =~= words@);
}

proof fn lemma_event_bits(
    residual: u32,
    code: u8,
    endpoint: u8,
    slot: u8,
    port: u8,
    trb_type: u8,
)
    by (bit_vector)
    requires
        residual <= 0xff_ffff,
        endpoint <= 0x1f,
        trb_type <= 0x3f,
    ensures
        ((((32u32 << 10) | (((endpoint & 0x1f) as u32) << 16) | ((slot as u32) << 24)) >> 10)
            & 0x3f) as u8 == 32,
        ((residual & 0xff_ffff) | ((code as u32) << 24)) & 0xff_ffff == residual,
        ((((residual & 0xff_ffff) | ((code as u32) << 24)) >> 24) as u8) == code,
        (((((32u32 << 10) | (((endpoint & 0x1f) as u32) << 16) | ((slot as u32) << 24)) >> 16)
            & 0x1f) as u8) == endpoint,
        ((((32u32 << 10) | (((endpoint & 0x1f) as u32) << 16) | ((slot as u32) << 24)) >> 24)
            as u8) == slot,
        ((((33u32 << 10) | ((slot as u32) << 24)) >> 10) & 0x3f) as u8 == 33,
        ((((code as u32) << 24) >> 24) as u8) == code,
        ((((33u32 << 10) | ((slot as u32) << 24)) >> 24) as u8) == slot,
        (((34u32 << 10) >> 10) & 0x3f) as u8 == 34,
        (((((port as u64) << 24) >> 24) & 0xff) as u8) == port,
        ((((((trb_type & 0x3f) as u32) << 10) >> 10) & 0x3f) as u8) == trb_type,
{
}

/// An event is the same after a trip through the block that reports it.
pub proof fn lemma_event_round_trip(event: Event)
    requires
        event.wf(),
    ensures
        Event::decode(event.encode()) == event,
{
    match event {
        Event::Transfer { residual_length, completion_code, endpoint_id, slot_id, .. } => {
            lemma_event_bits(residual_length, completion_code, endpoint_id, slot_id, 0, 0);
        },
        Event::CommandCompletion { completion_code, slot_id, .. } => {
            lemma_event_bits(0, completion_code, 0, slot_id, 0, 0);
        },
        Event::PortStatusChange { port_id, completion_code } => {
            lemma_event_bits(0, completion_code, 0, 0, port_id, 0);
        },
        Event::NotSupport { trb_type } => {
            lemma_event_bits(0, 0, 0, 0, 0, trb_type);
        },
    }
}

} // verus!
