use xhc_core::allocator::LinearAllocator;
use xhc_core::allocator::MemoryAllocatable;
use xhc_core::error::AllocateReason;
use xhc_core::error::InvalidRegisterReason;
use xhc_core::error::OperationReason;
use xhc_core::error::PciError;
use xhc_core::registers::allocate_device_context_array;
use xhc_core::registers::capability::CapabilityLength;
use xhc_core::registers::capability::CapabilityRegisters;
use xhc_core::registers::capability::MemoryMappedAddr;
use xhc_core::registers::capability::RuntimeRegisterSpaceOffset;
use xhc_core::registers::command_ring_control_register::allocate_command_ring;
use xhc_core::registers::command_ring_control_register::obtain_command_ring;
use xhc_core::registers::command_ring_control_register::register_command_ring;
use xhc_core::registers::command_ring_control_register::CommandAbort;
use xhc_core::registers::command_ring_control_register::CommandRingControlRegister;
use xhc_core::registers::command_ring_control_register::CommandRingControlRegisterOffset;
use xhc_core::registers::command_ring_control_register::CommandRingPointer;
use xhc_core::registers::command_ring_control_register::CommandRingRunning;
use xhc_core::registers::doorbell::Doorbell;
use xhc_core::registers::doorbell::DoorbellRegistersOffset;
use xhc_core::registers::operational::OperationalRegisters;
use xhc_core::registers::operational::OperationalRegistersOffset;
use xhc_core::registers::operational::RunStop;
use xhc_core::registers::port::PortStatusControl;
use xhc_core::registers::runtime::interrupter_register_set_offset;
use xhc_core::registers::runtime::runtime_registers_offset;
use xhc_core::registers::runtime::EventRingSegmentTableBaseAddress;
use xhc_core::registers::runtime::EventRingSegmentTableSize;
use xhc_core::registers::runtime::InterrupterRegisterSet;
use xhc_core::registers::runtime::InterrupterRegisterSetOffset;
use xhc_core::registers::setup_device_context_max_slots;
use xhc_core::registers::setup_event_ring;
use xhc_core::registers::Registers;
use xhc_core::simulated::SimulatedRegisters;

const BASE: usize = 0x1000;
const USBCMD: usize = 0x1020;
const USBSTS: usize = 0x1024;
const CRCR: usize = 0x1038;
const DCBAAP: usize = 0x1050;
const CONFIG: usize = 0x1058;
const ERSTSZ: usize = 0x1228;
const ERSTBA: usize = 0x1230;
const ERDP: usize = 0x1238;
const IMAN: usize = 0x1220;

fn words() -> Vec<u32> {
    let mut words = vec![0u32; 0x200];
    words[0] = 0x0110_0020;
    words[1] = 0x0400_0008;
    words[2] = 0x0000_0030;
    words[5] = 0x0000_0300;
    words[6] = 0x0000_0200;
    words[(USBSTS - BASE) / 4] = 1;
    words
}

fn with(changes: &[(usize, u32)], latched: bool) -> SimulatedRegisters {
    let mut words = words();
    for (addr, value) in changes {
        words[(addr - BASE) / 4] = *value;
    }
    SimulatedRegisters::new(BASE, words, latched)
}

fn mmio() -> MemoryMappedAddr {
    MemoryMappedAddr::new(BASE).unwrap()
}

fn invalid_offset(value: usize) -> PciError {
    PciError::InvalidRegister(InvalidRegisterReason::InvalidOffset { value })
}

fn illegal_flag(expect: bool) -> PciError {
    PciError::InvalidRegister(InvalidRegisterReason::IllegalBitFlag { expect })
}

fn must_be_stopped() -> PciError {
    PciError::FailedOperateToRegister(OperationReason::MustBeCommandRingStopped)
}

fn timeout(expect: u64) -> PciError {
    PciError::FailedOperateToRegister(OperationReason::SpinTimeout { expect, attempts: 10 })
}

fn not_aligned() -> PciError {
    PciError::FailedAllocate(AllocateReason::NotAlignedAddress { expect_align_size: 64 })
}

fn operational(mem: &mut SimulatedRegisters) -> OperationalRegistersOffset {
    OperationalRegistersOffset::new(mem, mmio(), &CapabilityLength::new(mmio())).unwrap()
}

fn crcr_offset(mem: &mut SimulatedRegisters) -> CommandRingControlRegisterOffset {
    CommandRingControlRegisterOffset::new(operational(mem))
}

fn crcr(mem: &mut SimulatedRegisters) -> CommandRingControlRegister {
    let offset = crcr_offset(mem);
    CommandRingControlRegister::new(mem, offset).unwrap()
}

fn interrupter(mem: &mut SimulatedRegisters) -> InterrupterRegisterSet {
    InterrupterRegisterSet::new(interrupter_register_set_offset(mem, mmio(), 0).unwrap())
}

#[test]
fn memory_mapped_addr_rejects_addresses_at_the_end_of_the_address_space() {
    assert_eq!(
        MemoryMappedAddr::new(usize::MAX - 0x10).err(),
        Some(invalid_offset(usize::MAX - 0x10))
    );
    assert_eq!(MemoryMappedAddr::new(0x1000).unwrap().addr(), 0x1000);
    assert_eq!(MemoryMappedAddr::new(usize::MAX - 0x20).unwrap().addr(), usize::MAX - 0x20);
}

#[test]
fn capability_registers_are_read_field_by_field() {
    let mut mem = with(&[], true);
    let capability = CapabilityRegisters::new(&mut mem, mmio()).unwrap();
    assert_eq!(capability.cap_length().read_volatile(&mut mem), 0x20);
    assert_eq!(capability.hci_version().read_volatile(&mut mem), 0x0110);
    assert_eq!(capability.hcs_params1().max_slots().read_volatile(&mut mem), 8);
    assert_eq!(capability.hcs_params1().max_ports().read_volatile(&mut mem), 4);
    assert_eq!(capability.hcs_params2().erst_max().read_volatile(&mut mem), 3);
    assert_eq!(capability.hcs_params2().erst_max().max_entries(&mut mem), 8);
    assert_eq!(capability.db_off().read_offset(&mut mem), 0x300);
    assert_eq!(capability.rts_off().read_offset(&mut mem), 0x200);
}

#[test]
fn capability_length_must_cover_the_capability_registers() {
    let mut mem = with(&[(BASE, 0x0110_001f)], true);
    assert_eq!(CapabilityLength::new_check_length(&mut mem, mmio()).err(), Some(invalid_offset(0x1f)));
    assert_eq!(CapabilityRegisters::new(&mut mem, mmio()).err(), Some(invalid_offset(0x1f)));
    let mut zero = with(&[(BASE, 0)], true);
    assert_eq!(CapabilityLength::new_check_length(&mut zero, mmio()).err(), Some(invalid_offset(0)));
    let mut fine = with(&[], true);
    assert!(CapabilityLength::new_check_length(&mut fine, mmio()).is_ok());
}

#[test]
fn runtime_registers_cannot_begin_inside_the_capability_registers() {
    let mut mem = with(&[(0x1018, 0)], true);
    let length = CapabilityLength::new(mmio());
    assert_eq!(
        RuntimeRegisterSpaceOffset::new_with_check_size(&mut mem, mmio(), &length).err(),
        Some(invalid_offset(0))
    );
    assert_eq!(runtime_registers_offset(&mut mem, mmio()).err(), Some(invalid_offset(0)));
    let mut edge = with(&[(0x1018, 0x20)], true);
    assert!(RuntimeRegisterSpaceOffset::new_with_check_size(&mut edge, mmio(), &length).is_ok());
}

#[test]
fn register_blocks_lie_where_the_capability_registers_say() {
    let mut mem = with(&[], true);
    assert_eq!(operational(&mut mem).offset(), 0x1020);
    assert_eq!(crcr_offset(&mut mem).offset(), 0x1038);
    assert_eq!(runtime_registers_offset(&mut mem, mmio()).unwrap().offset(), 0x1200);
    assert_eq!(interrupter_register_set_offset(&mut mem, mmio(), 0).unwrap().offset(), 0x1220);
    assert_eq!(interrupter_register_set_offset(&mut mem, mmio(), 3).unwrap().offset(), 0x1280);
    assert_eq!(
        interrupter_register_set_offset(&mut mem, mmio(), 1023).unwrap().offset(),
        0x1220 + 0x20 * 1023
    );
    let capability = CapabilityRegisters::new(&mut mem, mmio()).unwrap();
    let doorbells = DoorbellRegistersOffset::new(&mut mem, mmio(), &capability.db_off()).unwrap();
    assert_eq!(doorbells.offset(), 0x1300);
    assert_eq!(Doorbell::new(doorbells, 0).addr(), 0x1300);
    assert_eq!(Doorbell::new(doorbells, 255).addr(), 0x1300 + 4 * 255);
    let runtime = runtime_registers_offset(&mut mem, mmio()).unwrap();
    assert_eq!(InterrupterRegisterSetOffset::new(runtime, 2).offset(), 0x1260);
}

#[test]
fn interrupter_index_beyond_the_limit_is_refused_without_an_access() {
    let mut mem = with(&[], true);
    assert_eq!(
        interrupter_register_set_offset(&mut mem, mmio(), 1024).err(),
        Some(invalid_offset(1024))
    );
}

#[test]
fn command_ring_control_register_wants_its_flags_clear() {
    for bit in 0..3 {
        let mut mem = with(&[(CRCR, 1 << bit)], true);
        let offset = crcr_offset(&mut mem);
        assert_eq!(
            CommandRingControlRegister::new(&mut mem, offset).err(),
            Some(illegal_flag(false))
        );
        let operational = operational(&mut mem);
        assert_eq!(
            OperationalRegisters::new(&mut mem, operational).err(),
            Some(illegal_flag(false))
        );
        assert_eq!(Registers::new(&mut mem, mmio()).err(), Some(illegal_flag(false)));
    }
    let mut running = with(&[(CRCR, 1 << 3)], true);
    let offset = crcr_offset(&mut running);
    assert!(CommandRingControlRegister::new(&mut running, offset).is_ok());
}

#[test]
fn running_flag_is_checked_against_the_run_flag_of_the_controller() {
    let cases = [
        (0u32, 0u32, None),
        (1, 1 << 3, None),
        (1, 0, Some(illegal_flag(true))),
        (0, 1 << 3, Some(illegal_flag(false))),
    ];
    for (usbcmd, crcr, expected) in cases {
        let mut mem = with(&[(USBCMD, usbcmd), (CRCR, crcr)], true);
        let offset = crcr_offset(&mut mem);
        let run_stop = RunStop::new(operational(&mut mem));
        assert_eq!(CommandRingRunning::new_with_check(&mut mem, offset, &run_stop).err(), expected);
    }
}

#[test]
fn abort_is_refused_while_the_command_ring_runs() {
    let mut mem = with(&[(CRCR, 1 << 3)], true);
    let crr = CommandRingRunning::new(crcr_offset(&mut mem));
    assert_eq!(CommandAbort::abort_command(&mut mem, &crr), Err(must_be_stopped()));
    assert_eq!(mem.word(CRCR), 1 << 3);
}

#[test]
fn abort_sets_the_flag_and_keeps_the_rest_of_the_register() {
    let mut mem = with(&[(CRCR, 0x1234_5640), (CRCR + 4, 0xabcd)], true);
    let crr = CommandRingRunning::new(crcr_offset(&mut mem));
    assert_eq!(CommandAbort::abort_command(&mut mem, &crr), Ok(()));
    assert_eq!(mem.word(CRCR), 0x1234_5648);
    assert_eq!(mem.word(CRCR + 4), 0xabcd);
}

#[test]
fn command_ring_pointer_is_stored_without_its_six_low_bits() {
    let mut mem = with(&[(CRCR, 0x3)], true);
    let pointer = CommandRingPointer::new(crcr_offset(&mut mem));
    assert_eq!(pointer.update_command_ring_addr(&mut mem, 0x1_2345_6780), Ok(()));
    assert_eq!(mem.word(CRCR), 0x2345_6783);
    assert_eq!(mem.word(CRCR + 4), 1);
    assert_eq!(pointer.read_command_ring_addr(&mut mem), 0x1_2345_6780);
}

#[test]
fn command_ring_pointer_refuses_unaligned_addresses_and_running_rings() {
    let mut mem = with(&[], true);
    let pointer = CommandRingPointer::new(crcr_offset(&mut mem));
    assert_eq!(pointer.update_command_ring_addr(&mut mem, 0x1020), Err(not_aligned()));
    assert_eq!(mem.word(CRCR), 0);
    let mut running = with(&[(CRCR, 1 << 3)], true);
    assert_eq!(pointer.update_command_ring_addr(&mut running, 0x1000), Err(must_be_stopped()));
    assert_eq!(running.word(CRCR), 1 << 3);
    assert_eq!(pointer.update_command_ring_addr(&mut running, 0x1001), Err(must_be_stopped()));
    assert_eq!(running.word(CRCR), 1 << 3);
}

#[test]
fn command_ring_pointer_that_is_not_shown_is_a_timeout() {
    let mut mem = with(&[], false);
    let pointer = CommandRingPointer::new(crcr_offset(&mut mem));
    assert_eq!(pointer.update_command_ring_addr(&mut mem, 0x4000), Err(timeout(0x100)));
}

#[test]
fn command_ring_is_registered_with_a_cycle_state_of_one() {
    let mut mem = with(&[], true);
    let crcr = crcr(&mut mem);
    assert_eq!(register_command_ring(&mut mem, &crcr, 0x8000), Ok(()));
    assert_eq!(mem.word(CRCR), 0x8001);
    assert_eq!(mem.word(CRCR + 4), 0);
}

#[test]
fn command_ring_is_not_registered_while_it_is_stopped_aborted_or_running() {
    for bit in 1..4 {
        let mut mem = with(&[], true);
        let crcr = crcr(&mut mem);
        let mut busy = with(&[(CRCR, 1 << bit)], true);
        assert_eq!(register_command_ring(&mut busy, &crcr, 0x8000), Err(must_be_stopped()));
        assert_eq!(busy.word(CRCR), 1 << bit);
        // The flags are looked at before the address is.
        assert_eq!(register_command_ring(&mut busy, &crcr, 0x1001), Err(must_be_stopped()));
        assert_eq!(busy.word(CRCR), 1 << bit);
    }
    let mut mem = with(&[], true);
    let crcr = crcr(&mut mem);
    assert_eq!(register_command_ring(&mut mem, &crcr, 0x8008), Err(not_aligned()));
    assert_eq!(mem.word(CRCR), 0);
}

#[test]
fn command_ring_is_allocated_and_registered() {
    let mut mem = with(&[], true);
    let crcr = crcr(&mut mem);
    let mut allocator = LinearAllocator::new(0x10000, 0x20000);
    assert_eq!(allocate_command_ring(&mut mem, &crcr, &mut allocator), Ok(()));
    assert_eq!(mem.word(CRCR), 0x10001);
    let mut again = with(&[], true);
    assert_eq!(crcr.setup_command_ring(&mut again, &mut allocator), Ok(()));
    assert_eq!(again.word(CRCR), 0x11001);
}

#[test]
fn command_ring_is_asked_for_on_a_64_byte_boundary() {
    let mut mem = with(&[], true);
    let crcr = crcr(&mut mem);
    let mut allocator = LinearAllocator::new(0x10008, 0x20000);
    assert_eq!(allocate_command_ring(&mut mem, &crcr, &mut allocator), Ok(()));
    assert_eq!(mem.word(CRCR), 0x10041);
    let mut again = with(&[], true);
    let mut near_the_boundary = LinearAllocator::new(0xf040, 0x20000);
    assert_eq!(obtain_command_ring(&mut again, &crcr, &mut near_the_boundary), Ok(0x10000));
    assert_eq!(again.word(CRCR), 0x10001);
}

#[test]
fn command_ring_without_memory_fails_and_touches_no_register() {
    let mut mem = with(&[], true);
    let crcr = crcr(&mut mem);
    let mut allocator = LinearAllocator::new(0x10000, 0x10100);
    assert_eq!(
        allocate_command_ring(&mut mem, &crcr, &mut allocator),
        Err(PciError::FailedAllocate(AllocateReason::NotEnoughMemory))
    );
    assert_eq!(mem.word(CRCR), 0);
}

#[test]
fn segment_table_size_is_held_in_the_low_half_of_its_register() {
    let mut mem = with(&[(ERSTSZ, 0xabcd_0005)], true);
    let set = interrupter(&mut mem);
    assert_eq!(set.erstsz.event_ring_segment_table_size(&mut mem), 5);
}

#[test]
fn segment_table_size_is_limited_by_the_controller() {
    let mut mem = with(&[], true);
    let set = interrupter(&mut mem);
    let erst_max = CapabilityRegisters::new(&mut mem, mmio()).unwrap().hcs_params2().erst_max();
    assert_eq!(set.erstsz.update_event_ring_segment_table_size(&mut mem, &erst_max, 8), Ok(()));
    assert_eq!(mem.word(ERSTSZ), 8);
    assert_eq!(
        set.erstsz.update_event_ring_segment_table_size(&mut mem, &erst_max, 9),
        Err(PciError::FailedOperateToRegister(OperationReason::ExceedsEventRingSegmentTableMax {
            max: 8,
            value: 9
        }))
    );
    assert_eq!(mem.word(ERSTSZ), 8);
}

#[test]
fn segment_table_size_that_is_not_shown_is_a_timeout() {
    let mut mem = with(&[], false);
    let set = interrupter(&mut mem);
    let erst_max = CapabilityRegisters::new(&mut mem, mmio()).unwrap().hcs_params2().erst_max();
    assert_eq!(
        set.erstsz.update_event_ring_segment_table_size(&mut mem, &erst_max, 1),
        Err(timeout(1))
    );
}

#[test]
fn segment_table_address_is_stored_and_confirmed() {
    let mut mem = with(&[(ERSTBA, 0x3f)], true);
    let set = interrupter(&mut mem);
    let erstba: EventRingSegmentTableBaseAddress = set.erstba;
    assert_eq!(erstba.update_event_ring_segment_table_addr(&mut mem, 0x2_0000_4000), Ok(()));
    assert_eq!(mem.word(ERSTBA), 0x403f);
    assert_eq!(mem.word(ERSTBA + 4), 2);
    assert_eq!(erstba.update_event_ring_segment_table_addr(&mut mem, 0x4020), Err(not_aligned()));
    let mut stuck = with(&[], false);
    assert_eq!(erstba.update_event_ring_segment_table_addr(&mut stuck, 0x4000), Err(timeout(0x100)));
}

#[test]
fn event_ring_is_handed_to_the_interrupter() {
    let mut mem = with(&[], true);
    let set = interrupter(&mut mem);
    let erst_max = CapabilityRegisters::new(&mut mem, mmio()).unwrap().hcs_params2().erst_max();
    assert_eq!(set.register_event_ring(&mut mem, &erst_max, 0x4000, 1, 0x5000), Ok(()));
    assert_eq!(mem.word(ERSTSZ), 1);
    assert_eq!(mem.word(ERSTBA), 0x4000);
    assert_eq!(mem.word(ERDP), 0x5000);
    assert_eq!(mem.word(IMAN), 2);
    let size: EventRingSegmentTableSize = set.erstsz;
    assert_eq!(size.read_volatile(&mut mem), 1);
}

#[test]
fn event_ring_is_set_up_from_allocated_memory() {
    let mut mem = with(&[], true);
    let set = interrupter(&mut mem);
    let erst_max = CapabilityRegisters::new(&mut mem, mmio()).unwrap().hcs_params2().erst_max();
    let mut allocator = LinearAllocator::new(0x10000, 0x20000);
    let ring = setup_event_ring(&mut mem, &set, &erst_max, 32, &mut allocator).unwrap();
    assert_eq!(ring.dequeue_pointer(), 0x10040);
    assert_eq!(ring.segment_table(), vec![[0x10040, 0, 32, 0]]);
    assert_eq!(mem.word(ERSTBA), 0x10000);
    assert_eq!(mem.word(ERDP), 0x10040);
    assert_eq!(mem.word(ERSTSZ), 1);
}

#[test]
fn event_ring_without_memory_touches_no_register() {
    let mut mem = with(&[], true);
    let set = interrupter(&mut mem);
    let erst_max = CapabilityRegisters::new(&mut mem, mmio()).unwrap().hcs_params2().erst_max();
    let not_enough = PciError::FailedAllocate(AllocateReason::NotEnoughMemory);
    let mut none = LinearAllocator::new(0x10000, 0x10008);
    assert_eq!(setup_event_ring(&mut mem, &set, &erst_max, 32, &mut none).err(), Some(not_enough));
    let mut table_only = LinearAllocator::new(0x10000, 0x10100);
    assert_eq!(
        setup_event_ring(&mut mem, &set, &erst_max, 32, &mut table_only).err(),
        Some(not_enough)
    );
    assert_eq!(mem.word(ERSTSZ), 0);
    assert_eq!(mem.word(ERSTBA), 0);
}

#[test]
fn device_slots_are_enabled_as_far_as_the_controller_supports_them() {
    let mut mem = with(&[(CONFIG, 0x300)], true);
    let registers = Registers::new(&mut mem, mmio()).unwrap();
    assert_eq!(registers.setup_device_context_max_slots(&mut mem), Ok(()));
    assert_eq!(mem.word(CONFIG), 0x308);
}

#[test]
fn device_slots_are_not_enabled_while_the_controller_runs() {
    let mut mem = with(&[(USBCMD, 1)], true);
    let registers = Registers::new(&mut mem, mmio()).unwrap();
    assert_eq!(
        registers.setup_device_context_max_slots(&mut mem),
        Err(PciError::FailedOperateToRegister(OperationReason::XhcRunning))
    );
    assert_eq!(mem.word(CONFIG), 0);
}

#[test]
fn device_slots_that_are_not_shown_are_reported() {
    let mut mem = with(&[], false);
    let registers = Registers::new(&mut mem, mmio()).unwrap();
    let capability = registers.capability_registers();
    let operational = registers.operational_registers();
    assert_eq!(
        setup_device_context_max_slots(
            &mut mem,
            &operational.run_stop,
            &capability.hcs_params1().max_slots(),
            &operational.max_slots_en
        ),
        Err(PciError::FailedOperateToRegister(OperationReason::NotReflectedValue {
            expect: 8,
            value: 0
        }))
    );
}

#[test]
fn device_context_array_is_allocated_for_the_enabled_slots() {
    let mut mem = with(&[(CONFIG, 8)], true);
    let registers = Registers::new(&mut mem, mmio()).unwrap();
    let mut allocator = LinearAllocator::new(0x10040, 0x20000);
    assert_eq!(registers.allocate_device_context_array(&mut mem, &mut allocator), Ok(0x11000));
    assert_eq!(mem.word(DCBAAP), 0x11000);
    assert_eq!(mem.word(DCBAAP + 4), 0);
    assert_eq!(allocator.allocate_with_align(1, 1, 0).unwrap().raw_address(), 0x11000 + 1024 * 9);
}

#[test]
fn device_context_array_fails_without_memory_or_alignment_or_a_register_that_shows_it() {
    let mut mem = with(&[(CONFIG, 1)], true);
    let registers = Registers::new(&mut mem, mmio()).unwrap();
    let operational = registers.operational_registers();
    let mut none = LinearAllocator::new(0x10000, 0x10400);
    assert_eq!(
        allocate_device_context_array(
            &mut mem,
            &operational.dcbaap,
            &operational.max_slots_en,
            &mut none
        ),
        Err(PciError::FailedAllocate(AllocateReason::NotEnoughMemory))
    );
    assert_eq!(mem.word(DCBAAP), 0);
    let mut stuck = with(&[(CONFIG, 1)], false);
    let mut allocator = LinearAllocator::new(0x10000, 0x20000);
    assert_eq!(
        registers.allocate_device_context_array(&mut stuck, &mut allocator),
        Err(PciError::FailedOperateToRegister(OperationReason::NotReflectedValue {
            expect: 0x10000,
            value: 0
        }))
    );
}

#[test]
fn run_sets_the_run_flag() {
    let mut mem = with(&[(USBCMD, 4)], true);
    let registers = Registers::new(&mut mem, mmio()).unwrap();
    registers.run(&mut mem);
    assert_eq!(mem.word(USBCMD), 5);
}

#[test]
fn reset_of_a_controller_that_does_not_halt_is_a_timeout() {
    let mut mem = with(&[(USBSTS, 0), (USBCMD, 5)], true);
    let registers = Registers::new(&mut mem, mmio()).unwrap();
    assert_eq!(registers.operational_registers().reset_host_controller(&mut mem), Err(timeout(1)));
    assert_eq!(mem.word(USBCMD), 0);
}

#[test]
fn reset_of_a_controller_that_does_not_end_its_reset_is_a_timeout() {
    let mut mem = with(&[], true);
    let registers = Registers::new(&mut mem, mmio()).unwrap();
    assert_eq!(registers.operational_registers().reset_host_controller(&mut mem), Err(timeout(0)));
    assert_eq!(mem.word(USBCMD), 2);
    let mut allocator = LinearAllocator::new(0x10000, 0x20000);
    let mut again = with(&[], true);
    assert_eq!(registers.init(&mut again, &mut allocator).err(), Some(timeout(0)));
    assert_eq!(allocator.allocate(0), Some(0x10000));
}

#[test]
fn doorbell_is_rung_with_target_and_stream() {
    let mut mem = with(&[], true);
    let capability = CapabilityRegisters::new(&mut mem, mmio()).unwrap();
    let doorbells = DoorbellRegistersOffset::new(&mut mem, mmio(), &capability.db_off()).unwrap();
    Doorbell::new(doorbells, 2).notify(&mut mem, 3, 0);
    assert_eq!(mem.word(0x1308), 3);
    Doorbell::new(doorbells, 0).notify(&mut mem, 0, 0x1234);
    assert_eq!(mem.word(0x1300), 0x1234_0000);
}

#[test]
fn port_is_acted_on_without_handing_back_the_bits_that_a_one_clears() {
    let mut mem = with(&[(0x1420, 0x0022_0203), (0x1430, 0x1)], true);
    let offset = operational(&mut mem);
    let first = PortStatusControl::new(offset, 1);
    let second = PortStatusControl::new(offset, 2);
    assert_eq!(first.addr(), 0x1420);
    assert_eq!(second.addr(), 0x1430);
    let raw = first.read(&mut mem);
    assert_eq!(raw, 0x0022_0203);
    assert!(PortStatusControl::is_connected(raw));
    assert!(PortStatusControl::is_reset_completed(raw));
    assert!(!PortStatusControl::is_reset_completed(0x0002_0203));
    assert!(!PortStatusControl::is_connected(0x0002_0202));
    assert_eq!(first.act(&mut mem, 0x10), 0x0022_0203);
    assert_eq!(mem.word(0x1420), 0x0000_0210);
    assert_eq!(mem.word(0x1430), 1);
}
