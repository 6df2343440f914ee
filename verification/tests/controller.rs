use std::collections::HashMap;

use xhc_core::allocator::LinearAllocator;
use xhc_core::controller::XhcController;
use xhc_core::allocator::MemoryAllocatable;
use xhc_core::error::AllocateReason;
use xhc_core::error::DeviceReason;
use xhc_core::error::OperationReason;
use xhc_core::error::PciError;
use xhc_core::error::RingReason;
use xhc_core::hid::InputReport;
use xhc_core::hid::KeyboardDriver;
use xhc_core::hid::KeyboardReport;
use xhc_core::hid::KeyboardSubscribable;
use xhc_core::hid::MouseDriver;
use xhc_core::hid::MouseReport;
use xhc_core::hid::MouseSubscribable;
use xhc_core::hid::Subscribed;
use xhc_core::registers::capability::MemoryMappedAddr;
use xhc_core::registers::Registers;
use xhc_core::trb::Event;
use xhc_core::trb::Trb;
use xhc_core::volatile::RawMemory;
use xhc_core::volatile::Recorded;

const BASE: usize = 0x1000;
const USBCMD: usize = 0x1020;
const USBSTS: usize = 0x1024;
const CRCR: usize = 0x1038;
const DCBAAP: usize = 0x1050;
const CONFIG: usize = 0x1058;
const PORTSC1: usize = 0x1420;
const ERSTSZ: usize = 0x1228;
const ERSTBA: usize = 0x1230;
const ERDP: usize = 0x1238;
const DOORBELLS: usize = 0x1300;

const HEAP: u64 = 0x10_0000;
const COMMAND_RING: u64 = 0x10_0800;
const EVENT_SEGMENT: u64 = 0x10_1840;
const CONTROL_RING: u64 = 0x10_1a40;
const DATA_BUFF: u64 = 0x10_1c40;
const INPUT_CONTEXT: u64 = 0x10_2000;
const FIRST_PIPE_RING: u64 = 0x10_2440;
const FIRST_PIPE_BUFF: u64 = 0x10_2640;
const SECOND_PIPE_RING: u64 = 0x10_2680;
const SECOND_PIPE_BUFF: u64 = 0x10_2880;

/// A controller with one slot and one port, as far as the driver can tell
/// by its registers: a reset of the controller or of the port is done as
/// soon as it is asked for.
struct Fake {
    words: HashMap<usize, u32>,
    rung: Vec<(usize, u32)>,
}

impl Fake {
    fn new(slots: u32) -> Self {
        let mut words = HashMap::new();
        words.insert(BASE, 0x0110_0020);
        words.insert(BASE + 4, 0x0100_0000 | slots);
        words.insert(BASE + 8, 0x10);
        words.insert(BASE + 0x14, 0x300);
        words.insert(BASE + 0x18, 0x200);
        words.insert(USBSTS, 1);
        words.insert(PORTSC1, 0x0002_0001);
        Fake { words, rung: Vec::new() }
    }

    fn word(&self, addr: u64) -> u32 {
        *self.words.get(&(addr as usize)).unwrap_or(&0)
    }

    fn block(&self, addr: u64) -> Trb {
        Trb::from_words([
            self.word(addr),
            self.word(addr + 4),
            self.word(addr + 8),
            self.word(addr + 12),
        ])
    }

    fn put_bytes(&mut self, addr: u64, bytes: &[u8]) {
        for (i, chunk) in bytes.chunks(4).enumerate() {
            let mut word = 0u32;
            for (k, byte) in chunk.iter().enumerate() {
                word |= (*byte as u32) << (8 * k);
            }
            self.words.insert(addr as usize + 4 * i, word);
        }
    }
}

impl RawMemory for Fake {
    fn load_32(&mut self, addr: usize) -> u32 {
        *self.words.get(&addr).unwrap_or(&0)
    }

    fn store_32(&mut self, addr: usize, value: u32) {
        if addr == USBCMD {
            let kept = value & !2;
            self.words.insert(USBCMD, kept);
            let status = self.load_32(USBSTS) & !1;
            self.words.insert(USBSTS, status | if kept & 1 == 0 { 1 } else { 0 });
        } else if addr == PORTSC1 {
            let old = self.load_32(PORTSC1);
            let mut new = (old & 0x00fe_0003 & !(value & 0x00fe_0000)) | (value & 0x0e00_c3e0);
            if value & 0x10 != 0 {
                new |= 0x0020_0002;
            }
            self.words.insert(PORTSC1, new);
        } else if (DOORBELLS..DOORBELLS + 0x400).contains(&addr) {
            self.rung.push(((addr - DOORBELLS) / 4, value));
        } else {
            self.words.insert(addr, value);
        }
    }

    fn load_64(&mut self, addr: usize) -> u64 {
        self.load_32(addr) as u64 | (self.load_32(addr + 4) as u64) << 32
    }

    fn store_64(&mut self, addr: usize, value: u64) {
        self.store_32(addr, value as u32);
        self.store_32(addr + 4, (value >> 32) as u32);
    }
}

/// The controller, the memory it shares with the driver, and the events it
/// has written.
struct Bench {
    mem: Recorded<Fake>,
    allocator: LinearAllocator,
    controller: XhcController,
    events: Vec<Vec<Trb>>,
    written: usize,
}

impl Bench {
    fn new() -> Self {
        Self::with(Fake::new(1))
    }

    fn with(fake: Fake) -> Self {
        let mut mem = Recorded::new(fake);
        let mut allocator = LinearAllocator::new(HEAP, HEAP + 0x10_0000);
        let registers = Registers::new(&mut mem, MemoryMappedAddr::new(BASE).unwrap()).unwrap();
        let controller = XhcController::new(
            &mut mem,
            &mut allocator,
            registers,
            MouseDriver::new(),
            KeyboardDriver::new(),
        )
        .unwrap();
        controller.run(&mut mem);
        let events = vec![vec![Trb { parameter: 0, status: 0, control: 0 }; 32]];
        Bench { mem, allocator, controller, events, written: 0 }
    }

    fn fake(&self) -> &Fake {
        self.mem.raw()
    }

    fn put_bytes(&mut self, addr: u64, bytes: &[u8]) {
        let mut fake = std::mem::replace(&mut self.mem, Recorded::new(Fake::new(1))).into_raw();
        fake.put_bytes(addr, bytes);
        self.mem = Recorded::new(fake);
    }

    fn write(&mut self, event: Event) {
        let cycle = (self.written / 32) % 2 == 0;
        self.events[0][self.written % 32] = event.encode().with_cycle_bit(cycle);
        self.written += 1;
    }

    fn process(&mut self) -> Vec<Result<Option<InputReport>, PciError>> {
        self.controller.process_all_events(&mut self.mem, &mut self.allocator, &self.events)
    }

    fn send(&mut self, event: Event) -> Result<Option<InputReport>, PciError> {
        self.write(event);
        let mut outcomes = self.process();
        assert_eq!(outcomes.len(), 1);
        outcomes.remove(0)
    }

    fn port_changed(&mut self) -> Result<Option<InputReport>, PciError> {
        self.send(Event::PortStatusChange { port_id: 1, completion_code: 1 })
    }

    fn command_done(&mut self, index: u64, slot_id: u8) -> Result<Option<InputReport>, PciError> {
        self.send(Event::CommandCompletion {
            command_trb_pointer: COMMAND_RING + 16 * index,
            completion_code: 1,
            slot_id,
        })
    }

    fn transferred(
        &mut self,
        pointer: u64,
        residual_length: u32,
        endpoint_id: u8,
    ) -> Result<Option<InputReport>, PciError> {
        self.send(Event::Transfer {
            trb_pointer: pointer,
            residual_length,
            completion_code: if residual_length == 0 { 1 } else { 13 },
            endpoint_id,
            slot_id: 1,
        })
    }

    /// Takes the device through reset, slot, address and configuration, up
    /// to the point where its endpoints are configured and armed.
    fn enumerate(&mut self, configuration: &[u8]) {
        assert_eq!(self.port_changed(), Ok(None));
        assert_eq!(self.port_changed(), Ok(None));
        assert_eq!(self.command_done(0, 1), Ok(None));
        assert_eq!(self.command_done(1, 1), Ok(None));
        self.put_bytes(DATA_BUFF, configuration);
        assert_eq!(self.transferred(CONTROL_RING + 16, 256 - configuration.len() as u32, 1), Ok(None));
        assert_eq!(self.transferred(CONTROL_RING + 64, 0, 1), Ok(None));
        assert_eq!(self.command_done(2, 1), Ok(None));
    }
}

/// A subscriber that keeps what it is handed.
struct Seen(Vec<MouseReport>);

impl MouseSubscribable for Seen {
    fn subscribe(&mut self, report: MouseReport) {
        self.0.push(report);
    }
}

/// A subscriber that keeps the reports of the keyboard.
struct Keys(Vec<KeyboardReport>);

impl KeyboardSubscribable for Keys {
    fn subscribe(&mut self, report: KeyboardReport) {
        self.0.push(report);
    }
}

fn boot_mouse() -> Vec<u8> {
    [
        vec![9, 2, 34, 0, 1, 1, 0, 0xa0, 50],
        vec![9, 4, 0, 0, 1, 3, 1, 2, 0],
        vec![9, 33, 0x11, 0x01, 0, 1, 34, 52, 0],
        vec![7, 5, 0x81, 3, 8, 0, 10],
    ]
    .concat()
}

fn keyboard_and_mouse() -> Vec<u8> {
    [
        vec![9, 2, 59, 0, 2, 1, 0, 0xa0, 50],
        vec![9, 4, 0, 0, 1, 3, 1, 1, 0],
        vec![9, 33, 0x11, 0x01, 0, 1, 34, 63, 0],
        vec![7, 5, 0x81, 3, 8, 0, 10],
        vec![9, 4, 1, 0, 1, 3, 1, 2, 0],
        vec![9, 33, 0x11, 0x01, 0, 1, 34, 52, 0],
        vec![7, 5, 0x82, 3, 8, 0, 10],
    ]
    .concat()
}

#[test]
fn bring_up_registers_the_rings_and_enables_the_slots() {
    let bench = Bench::new();
    let fake = bench.fake();
    assert_eq!(fake.word(CONFIG as u64), 1);
    assert_eq!(fake.word(DCBAAP as u64), HEAP as u32);
    assert_eq!(fake.word(CRCR as u64), COMMAND_RING as u32 | 1);
    assert_eq!(fake.word(ERSTSZ as u64), 1);
    assert_eq!(fake.word(ERSTBA as u64), 0x10_1800);
    assert_eq!(
        [fake.word(0x10_1800), fake.word(0x10_1804), fake.word(0x10_1808), fake.word(0x10_180c)],
        [EVENT_SEGMENT as u32, 0, 32, 0]
    );
    assert_eq!(fake.word(ERDP as u64), EVENT_SEGMENT as u32);
    assert_eq!(fake.word(USBCMD as u64), 0x5);
    assert_eq!(fake.word(USBSTS as u64), 0);
    assert_eq!(bench.controller.command_ring_base(), COMMAND_RING);
    assert_eq!(bench.controller.event_ring_dequeue_pointer(), EVENT_SEGMENT);
    assert_eq!(bench.controller.devices(), 0);
}

#[test]
fn bring_up_fails_fast_on_a_controller_that_cannot_be_reset() {
    let mut fake = Fake::new(1);
    fake.words.insert(USBSTS, 1 | 1 << 11);
    let mut mem = Recorded::new(fake);
    let mut allocator = LinearAllocator::new(HEAP, HEAP + 0x10_0000);
    let registers = Registers::new(&mut mem, MemoryMappedAddr::new(BASE).unwrap()).unwrap();
    let r = XhcController::new(
        &mut mem,
        &mut allocator,
        registers,
        MouseDriver::new(),
        KeyboardDriver::new(),
    );
    assert_eq!(
        r.err(),
        Some(PciError::FailedOperateToRegister(OperationReason::SpinTimeout {
            expect: 0,
            attempts: 10
        }))
    );
    assert_eq!(allocator.allocate(0), Some(HEAP));
    assert_eq!(mem.raw().word(CONFIG as u64), 0);
    assert_eq!(mem.raw().word(CRCR as u64), 0);
}

#[test]
fn bring_up_fails_with_the_error_of_the_first_step_that_fails() {
    let attempt = |heap: u64, end: u64| {
        let mut mem = Recorded::new(Fake::new(1));
        let mut allocator = LinearAllocator::new(heap, end);
        let registers = Registers::new(&mut mem, MemoryMappedAddr::new(BASE).unwrap()).unwrap();
        let r = XhcController::new(
            &mut mem,
            &mut allocator,
            registers,
            MouseDriver::new(),
            KeyboardDriver::new(),
        );
        (r.err(), mem.into_raw())
    };
    let not_enough = Some(PciError::FailedAllocate(AllocateReason::NotEnoughMemory));
    let (error, fake) = attempt(HEAP, HEAP + 0x100);
    assert_eq!(error, not_enough);
    assert_eq!(fake.word(CONFIG as u64), 1);
    assert_eq!(fake.word(DCBAAP as u64), 0);
    let (error, fake) = attempt(HEAP, HEAP + 0x1700);
    assert_eq!(error, not_enough);
    assert_eq!(fake.word(DCBAAP as u64), HEAP as u32);
    assert_eq!(fake.word(CRCR as u64), 0);
    let (error, fake) = attempt(HEAP, HEAP + 0x1808);
    assert_eq!(error, not_enough);
    assert_eq!(fake.word(CRCR as u64), COMMAND_RING as u32 | 1);
    assert_eq!(fake.word(ERSTSZ as u64), 0);
    let (error, fake) = attempt(HEAP, HEAP + 0x1840);
    assert_eq!(error, not_enough);
    assert_eq!(fake.word(ERSTBA as u64), 0);
    assert_eq!(fake.word(USBCMD as u64), 0);
    let (error, _) = attempt(HEAP, HEAP + 0x1a40);
    assert_eq!(error, None);
}

#[test]
fn init_of_the_register_set_hands_out_the_event_ring() {
    let mut mem = Recorded::new(Fake::new(1));
    let mut allocator = LinearAllocator::new(HEAP, HEAP + 0x10_0000);
    let registers = Registers::new(&mut mem, MemoryMappedAddr::new(BASE).unwrap()).unwrap();
    let ring = registers.init(&mut mem, &mut allocator).unwrap();
    assert_eq!(ring.segments_count(), 1);
    assert!(ring.cycle_state());
    assert_eq!(ring.dequeue_pointer(), 0x10_1840);
    assert_eq!(ring.segment_table(), vec![[0x10_1840, 0, 32, 0]]);
    let fake = mem.raw();
    assert_eq!(fake.word(CONFIG as u64), 1);
    assert_eq!(fake.word(DCBAAP as u64), HEAP as u32);
    assert_eq!(fake.word(CRCR as u64), 0x10_0801);
    assert_eq!(fake.word(ERSTBA as u64), 0x10_1800);
    assert_eq!(
        [fake.word(0x10_1800), fake.word(0x10_1804), fake.word(0x10_1808), fake.word(0x10_180c)],
        [0x10_1840, 0, 32, 0]
    );
    assert_eq!(fake.word(ERDP as u64), 0x10_1840);
    assert_eq!(fake.word(USBCMD as u64), 0x4);
}

#[test]
fn an_attached_mouse_is_taken_from_reset_to_reports() {
    let mut bench = Bench::new();

    assert_eq!(bench.port_changed(), Ok(None));
    assert_eq!(bench.fake().word(PORTSC1 as u64), 0x0020_0003);
    assert_eq!(bench.controller.devices(), 0);

    assert_eq!(bench.port_changed(), Ok(None));
    assert_eq!(bench.fake().word(PORTSC1 as u64), 0x0000_0003);
    assert_eq!(bench.fake().block(COMMAND_RING), Trb::enable_slot().with_cycle_bit(true));
    assert_eq!(bench.fake().rung, vec![(0, 0)]);

    assert_eq!(bench.command_done(0, 1), Ok(None));
    assert_eq!(bench.controller.devices(), 1);
    assert_eq!(bench.controller.phase_rank(1), Some(0));
    assert_eq!(bench.controller.interface_nums(1), None);
    assert_eq!(
        bench.fake().block(COMMAND_RING + 16),
        Trb::address_device(INPUT_CONTEXT, 1).with_cycle_bit(true)
    );
    assert_eq!(bench.fake().rung, vec![(0, 0), (0, 0)]);

    assert_eq!(bench.command_done(1, 1), Ok(None));
    assert_eq!(bench.controller.phase_rank(1), Some(1));
    assert_eq!(bench.controller.interface_nums(1), None);
    assert_eq!(
        bench.fake().block(CONTROL_RING),
        Trb { parameter: 0x0100_0000_0200_0680, status: 8, control: 0x0003_0841 }
    );
    assert_eq!(
        bench.fake().block(CONTROL_RING + 16),
        Trb::data_stage(DATA_BUFF, 256, true, true).with_cycle_bit(true)
    );
    assert_eq!(
        bench.fake().block(CONTROL_RING + 32),
        Trb::status_stage(false, false).with_cycle_bit(true)
    );
    assert_eq!(bench.fake().rung.last(), Some(&(1, 1)));

    bench.put_bytes(DATA_BUFF, &boot_mouse());
    assert_eq!(bench.transferred(CONTROL_RING + 16, 256 - 34, 1), Ok(None));
    assert_eq!(bench.controller.phase_rank(1), Some(2));
    assert_eq!(bench.controller.interface_nums(1), Some(vec![0]));
    assert_eq!(
        bench.fake().block(CONTROL_RING + 48),
        Trb { parameter: 0x0000_0000_0001_0900, status: 8, control: 0x0841 }
    );
    assert_eq!(
        bench.fake().block(CONTROL_RING + 64),
        Trb::status_stage(true, true).with_cycle_bit(true)
    );

    assert_eq!(bench.transferred(CONTROL_RING + 64, 0, 1), Ok(None));
    assert_eq!(bench.controller.phase_rank(1), Some(2));
    assert_eq!(
        bench.fake().block(COMMAND_RING + 32),
        Trb::configure_endpoint(INPUT_CONTEXT, 1).with_cycle_bit(true)
    );

    assert_eq!(bench.command_done(2, 1), Ok(None));
    assert_eq!(
        bench.fake().block(FIRST_PIPE_RING),
        Trb::normal(FIRST_PIPE_BUFF, 8).with_cycle_bit(true)
    );
    assert_eq!(bench.fake().rung.last(), Some(&(1, 3)));
    let rung = bench.fake().rung.len();

    bench.put_bytes(FIRST_PIPE_BUFF, &[0x01, 5, 0xfd, 0]);
    bench.write(Event::Transfer {
        trb_pointer: FIRST_PIPE_RING,
        residual_length: 4,
        completion_code: 13,
        endpoint_id: 3,
        slot_id: 1,
    });
    let outcomes = bench.process();
    assert_eq!(
        outcomes,
        vec![Ok(Some(InputReport::Mouse(MouseReport {
            buttons: 0x01,
            dx: 5,
            dy: -3,
            wheel: 0,
            previous_buttons: 0
        })))]
    );
    let mut subscribed = Subscribed::new(Seen(Vec::new()), Keys(Vec::new()));
    subscribed.hand_all(&outcomes);
    subscribed.hand_all(&bench.process());
    assert_eq!(
        subscribed.mouse().0,
        vec![MouseReport { buttons: 0x01, dx: 5, dy: -3, wheel: 0, previous_buttons: 0 }]
    );
    assert!(subscribed.keyboard().0.is_empty());
    assert_eq!(bench.process(), vec![]);
    assert_eq!(bench.controller.phase_rank(1), Some(2));
    assert_eq!(bench.controller.interface_nums(1), Some(vec![0]));
    assert_eq!(
        bench.fake().block(FIRST_PIPE_RING + 16),
        Trb::normal(FIRST_PIPE_BUFF, 8).with_cycle_bit(true)
    );
    assert_eq!(bench.fake().rung.len(), rung + 1);
    assert_eq!(bench.fake().rung.last(), Some(&(1, 3)));
    assert_eq!(bench.fake().word(ERDP as u64), EVENT_SEGMENT as u32 + 16 * 8);
}

#[test]
fn reports_keep_coming_and_remember_the_buttons() {
    let mut bench = Bench::new();
    bench.enumerate(&boot_mouse());
    bench.put_bytes(FIRST_PIPE_BUFF, &[0x03, 1, 1, 1]);
    assert!(matches!(
        bench.transferred(FIRST_PIPE_RING, 4, 3),
        Ok(Some(InputReport::Mouse(MouseReport { buttons: 3, previous_buttons: 0, .. })))
    ));
    bench.put_bytes(FIRST_PIPE_BUFF, &[0x00, 0xff, 0, 0]);
    assert_eq!(
        bench.transferred(FIRST_PIPE_RING + 16, 4, 3),
        Ok(Some(InputReport::Mouse(MouseReport {
            buttons: 0,
            dx: -1,
            dy: 0,
            wheel: 0,
            previous_buttons: 3
        })))
    );
}

#[test]
fn events_that_came_together_are_handled_in_their_order() {
    let mut bench = Bench::new();
    bench.write(Event::PortStatusChange { port_id: 1, completion_code: 1 });
    bench.write(Event::PortStatusChange { port_id: 1, completion_code: 1 });
    bench.write(Event::NotSupport { trb_type: 37 });
    assert_eq!(bench.process(), vec![Ok(None), Ok(None), Ok(None)]);
    assert_eq!(bench.fake().block(COMMAND_RING), Trb::enable_slot().with_cycle_bit(true));
    assert_eq!(bench.fake().word(ERDP as u64), EVENT_SEGMENT as u32 + 48);
    assert_eq!(bench.controller.event_ring_dequeue_pointer(), EVENT_SEGMENT + 48);
}

#[test]
fn an_event_that_fails_does_not_stop_the_events_after_it() {
    let mut bench = Bench::new();
    bench.enumerate(&boot_mouse());
    bench.put_bytes(FIRST_PIPE_BUFF, &[0x01, 2, 3, 0]);
    bench.write(Event::Transfer {
        trb_pointer: FIRST_PIPE_RING,
        residual_length: 4,
        completion_code: 13,
        endpoint_id: 3,
        slot_id: 2,
    });
    bench.write(Event::CommandCompletion {
        command_trb_pointer: COMMAND_RING + 16 * 20,
        completion_code: 1,
        slot_id: 1,
    });
    bench.write(Event::Transfer {
        trb_pointer: FIRST_PIPE_RING,
        residual_length: 4,
        completion_code: 13,
        endpoint_id: 3,
        slot_id: 1,
    });
    let outcomes = bench.process();
    assert_eq!(outcomes.len(), 3);
    assert_eq!(
        outcomes[0],
        Err(PciError::FailedOperateDevice(DeviceReason::InvalidSlot { slot_id: 2 }))
    );
    assert_eq!(outcomes[1], Err(PciError::FailedOperateRing(RingReason::NothingPending)));
    assert!(matches!(outcomes[2], Ok(Some(InputReport::Mouse(MouseReport { buttons: 1, .. })))));
}

#[test]
fn a_malformed_configuration_leaves_the_device_in_its_phase() {
    let mut bench = Bench::new();
    assert_eq!(bench.port_changed(), Ok(None));
    assert_eq!(bench.port_changed(), Ok(None));
    assert_eq!(bench.command_done(0, 1), Ok(None));
    assert_eq!(bench.command_done(1, 1), Ok(None));
    let mut bytes = boot_mouse();
    bytes[9] = 1;
    bench.put_bytes(DATA_BUFF, &bytes);
    assert_eq!(
        bench.transferred(CONTROL_RING + 16, 256 - 34, 1),
        Err(PciError::FailedOperateDevice(DeviceReason::MalformedDescriptor { offset: 9 }))
    );
    assert_eq!(bench.controller.phase_rank(1), Some(1));
    assert_eq!(bench.controller.interface_nums(1), None);
    assert_eq!(bench.fake().block(CONTROL_RING + 48), Trb { parameter: 0, status: 0, control: 0 });
}

#[test]
fn a_buffer_that_is_no_configuration_leaves_the_device_in_its_phase() {
    let mut bench = Bench::new();
    assert_eq!(bench.port_changed(), Ok(None));
    assert_eq!(bench.port_changed(), Ok(None));
    assert_eq!(bench.command_done(0, 1), Ok(None));
    assert_eq!(bench.command_done(1, 1), Ok(None));
    bench.put_bytes(DATA_BUFF, &[9, 4, 0, 0, 1, 3, 1, 2, 0]);
    assert_eq!(
        bench.transferred(CONTROL_RING + 16, 256 - 9, 1),
        Err(PciError::FailedOperateDevice(DeviceReason::NotConfigurationDescriptor))
    );
    assert_eq!(bench.controller.phase_rank(1), Some(1));
}

#[test]
fn a_keyboard_and_a_mouse_in_one_device_both_report() {
    let mut bench = Bench::new();
    bench.enumerate(&keyboard_and_mouse());
    assert_eq!(bench.controller.interface_nums(1), Some(vec![0, 1]));
    assert_eq!(
        bench.fake().block(FIRST_PIPE_RING),
        Trb::normal(FIRST_PIPE_BUFF, 8).with_cycle_bit(true)
    );
    assert_eq!(
        bench.fake().block(SECOND_PIPE_RING),
        Trb::normal(SECOND_PIPE_BUFF, 8).with_cycle_bit(true)
    );
    bench.put_bytes(SECOND_PIPE_BUFF, &[0x02, 0, 4, 0, 0, 0, 0, 0]);
    assert_eq!(
        bench.transferred(SECOND_PIPE_RING, 0, 3),
        Ok(Some(InputReport::Keyboard(KeyboardReport {
            modifiers: 2,
            keycodes: [4, 0, 0, 0, 0, 0],
            previous_modifiers: 0
        })))
    );
    bench.put_bytes(FIRST_PIPE_BUFF, &[0x04, 1, 2, 3]);
    assert_eq!(
        bench.transferred(FIRST_PIPE_RING, 4, 5),
        Ok(Some(InputReport::Mouse(MouseReport {
            buttons: 4,
            dx: 1,
            dy: 2,
            wheel: 3,
            previous_buttons: 0
        })))
    );
}

#[test]
fn a_transfer_on_an_endpoint_of_no_input_device_is_refused() {
    let mut bench = Bench::new();
    bench.enumerate(&boot_mouse());
    assert_eq!(
        bench.transferred(FIRST_PIPE_RING, 0, 5),
        Err(PciError::FailedOperateDevice(DeviceReason::UnexpectedTransfer))
    );
}

#[test]
fn a_transfer_that_failed_gives_no_report() {
    let mut bench = Bench::new();
    bench.enumerate(&boot_mouse());
    bench.put_bytes(FIRST_PIPE_BUFF, &[0x01, 2, 3, 0]);
    assert_eq!(
        bench.send(Event::Transfer {
            trb_pointer: FIRST_PIPE_RING,
            residual_length: 8,
            completion_code: 4,
            endpoint_id: 3,
            slot_id: 1,
        }),
        Err(PciError::FailedOperateDevice(DeviceReason::CompletionFailed { completion_code: 4 }))
    );
    assert_eq!(bench.controller.phase_rank(1), Some(2));
    assert_eq!(
        bench.fake().block(FIRST_PIPE_RING + 16),
        Trb { parameter: 0, status: 0, control: 0 }
    );
}

#[test]
fn a_report_longer_than_what_was_asked_for_is_refused() {
    let mut bench = Bench::new();
    bench.enumerate(&boot_mouse());
    assert_eq!(
        bench.send(Event::Transfer {
            trb_pointer: FIRST_PIPE_RING,
            residual_length: 9,
            completion_code: 13,
            endpoint_id: 3,
            slot_id: 1,
        }),
        Err(PciError::FailedOperateDevice(DeviceReason::InvalidTransferLength))
    );
}

#[test]
fn a_command_that_failed_moves_no_device() {
    let mut bench = Bench::new();
    assert_eq!(bench.port_changed(), Ok(None));
    assert_eq!(bench.port_changed(), Ok(None));
    assert_eq!(
        bench.send(Event::CommandCompletion {
            command_trb_pointer: COMMAND_RING,
            completion_code: 9,
            slot_id: 0
        }),
        Err(PciError::FailedOperateDevice(DeviceReason::CompletionFailed { completion_code: 9 }))
    );
    assert_eq!(bench.controller.devices(), 0);
}

#[test]
fn a_slot_beyond_those_enabled_is_refused() {
    let mut bench = Bench::new();
    assert_eq!(bench.port_changed(), Ok(None));
    assert_eq!(bench.port_changed(), Ok(None));
    assert_eq!(
        bench.command_done(0, 2),
        Err(PciError::FailedOperateDevice(DeviceReason::InvalidSlot { slot_id: 2 }))
    );
    assert_eq!(bench.controller.devices(), 0);
}

#[test]
fn a_port_without_a_device_is_left_alone() {
    let mut fake = Fake::new(1);
    fake.words.insert(PORTSC1, 0x0002_0000);
    let mut bench = Bench::with(fake);
    assert_eq!(bench.port_changed(), Ok(None));
    assert_eq!(bench.fake().word(PORTSC1 as u64), 0x0002_0000);
    assert_eq!(bench.controller.reset_port(&mut bench.mem, 1), Ok(()));
    assert_eq!(bench.fake().word(PORTSC1 as u64), 0x0002_0000);
    assert_eq!(
        bench.controller.reset_port(&mut bench.mem, 0),
        Err(PciError::FailedOperateDevice(DeviceReason::InvalidSlot { slot_id: 0 }))
    );
}

#[test]
fn reset_port_starts_the_reset_of_a_port_with_a_device() {
    let mut bench = Bench::new();
    assert_eq!(bench.controller.reset_port(&mut bench.mem, 1), Ok(()));
    assert_eq!(bench.fake().word(PORTSC1 as u64), 0x0020_0003);
}

#[test]
fn the_first_port_with_a_device_is_the_one_that_is_reset() {
    let mut fake = Fake::new(1);
    fake.words.insert(BASE + 4, 0x0300_0001);
    fake.words.insert(PORTSC1, 0x0002_0000);
    fake.words.insert(PORTSC1 + 0x10, 0x0000_0001);
    fake.words.insert(PORTSC1 + 0x20, 0x0000_0001);
    let mut bench = Bench::with(fake);
    assert_eq!(bench.controller.reset_first_connected_port(&mut bench.mem), Some(2));
    assert_eq!(bench.fake().word(PORTSC1 as u64), 0x0002_0000);
    // The bench keeps the stores into the registers behind the first port
    // with those into the doorbells, which lie in the same stretch.
    let second_port = (PORTSC1 + 0x10 - DOORBELLS) / 4;
    assert_eq!(bench.fake().rung.len(), 1);
    assert_eq!(bench.fake().rung[0].0, second_port);
    assert_eq!(bench.fake().rung[0].1 & 0x0002_0011, 0x0002_0010);
    assert_eq!(bench.fake().word(PORTSC1 as u64 + 0x20), 0x0000_0001);

    let mut single = Bench::new();
    assert_eq!(single.controller.reset_first_connected_port(&mut single.mem), Some(1));
    assert_eq!(single.fake().word(PORTSC1 as u64), 0x0020_0003);
}

#[test]
fn no_port_is_reset_where_none_has_a_device() {
    let mut fake = Fake::new(1);
    fake.words.insert(BASE + 4, 0x0200_0001);
    fake.words.insert(PORTSC1, 0x0002_0000);
    let mut bench = Bench::with(fake);
    assert_eq!(bench.controller.reset_first_connected_port(&mut bench.mem), None);
    assert_eq!(bench.fake().word(PORTSC1 as u64), 0x0002_0000);
    assert!(bench.fake().rung.is_empty());
}

#[test]
fn bring_up_puts_the_command_ring_on_a_64_byte_boundary() {
    let mut mem = Recorded::new(Fake::new(1));
    let mut allocator = LinearAllocator::new(HEAP + 8, HEAP + 0x10_0000);
    let registers = Registers::new(&mut mem, MemoryMappedAddr::new(BASE).unwrap()).unwrap();
    let controller = XhcController::new(
        &mut mem,
        &mut allocator,
        registers,
        MouseDriver::new(),
        KeyboardDriver::new(),
    )
    .unwrap();
    assert_eq!(controller.command_ring_base(), HEAP + 0x840);
    assert_eq!(mem.raw().word(CRCR as u64), (HEAP + 0x840) as u32 | 1);
    assert_eq!(mem.raw().word(DCBAAP as u64), (HEAP + 0x40) as u32);
}
