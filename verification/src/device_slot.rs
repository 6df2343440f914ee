use vstd::prelude::*;

use crate::control_pipe::ControlPipe;
use crate::registers::doorbell::Doorbell;
use crate::ring::Ring;

verus! {

/// The size of the buffer that control transfers of a device read into.
pub const DATA_BUFF_SIZE: usize = 256;

/// The size of the buffer that reports of an input device are read into.
pub const REPORT_BUFF_SIZE: usize = 8;

/// What the driver stages for the commands that address and configure a
/// device.
#[derive(Debug, Clone, Copy, PartialEq, Eq, Structural)]
pub struct InputContext {
    /// The root hub port the device is attached to.
    pub root_port: u8,
    /// The configuration the device is put into; zero for none.
    pub config_value: u8,
}

impl InputContext {
    pub fn new(root_port: u8) -> (context: Self)
        ensures
            context == (InputContext { root_port, config_value: 0 }),
    {
        InputContext { root_port, config_value: 0 }
    }

    /// Stages the configuration `config_value`.
    pub fn set_config(&mut self, config_value: u8)
        ensures
            *final(self) == (InputContext { config_value, ..*old(self) }),
    {
        self.config_value = config_value;
    }
}

/// The transfer ring of an endpoint that an input device sends its reports
/// on, with the buffer the reports arrive in.
pub struct InterruptPipe {
    /// The index of the endpoint's context in the device context, which is
    /// also its doorbell target.
    pub dci: u8,
    pub ring: Ring,
    /// The address of the buffer, as the controller sees it.
    pub buffer_addr: u64,
    /// The content of the buffer.
    pub buffer: Vec<u8>,
}

impl InterruptPipe {
    pub open spec fn wf(&self) -> bool {
        &&& self.ring.wf()
        &&& self.buffer@.len() == REPORT_BUFF_SIZE
    }
}

/// What the driver keeps for one attached device.
pub struct DeviceSlot {
    /// The number of the slot, which the controller granted.
    pub slot_id: u8,
    pub input_context: InputContext,
    pub default_control_pipe: ControlPipe,
    /// The doorbell of the slot.
    pub doorbell: Doorbell,
    /// The address of the buffer that control transfers read into, as the
    /// controller sees it.
    pub data_buff_addr: u64,
    /// The content of that buffer.
    pub data_buff: Vec<u8>,
    /// The pipe of the mouse interface, once its endpoint is configured.
    pub mouse_pipe: Option<InterruptPipe>,
    /// The pipe of the keyboard interface, once its endpoint is configured.
    pub keyboard_pipe: Option<InterruptPipe>,
}

impl DeviceSlot {
    /// The slot is in order.
    pub open spec fn wf(&self) -> bool {
        &&& self.default_control_pipe.wf()
        &&& self.default_control_pipe.doorbell() == self.doorbell
        &&& self.data_buff@.len() == DATA_BUFF_SIZE
        &&& self.mouse_pipe matches Some(pipe) ==> pipe.wf()
        &&& self.keyboard_pipe matches Some(pipe) ==> pipe.wf()
    }

    /// A slot for the device at the root hub port `root_port`, with an
    /// empty control pipe over `ring` and a buffer of zeros that the
    /// controller sees at `data_buff_addr`.
    pub fn new(slot_id: u8, root_port: u8, doorbell: Doorbell, ring: Ring, data_buff_addr: u64) -> (slot:
        Self)
        requires
            ring.wf(),
        ensures
            slot.wf(),
            slot.slot_id == slot_id,
            slot.input_context == (InputContext { root_port, config_value: 0 }),
            slot.default_control_pipe.ring() == ring@,
            slot.doorbell == doorbell,
            slot.data_buff_addr == data_buff_addr,
            slot.data_buff@ == Seq::new(DATA_BUFF_SIZE as nat, |i: int| 0u8),
            slot.mouse_pipe is None,
            slot.keyboard_pipe is None,
    {
        let mut data_buff: Vec<u8> = Vec::new();
        let mut i: usize = 0;
        while i < DATA_BUFF_SIZE
            invariant
                i <= DATA_BUFF_SIZE,
                data_buff@ == Seq::new(i as nat, |i: int| 0u8),
            decreases DATA_BUFF_SIZE - i,
        {
            data_buff.push(0);
            i = i + 1;
            assert(data_buff@ =~= Seq::new(i as nat, |i: int| 0u8));
        }
        DeviceSlot {
            slot_id,
            input_context: InputContext::new(root_port),
            default_control_pipe: ControlPipe::new(doorbell, ring),
            doorbell,
            data_buff_addr,
            data_buff,
            mouse_pipe: None,
            keyboard_pipe: None,
        }
    }

    /// Takes over what the controller wrote into the buffer of control
    /// transfers: the first bytes of the buffer become those of `data`, as
    /// far as they fit, and the rest stays.
    pub fn load_data(&mut self, data: &[u8])
        requires
            old(self).wf(),
        ensures
            final(self).wf(),
            final(self).data_buff@ == loaded(old(self).data_buff@, data@),
            final(self).slot_id == old(self).slot_id,
            final(self).input_context == old(self).input_context,
            final(self).default_control_pipe.ring() == old(self).default_control_pipe.ring(),
            final(self).doorbell == old(self).doorbell,
            final(self).data_buff_addr == old(self).data_buff_addr,
            final(self).mouse_pipe == old(self).mouse_pipe,
            final(self).keyboard_pipe == old(self).keyboard_pipe,
    {
        let mut i: usize = 0;
        while i < data.len() && i < DATA_BUFF_SIZE
            invariant
                i <= data@.len(),
                i <= DATA_BUFF_SIZE,
                self.data_buff@.len() == DATA_BUFF_SIZE,
                forall|k: int| 0 <= k < i ==> self.data_buff@[k] == data@[k],
                forall|k: int| i <= k < DATA_BUFF_SIZE ==> self.data_buff@[k] == old(self).data_buff@[k],
                self.slot_id == old(self).slot_id,
                self.input_context == old(self).input_context,
                self.default_control_pipe == old(self).default_control_pipe,
                self.doorbell == old(self).doorbell,
                self.data_buff_addr == old(self).data_buff_addr,
                self.mouse_pipe == old(self).mouse_pipe,
                self.keyboard_pipe == old(self).keyboard_pipe,
            decreases data@.len() - i,
        {
            self.data_buff.set(i, data[i]);
            i = i + 1;
        }
        assert(self.data_buff@ =~= loaded(old(self).data_buff@, data@));
    }
}

/// The buffer `buff` after `data` was written to its beginning, as far as
/// it fits.
pub open spec fn loaded(buff: Seq<u8>, data: Seq<u8>) -> Seq<u8> {
    Seq::new(
        buff.len(),
        |k: int|
            if k < data.len() {
                data[k]
            } else {
                buff[k]
            },
    )
}

} // verus!
