use vstd::prelude::*;

verus! {

/// The size of the area that the extended state of the processor is saved
/// in.
pub const FX_SAVE_AREA_SIZE: usize = 512;

/// The area that the extended state of the processor is saved in.
#[derive(Debug, Copy, Clone)]
pub struct FxSaveArea([u8; 512]);

impl FxSaveArea {
    /// The bytes of the area.
    pub closed spec fn bytes(&self) -> Seq<u8> {
        self.0@
    }

    /// An area of zeros.
    pub fn new() -> (area: Self)
        ensures
            area.bytes() == Seq::new(512, |i: int| 0u8),
    {
        let area = Self([0; 512]);
        assert(area.0@ =~= Seq::new(512, |i: int| 0u8));
        area
    }

    /// The bytes of the area.
    pub fn buff(&self) -> (buff: &[u8])
        ensures
            buff@ == self.bytes(),
    {
        self.0.as_slice()
    }

    /// The bytes of the area, to be written to.
    pub fn buff_mut(&mut self) -> (buff: &mut [u8])
        ensures
            buff@ == old(self).bytes(),
            final(self).bytes() == final(buff)@,
    {
        &mut self.0
    }

    /// Replaces the byte at `index`.
    pub fn set(&mut self, index: usize, byte: u8)
        requires
            index < 512,
        ensures
            final(self).bytes() == old(self).bytes().update(index as int, byte),
    {
        self.0[index] = byte;
    }
}

/// The registers of the processor as they were read at one moment.
#[derive(Debug, Copy, Clone)]
pub struct CpuRegisters {
    pub cr3: u64,
    pub rip: u64,
    pub flags: u64,
    pub cs: u64,
    pub ss: u64,
    pub fs: u64,
    pub gs: u64,
    pub rax: u64,
    pub rbx: u64,
    pub rcx: u64,
    pub rdx: u64,
    pub rdi: u64,
    pub rsi: u64,
    pub rsp: u64,
    pub rbp: u64,
    pub r8: u64,
    pub r9: u64,
    pub r10: u64,
    pub r11: u64,
    pub r12: u64,
    pub r13: u64,
    pub r14: u64,
    pub r15: u64,
    pub fx_save_area: [u8; 512],
}

/// What is kept of a task while another one runs: the registers it is
/// resumed with.
#[derive(Debug)]
pub struct TaskContext {
    pub cr3: u64,
    pub rip: u64,
    pub flags: u64,
    pub cs: u64,
    pub ss: u64,
    pub fs: u64,
    pub gs: u64,
    pub rax: u64,
    pub rbx: u64,
    pub rcx: u64,
    pub rdx: u64,
    pub rdi: u64,
    pub rsi: u64,
    pub rsp: u64,
    pub rbp: u64,
    pub r8: u64,
    pub r9: u64,
    pub r10: u64,
    pub r11: u64,
    pub r12: u64,
    pub r13: u64,
    pub r14: u64,
    pub r15: u64,
    pub fx_save_area: [u8; 512],
}

impl TaskContext {
    /// The registers that the context holds.
    pub open spec fn registers(&self) -> CpuRegisters {
        CpuRegisters {
            cr3: self.cr3,
            rip: self.rip,
            flags: self.flags,
            cs: self.cs,
            ss: self.ss,
            fs: self.fs,
            gs: self.gs,
            rax: self.rax,
            rbx: self.rbx,
            rcx: self.rcx,
            rdx: self.rdx,
            rdi: self.rdi,
            rsi: self.rsi,
            rsp: self.rsp,
            rbp: self.rbp,
            r8: self.r8,
            r9: self.r9,
            r10: self.r10,
            r11: self.r11,
            r12: self.r12,
            r13: self.r13,
            r14: self.r14,
            r15: self.r15,
            fx_save_area: self.fx_save_area,
        }
    }

    /// All registers are zero.
    pub open spec fn is_zero(&self) -> bool {
        &&& self.cr3 == 0 && self.rip == 0 && self.flags == 0
        &&& self.cs == 0 && self.ss == 0 && self.fs == 0 && self.gs == 0
        &&& self.rax == 0 && self.rbx == 0 && self.rcx == 0 && self.rdx == 0
        &&& self.rdi == 0 && self.rsi == 0 && self.rsp == 0 && self.rbp == 0
        &&& self.r8 == 0 && self.r9 == 0 && self.r10 == 0 && self.r11 == 0
        &&& self.r12 == 0 && self.r13 == 0 && self.r14 == 0 && self.r15 == 0
        &&& self.fx_save_area@ == Seq::new(512, |i: int| 0u8)
    }

    /// A context in which all registers are zero.
    pub fn new() -> (context: Self)
        ensures
            context.is_zero(),
    {
        let context = Self {
            rax: 0,
            rbx: 0,
            rcx: 0,
            rdx: 0,
            rdi: 0,
            rsi: 0,
            rsp: 0,
            rbp: 0,
            r8: 0,
            r9: 0,
            r10: 0,
            r11: 0,
            r12: 0,
            r13: 0,
            r14: 0,
            r15: 0,
            cr3: 0,
            rip: 0,
            flags: 0,
            cs: 0,
            ss: 0,
            fs: 0,
            gs: 0,
            fx_save_area: [0; 512],
        };
        assert(context.fx_save_area@ =~= Seq::new(512, |i: int| 0u8));
        context
    }

    /// Takes over the registers in `registers`, all of them.
    pub fn store_registers(&mut self, registers: &CpuRegisters)
        ensures
            final(self).registers() == *registers,
    {
        self.rax = registers.rax;
        self.rip = registers.rip;
        self.rbx = registers.rbx;
        self.rcx = registers.rcx;
        self.rdx = registers.rdx;
        self.rdi = registers.rdi;
        self.rsi = registers.rsi;
        self.rsp = registers.rsp;
        self.rbp = registers.rbp;
        self.r8 = registers.r8;
        self.r9 = registers.r9;
        self.r10 = registers.r10;
        self.r11 = registers.r11;
        self.r12 = registers.r12;
        self.r13 = registers.r13;
        self.r14 = registers.r14;
        self.r15 = registers.r15;
        self.cr3 = registers.cr3;
        self.flags = registers.flags;
        self.cs = registers.cs;
        self.ss = registers.ss;
        self.fs = registers.fs;
        self.gs = registers.gs;
        self.fx_save_area = registers.fx_save_area;
    }

    /// Takes over the stack pointer.
    pub fn store_rsp(&mut self, rsp: u64)
        ensures
            final(self).registers() == (CpuRegisters { rsp, ..old(self).registers() }),
    {
        self.rsp = rsp;
    }

    /// Takes over the instruction pointer.
    pub fn store_rip(&mut self, rip: u64)
        ensures
            final(self).registers() == (CpuRegisters { rip, ..old(self).registers() }),
    {
        self.rip = rip;
    }

    /// Takes over the flags.
    pub fn store_flags(&mut self, flags: u64)
        ensures
            final(self).registers() == (CpuRegisters { flags, ..old(self).registers() }),
    {
        self.flags = flags;
    }

    /// Takes over the code segment register.
    pub fn store_cs(&mut self, cs: u64)
        ensures
            final(self).registers() == (CpuRegisters { cs, ..old(self).registers() }),
    {
        self.cs = cs;
    }

    /// Takes over the stack segment register.
    pub fn store_ss(&mut self, ss: u64)
        ensures
            final(self).registers() == (CpuRegisters { ss, ..old(self).registers() }),
    {
        self.ss = ss;
    }

    /// Takes over the segment register `fs`.
    pub fn store_fs(&mut self, fs: u64)
        ensures
            final(self).registers() == (CpuRegisters { fs, ..old(self).registers() }),
    {
        self.fs = fs;
    }

    /// Takes over the segment register `gs`.
    pub fn store_gs(&mut self, gs: u64)
        ensures
            final(self).registers() == (CpuRegisters { gs, ..old(self).registers() }),
    {
        self.gs = gs;
    }
}

impl Default for TaskContext {
    fn default() -> (context: Self)
        ensures
            context.is_zero(),
    {
        Self::new()
    }
}

/// Whose turn it is among the tasks that share the processor. The tasks
/// are numbered in the order in which they were added, from zero, and take
/// turns in that order.
#[derive(Debug, Clone, Copy, PartialEq, Eq, Structural)]
pub struct TaskOrder {
    tasks: usize,
    running: usize,
}

impl TaskOrder {
    /// The number of tasks.
    pub closed spec fn tasks(&self) -> usize {
        self.tasks
    }

    /// The task that runs.
    pub closed spec fn running(&self) -> usize {
        self.running
    }

    /// There is a task, and the one that runs is one of them.
    pub open spec fn wf(&self) -> bool {
        self.running() < self.tasks()
    }

    /// The task whose turn comes after that of `running`: the next one, or
    /// the first after the last.
    pub open spec fn after(&self) -> usize {
        if self.running() + 1 < self.tasks() {
            (self.running() + 1) as usize
        } else {
            0
        }
    }

    /// The order of one task, the one that runs when the order is made.
    pub fn new() -> (order: Self)
        ensures
            order.wf(),
            order.tasks() == 1,
            order.running() == 0,
    {
        Self { tasks: 1, running: 0 }
    }

    /// Adds a task behind the others and returns its number; `None`, and
    /// nothing is added, where the tasks cannot be counted any further.
    pub fn add(&mut self) -> (added: Option<usize>)
        requires
            old(self).wf(),
        ensures
            final(self).wf(),
            final(self).running() == old(self).running(),
            old(self).tasks() < usize::MAX ==> added == Some(old(self).tasks())
                && final(self).tasks() == old(self).tasks() + 1,
            old(self).tasks() == usize::MAX ==> added is None && *final(self) == *old(self),
    {
        if self.tasks == usize::MAX {
            return None;
        }
        let added = self.tasks;
        self.tasks = self.tasks + 1;
        Some(added)
    }

    /// Passes the turn on. Returns the task that ran and the task that
    /// runs now, for the caller to switch between them; `None`, and the
    /// turn stays, where there is no other task.
    pub fn switch(&mut self) -> (turn: Option<(usize, usize)>)
        requires
            old(self).wf(),
        ensures
            final(self).wf(),
            final(self).tasks() == old(self).tasks(),
            old(self).tasks() == 1 ==> turn is None && final(self).running() == old(self).running(),
            old(self).tasks() > 1 ==> turn == Some((old(self).running(), old(self).after()))
                && final(self).running() == old(self).after(),
    {
        if self.tasks == 1 {
            return None;
        }
        let from = self.running;
        let to = if from + 1 < self.tasks {
            from + 1
        } else {
            0
        };
        self.running = to;
        Some((from, to))
    }
}

/// Work that comes due each time the timer has ticked `interval` times.
#[derive(Debug, Clone, Copy, PartialEq, Eq, Structural)]
pub struct TimeHandle {
    interval: u32,
    elapsed: u32,
}

impl TimeHandle {
    /// The number of ticks between two times that the work is due.
    pub closed spec fn interval(&self) -> u32 {
        self.interval
    }

    /// The number of ticks since the work was last due.
    pub closed spec fn elapsed(&self) -> u32 {
        self.elapsed
    }

    /// Fewer ticks have gone by than make the work due.
    pub open spec fn wf(&self) -> bool {
        self.interval() >= 1 && self.elapsed() < self.interval()
    }

    /// A handle for work that is due every `interval` ticks, counted from
    /// now; every tick for an interval of zero.
    pub fn new(interval: u32) -> (handle: Self)
        ensures
            handle.wf(),
            handle.elapsed() == 0,
            handle.interval() == if interval == 0 {
                1
            } else {
                interval
            },
    {
        Self {
            interval: if interval == 0 {
                1
            } else {
                interval
            },
            elapsed: 0,
        }
    }

    /// Counts one tick of the timer and says whether the work is due with
    /// it, from which tick the count begins anew.
    pub fn tick(&mut self) -> (due: bool)
        requires
            old(self).wf(),
        ensures
            final(self).wf(),
            final(self).interval() == old(self).interval(),
            due == (old(self).elapsed() + 1 == old(self).interval()),
            final(self).elapsed() == if due {
                0
            } else {
                old(self).elapsed() + 1
            },
    {
        if self.elapsed + 1 == self.interval {
            self.elapsed = 0;
            true
        } else {
            self.elapsed = self.elapsed + 1;
            false
        }
    }
}

} // verus!
