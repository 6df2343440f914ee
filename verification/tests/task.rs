use xhc_core::task::CpuRegisters;
use xhc_core::task::FxSaveArea;
use xhc_core::task::TaskContext;
use xhc_core::task::TaskOrder;
use xhc_core::task::TimeHandle;

fn registers() -> CpuRegisters {
    CpuRegisters {
        cr3: 0x1000,
        rip: 0xffff_8000_0010_2030,
        flags: 0x202,
        cs: 0x08,
        ss: 0x10,
        fs: 0x18,
        gs: 0x20,
        rax: 1,
        rbx: 2,
        rcx: 3,
        rdx: 4,
        rdi: 5,
        rsi: 6,
        rsp: 0x7fff_ffff_e000,
        rbp: 8,
        r8: 9,
        r9: 10,
        r10: 11,
        r11: 12,
        r12: 13,
        r13: 14,
        r14: 15,
        r15: 16,
        fx_save_area: [0x5a; 512],
    }
}

#[test]
fn it_store_rsp() {
    let mut t = TaskContext::default();
    let rsp = registers().rsp;
    t.store_rsp(rsp);
    assert_eq!(t.rsp, rsp);
}

#[test]
fn it_store_rip() {
    let mut t = TaskContext::default();
    let rip = registers().rip;
    t.store_rip(rip);
    assert_eq!(t.rip, rip);
}

#[test]
fn it_store_flags() {
    let mut t = TaskContext::default();
    let flags = registers().flags;
    t.store_flags(flags);
    assert_eq!(t.flags, flags);
}

#[test]
fn it_store_cs() {
    let mut t = TaskContext::default();
    let cs = registers().cs;
    t.store_cs(cs);
    assert_eq!(t.cs, cs);
}

#[test]
fn it_store_ss() {
    let mut t = TaskContext::default();
    let ss = registers().ss;
    t.store_ss(ss);
    assert_eq!(t.ss, ss);
}

#[test]
fn it_store_fs() {
    let mut t = TaskContext::default();
    let fs = registers().fs;
    t.store_fs(fs);
    assert_eq!(t.fs, fs);
}

#[test]
fn it_store_gs() {
    let mut t = TaskContext::default();
    let gs = registers().gs;
    t.store_gs(gs);
    assert_eq!(t.gs, gs);
}

#[test]
fn a_new_context_holds_zeros() {
    let t = TaskContext::new();
    assert_eq!(t.cr3, 0);
    assert_eq!(t.rip, 0);
    assert_eq!(t.flags, 0);
    assert_eq!(t.cs, 0);
    assert_eq!(t.rax, 0);
    assert_eq!(t.rsp, 0);
    assert_eq!(t.r15, 0);
    assert_eq!(t.fx_save_area, [0u8; 512]);
}

#[test]
fn store_registers_takes_over_every_register() {
    let mut t = TaskContext::new();
    let r = registers();
    t.store_registers(&r);
    assert_eq!(t.cr3, r.cr3);
    assert_eq!(t.rip, r.rip);
    assert_eq!(t.flags, r.flags);
    assert_eq!(t.cs, r.cs);
    assert_eq!(t.ss, r.ss);
    assert_eq!(t.fs, r.fs);
    assert_eq!(t.gs, r.gs);
    assert_eq!(t.rax, r.rax);
    assert_eq!(t.rbx, r.rbx);
    assert_eq!(t.rcx, r.rcx);
    assert_eq!(t.rdx, r.rdx);
    assert_eq!(t.rdi, r.rdi);
    assert_eq!(t.rsi, r.rsi);
    assert_eq!(t.rsp, r.rsp);
    assert_eq!(t.rbp, r.rbp);
    assert_eq!(t.r8, r.r8);
    assert_eq!(t.r9, r.r9);
    assert_eq!(t.r10, r.r10);
    assert_eq!(t.r11, r.r11);
    assert_eq!(t.r12, r.r12);
    assert_eq!(t.r13, r.r13);
    assert_eq!(t.r14, r.r14);
    assert_eq!(t.r15, r.r15);
    assert_eq!(t.fx_save_area, r.fx_save_area);
}

#[test]
fn storing_one_register_leaves_the_others() {
    let mut t = TaskContext::new();
    t.store_registers(&registers());
    t.store_cs(0x33);
    assert_eq!(t.cs, 0x33);
    assert_eq!(t.ss, 0x10);
    assert_eq!(t.rip, 0xffff_8000_0010_2030);
}

#[test]
fn fx_save_area_starts_out_as_zeros_and_takes_bytes() {
    let mut area = FxSaveArea::new();
    assert_eq!(area.buff().len(), 512);
    assert!(area.buff().iter().all(|b| *b == 0));
    area.set(511, 0xaa);
    assert_eq!(area.buff()[511], 0xaa);
    assert_eq!(area.buff()[510], 0);
}

#[test]
fn tasks_take_turns_in_the_order_in_which_they_were_added() {
    let mut order = TaskOrder::new();
    assert_eq!(order.switch(), None);
    assert_eq!(order.add(), Some(1));
    assert_eq!(order.add(), Some(2));
    assert_eq!(order.switch(), Some((0, 1)));
    assert_eq!(order.switch(), Some((1, 2)));
    assert_eq!(order.switch(), Some((2, 0)));
    assert_eq!(order.switch(), Some((0, 1)));
}

#[test]
fn work_is_due_with_every_tick_that_completes_the_interval() {
    let mut handle = TimeHandle::new(3);
    let due: Vec<bool> = (0..7).map(|_| handle.tick()).collect();
    assert_eq!(due, vec![false, false, true, false, false, true, false]);
    let mut every = TimeHandle::new(0);
    assert!(every.tick());
    assert!(every.tick());
    let mut each = TimeHandle::new(1);
    assert!(each.tick());
}
