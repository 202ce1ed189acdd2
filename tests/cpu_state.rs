use hhutos_core::gdt::{gdt_layout, segment_setup, star_selectors, user_code_selector, user_data_selector, GdtEntry};
use hhutos_core::lfb::{BufferedLFB, LFB};
use hhutos_core::syscall::{Dispatch, Syscall, SyscallTable, NUM_SYSCALLS};
use hhutos_core::thread::{
    restore_context, save_context, RegisterFile, Thread, KERNEL_STACK_SLOTS, USER_STACK_ADDRESS,
};

fn regs(seed: u64) -> RegisterFile {
    RegisterFile {
        rax: seed + 1,
        rbx: seed + 2,
        rcx: seed + 3,
        rdx: seed + 4,
        rsi: seed + 5,
        rdi: seed + 6,
        rbp: seed + 7,
        r8: seed + 8,
        r9: seed + 9,
        r10: seed + 10,
        r11: seed + 11,
        r12: seed + 12,
        r13: seed + 13,
        r14: seed + 14,
        r15: seed + 15,
    }
}

#[test]
fn syscall_sleep_dispatches_to_handler_one() {
    let table = SyscallTable::new();
    assert_eq!(table.dispatch(1), Dispatch::Call(Syscall::ThreadSleep));
}

#[test]
fn syscall_out_of_range_aborts_with_id() {
    let table = SyscallTable::new();
    assert_eq!(table.dispatch(NUM_SYSCALLS as u64), Dispatch::Abort(3));
    assert_eq!(table.dispatch(u64::MAX), Dispatch::Abort(u64::MAX));
}

#[test]
fn syscall_bounds_check_accepts_table_ids() {
    let table = SyscallTable::new();
    assert_eq!(table.dispatch(0), Dispatch::Call(Syscall::ThreadSwitch));
    assert_eq!(table.dispatch(2), Dispatch::Call(Syscall::ThreadExit));
}

#[test]
fn gdt_order_and_selectors() {
    assert_eq!(
        gdt_layout(),
        vec![GdtEntry::Null, GdtEntry::KernelCode, GdtEntry::KernelData, GdtEntry::UserData, GdtEntry::UserCode, GdtEntry::TaskState]
    );
    let s = segment_setup();
    assert_eq!((s.cs, s.ss, s.tr), (0x08, 0x10, 0x28));
    assert_eq!((s.ds, s.es, s.fs, s.gs), (0, 0, 0, 0));
    assert_eq!(user_code_selector(), 0x23);
    assert_eq!(user_data_selector(), 0x1b);
}

#[test]
fn star_selectors_match_sysret_offsets() {
    let s = star_selectors();
    assert_eq!((s.cs_sysret, s.ss_sysret, s.cs_syscall, s.ss_syscall), (0x23, 0x1b, 0x08, 0x10));
    assert_eq!(s.cs_sysret - 16, s.ss_sysret - 8);
}

#[test]
fn fresh_kernel_thread_stack() {
    let t = Thread::new_kernel_thread(7, 0xffff_8000_0010_0000);
    let s = t.kernel_stack();
    let n = KERNEL_STACK_SLOTS;
    assert_eq!(s.len(), n);
    assert_eq!(s[n - 1], 0x00DEAD00);
    assert_eq!(s[n - 2], 0xffff_8000_0010_0000);
    assert_eq!(s[n - 3], 0x202);
    assert!(s[..n - 3].iter().all(|&v| v == 0));
    assert_eq!(t.old_rsp0_offset(), ((n - 18) * 8) as u64);
    assert_eq!(t.kernel_stack_top_offset(), ((n - 1) * 8) as u64);
    assert_eq!(t.id(), 7);
    assert!(t.is_kernel_thread());
}

#[test]
fn user_thread_promotion_frame() {
    let mut t = Thread::new_user_thread(3, 0x1000);
    assert!(!t.is_kernel_thread());
    t.switch_to_user_mode(0x2000);
    let s = t.kernel_stack();
    let n = KERNEL_STACK_SLOTS;
    assert_eq!(&s[n - 7..], &[0, 0x2000, 0x23, 0x202, USER_STACK_ADDRESS + (8192 - 1) * 8, 0x1b, 0x00DEAD00]);
    assert_eq!(t.old_rsp0_offset(), ((n - 7) * 8) as u64);
}

#[test]
fn context_frame_round_trip() {
    let r = regs(100);
    let frame = save_context(&r, 0x246, 0xabc);
    assert_eq!(frame.len(), 17);
    assert_eq!(frame[0], r.rbp);
    assert_eq!(frame[14], r.r8);
    assert_eq!(restore_context(&frame, 0), (r, 0x246, 0xabc));
}

#[test]
fn context_switch_round_trip() {
    let mut a = Thread::new_kernel_thread(1, 0xa000);
    let mut b = Thread::new_kernel_thread(2, 0xb000);
    let first = Thread::switch(&mut a, &b, 100, &regs(10), 0x202, 0x1111);
    let zero = RegisterFile { rax: 0, rbx: 0, rcx: 0, rdx: 0, rsi: 0, rdi: 0, rbp: 0, r8: 0, r9: 0, r10: 0, r11: 0, r12: 0, r13: 0, r14: 0, r15: 0 };
    assert_eq!(first.registers, zero);
    assert_eq!((first.rflags, first.resume_at), (0x202, 0xb000));
    assert_eq!(first.rsp0_slot, KERNEL_STACK_SLOTS - 1);
    for round in 0..4u64 {
        let back = Thread::switch(&mut b, &a, 200, &regs(1000 + round), 0x202, 0x2222);
        assert_eq!(back.registers, regs(10 + round));
        assert_eq!((back.rflags & 0x200, back.resume_at), (0x200, 0x1111));
        let forth = Thread::switch(&mut a, &b, 100, &regs(11 + round), 0x202, 0x1111);
        assert_eq!(forth.registers, regs(1000 + round));
        assert_eq!(forth.resume_at, 0x2222);
    }
}

#[test]
fn buffered_lfb_mirrors_target_geometry() {
    let target = LFB::new(0xfd00_0000, 4 * 640, 640, 480, 32);
    let mut b = BufferedLFB::new(target);
    assert_eq!(b.buffer().len(), 4 * 640 * 480);
    assert!(b.buffer().iter().all(|&x| x == 0));
    let l = *b.lfb();
    assert_eq!((l.pitch, l.width, l.height, l.bpp), (2560, 640, 480, 32));
    assert_ne!(l.address, 0);
    assert_eq!(*b.direct_lfb(), target);
    b.direct_lfb().width = 600;
    assert_eq!(b.direct_lfb().width, 600);
    assert_eq!(b.lfb().width, 640);
}
