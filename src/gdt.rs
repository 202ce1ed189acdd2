//! Layout of the global descriptor table and the segment selectors that the
//! kernel loads, including those that SYSCALL and SYSRET derive.
use vstd::prelude::*;

verus! {

/// The kinds of descriptor, in the order the table holds them.
#[derive(Clone, Copy, Debug, PartialEq, Eq, Structural)]
pub enum GdtEntry {
    Null,
    KernelCode,
    KernelData,
    UserData,
    UserCode,
    TaskState,
}

pub const KERNEL_CODE_INDEX: u16 = 1;
pub const KERNEL_DATA_INDEX: u16 = 2;
pub const USER_DATA_INDEX: u16 = 3;
pub const USER_CODE_INDEX: u16 = 4;
pub const TSS_INDEX: u16 = 5;

pub const RING0: u16 = 0;
pub const RING3: u16 = 3;

/// The table in order: user data must precede user code, because SYSRET
/// finds user SS eight bytes and user CS sixteen bytes above its base.
pub open spec fn gdt_order() -> Seq<GdtEntry> {
    seq![
        GdtEntry::Null,
        GdtEntry::KernelCode,
        GdtEntry::KernelData,
        GdtEntry::UserData,
        GdtEntry::UserCode,
        GdtEntry::TaskState,
    ]
}

/// The value of a selector for entry `index` at privilege level `rpl`.
pub open spec fn selector_value(index: u16, rpl: u16) -> u16 {
    (index * 8 + rpl) as u16
}

/// The entry that a selector designates.
pub open spec fn selector_index(sel: u16) -> int {
    sel as int / 8
}

/// Relies on x86_64's SegmentSelector::new: the index shifted left by three
/// bits, with the privilege level in the low two bits.
#[verifier::external_body]
fn segment_selector(index: u16, rpl: u16) -> (r: u16)
    requires
        index < 8192,
        rpl <= 3,
    ensures
        r == selector_value(index, rpl),
{
    x86_64::structures::gdt::SegmentSelector::new(index, x86_64::PrivilegeLevel::from_u16(rpl)).0
}

/// The kinds of descriptor that the kernel adds to the table, in order.
pub fn gdt_layout() -> (r: Vec<GdtEntry>)
    ensures
        r@ == gdt_order(),
{
    let r = vec![
        GdtEntry::Null,
        GdtEntry::KernelCode,
        GdtEntry::KernelData,
        GdtEntry::UserData,
        GdtEntry::UserCode,
        GdtEntry::TaskState,
    ];
    assert(r@ =~= gdt_order());
    r
}

/// The segment registers and the task register after the table is loaded.
#[derive(Clone, Copy, Debug, PartialEq, Eq, Structural)]
pub struct SegmentSetup {
    pub cs: u16,
    pub ss: u16,
    pub ds: u16,
    pub es: u16,
    pub fs: u16,
    pub gs: u16,
    pub tr: u16,
}

/// Code and stack segments select the kernel entries at ring 0, the task
/// register selects the TSS, and the other data segments are null.
pub fn segment_setup() -> (r: SegmentSetup)
    ensures
        r.cs == selector_value(KERNEL_CODE_INDEX, RING0),
        r.ss == selector_value(KERNEL_DATA_INDEX, RING0),
        r.tr == selector_value(TSS_INDEX, RING0),
        r.ds == 0 && r.es == 0 && r.fs == 0 && r.gs == 0,
        gdt_order()[selector_index(r.cs)] == GdtEntry::KernelCode,
        gdt_order()[selector_index(r.ss)] == GdtEntry::KernelData,
        gdt_order()[selector_index(r.tr)] == GdtEntry::TaskState,
{
    let null = segment_selector(0, RING0);
    SegmentSetup {
        cs: segment_selector(KERNEL_CODE_INDEX, RING0),
        ss: segment_selector(KERNEL_DATA_INDEX, RING0),
        ds: null,
        es: null,
        fs: null,
        gs: null,
        tr: segment_selector(TSS_INDEX, RING0),
    }
}

/// The selectors that the STAR register is programmed with.
#[derive(Clone, Copy, Debug, PartialEq, Eq, Structural)]
pub struct StarSelectors {
    pub cs_sysret: u16,
    pub ss_sysret: u16,
    pub cs_syscall: u16,
    pub ss_syscall: u16,
}

/// What STAR accepts: SYSRET's code selector sixteen and its stack selector
/// eight above one base, SYSCALL's stack selector eight above its code
/// selector, ring 3 for SYSRET and ring 0 for SYSCALL.
pub open spec fn star_accepts(s: StarSelectors) -> bool {
    &&& s.cs_sysret - 16 == s.ss_sysret - 8
    &&& s.cs_syscall == s.ss_syscall - 8
    &&& s.ss_sysret % 4 == 3
    &&& s.ss_syscall % 4 == 0
}

/// SYSCALL enters at kernel code and data, ring 0; SYSRET returns to user
/// code and data, ring 3. The selectors are ones STAR accepts, and the
/// entries SYSRET derives from its base are the user entries.
pub fn star_selectors() -> (r: StarSelectors)
    ensures
        r.cs_syscall == selector_value(KERNEL_CODE_INDEX, RING0),
        r.ss_syscall == selector_value(KERNEL_DATA_INDEX, RING0),
        r.cs_sysret == selector_value(USER_CODE_INDEX, RING3),
        r.ss_sysret == selector_value(USER_DATA_INDEX, RING3),
        star_accepts(r),
        gdt_order()[selector_index((r.ss_sysret - 8 + 16) as u16)] == GdtEntry::UserCode,
        gdt_order()[selector_index((r.ss_sysret - 8 + 8) as u16)] == GdtEntry::UserData,
        gdt_order()[selector_index(r.cs_syscall)] == GdtEntry::KernelCode,
        gdt_order()[selector_index((r.cs_syscall + 8) as u16)] == GdtEntry::KernelData,
{
    StarSelectors {
        cs_sysret: segment_selector(USER_CODE_INDEX, RING3),
        ss_sysret: segment_selector(USER_DATA_INDEX, RING3),
        cs_syscall: segment_selector(KERNEL_CODE_INDEX, RING0),
        ss_syscall: segment_selector(KERNEL_DATA_INDEX, RING0),
    }
}

/// The code selector of user mode, at ring 3.
pub fn user_code_selector() -> (r: u16)
    ensures
        r == selector_value(USER_CODE_INDEX, RING3),
        gdt_order()[selector_index(r)] == GdtEntry::UserCode,
{
    segment_selector(USER_CODE_INDEX, RING3)
}

/// The stack selector of user mode, at ring 3.
pub fn user_data_selector() -> (r: u16)
    ensures
        r == selector_value(USER_DATA_INDEX, RING3),
        gdt_order()[selector_index(r)] == GdtEntry::UserData,
{
    segment_selector(USER_DATA_INDEX, RING3)
}

} // verus!
