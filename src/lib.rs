//! Verified core of a small x86-64 kernel: physical memory discovery,
//! region arithmetic, descriptor-table and system-call layout, and the
//! stack frames that launch and switch threads.

pub mod region;
pub mod memory;
pub mod gdt;
pub mod syscall;
pub mod thread;
pub mod lfb;
pub mod boot;
