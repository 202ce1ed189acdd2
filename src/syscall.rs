//! The system-call table and the bounds check that guards it.
use vstd::prelude::*;

verus! {

/// Number of entries of the system-call table.
pub const NUM_SYSCALLS: usize = 3;

/// The handlers a system-call number can designate.
#[derive(Clone, Copy, Debug, PartialEq, Eq, Structural)]
pub enum Syscall {
    ThreadSwitch,
    ThreadSleep,
    ThreadExit,
}

/// Handlers indexed by system-call number.
pub struct SyscallTable {
    handle: [Syscall; NUM_SYSCALLS],
}

pub open spec fn table_order() -> Seq<Syscall> {
    seq![Syscall::ThreadSwitch, Syscall::ThreadSleep, Syscall::ThreadExit]
}

/// What the entry path does with a system-call number.
#[derive(Clone, Copy, Debug, PartialEq, Eq, Structural)]
pub enum Dispatch {
    /// Call the handler.
    Call(Syscall),
    /// Abort with the offending number; the table is never read.
    Abort(u64),
}

impl SyscallTable {
    pub closed spec fn view(&self) -> Seq<Syscall> {
        self.handle@
    }

    /// The table: thread switch, thread sleep, thread exit.
    pub fn new() -> (r: Self)
        ensures
            r.view() == table_order(),
    {
        let r = SyscallTable {
            handle: [Syscall::ThreadSwitch, Syscall::ThreadSleep, Syscall::ThreadExit],
        };
        assert(r.view() =~= table_order());
        r
    }

    /// The bounds check of the entry path: a number below `NUM_SYSCALLS`
    /// calls its handler; any other aborts with that number.
    pub fn dispatch(&self, id: u64) -> (r: Dispatch)
        ensures
            (r is Abort) <==> id >= NUM_SYSCALLS,
            id >= NUM_SYSCALLS ==> r == Dispatch::Abort(id),
            id < NUM_SYSCALLS ==> r == Dispatch::Call(self.view()[id as int]),
    {
        if id >= NUM_SYSCALLS as u64 {
            Dispatch::Abort(id)
        } else {
            Dispatch::Call(self.handle[id as usize])
        }
    }
}

} // verus!
