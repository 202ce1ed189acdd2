//! Threads' kernel stacks: the synthetic frames that launch a fresh thread,
//! the frame that promotes it to user mode, and the register frame that a
//! context switch saves and restores.
use vstd::prelude::*;
use crate::gdt::{user_code_selector, user_data_selector, selector_value, USER_CODE_INDEX, USER_DATA_INDEX, RING3};

verus! {

pub const STACK_SIZE_PAGES: usize = 16;

/// Eight-byte slots of a kernel stack: sixteen pages.
pub const KERNEL_STACK_SLOTS: usize = 8192;

/// Eight-byte slots of a user stack: sixteen pages.
pub const USER_STACK_SLOTS: usize = 8192;

/// Virtual address at which a user thread's stack is mapped.
pub const USER_STACK_ADDRESS: u64 = 0x4000_0000_0000;

/// Return address at the very top of every kernel stack; it faults if reached.
pub const RETURN_SENTINEL: u64 = 0x00DEAD00;

/// RFLAGS with only the interrupt flag (and the reserved bit 1) set.
pub const INITIAL_RFLAGS: u64 = 0x202;

/// Number of slots of a saved register frame: fifteen registers, RFLAGS and
/// the return address.
pub const CONTEXT_FRAME_SLOTS: usize = 17;

/// The general-purpose registers that a context switch preserves.
#[derive(Clone, Copy, Debug, PartialEq, Eq, Structural)]
pub struct RegisterFile {
    pub rax: u64,
    pub rbx: u64,
    pub rcx: u64,
    pub rdx: u64,
    pub rsi: u64,
    pub rdi: u64,
    pub rbp: u64,
    pub r8: u64,
    pub r9: u64,
    pub r10: u64,
    pub r11: u64,
    pub r12: u64,
    pub r13: u64,
    pub r14: u64,
    pub r15: u64,
}

pub open spec fn zero_registers() -> RegisterFile {
    RegisterFile {
        rax: 0,
        rbx: 0,
        rcx: 0,
        rdx: 0,
        rsi: 0,
        rdi: 0,
        rbp: 0,
        r8: 0,
        r9: 0,
        r10: 0,
        r11: 0,
        r12: 0,
        r13: 0,
        r14: 0,
        r15: 0,
    }
}

/// The frame that the switch path leaves on a stack, from its lowest
/// address: it pushes RFLAGS, r8 to r15, rax, rbx, rcx, rdx, rsi, rdi and
/// rbp below the return address of its caller.
pub open spec fn context_frame(regs: RegisterFile, rflags: u64, ret: u64) -> Seq<u64> {
    seq![
        regs.rbp,
        regs.rdi,
        regs.rsi,
        regs.rdx,
        regs.rcx,
        regs.rbx,
        regs.rax,
        regs.r15,
        regs.r14,
        regs.r13,
        regs.r12,
        regs.r11,
        regs.r10,
        regs.r9,
        regs.r8,
        rflags,
        ret,
    ]
}

/// What the restore path pops from `s` starting at slot `at`: rbp, rdi, rsi,
/// rdx, rcx, rbx, rax, r15 down to r8, then RFLAGS, then the return address.
pub open spec fn restored(s: Seq<u64>, at: int) -> (RegisterFile, u64, u64) {
    (
        RegisterFile {
            rbp: s[at],
            rdi: s[at + 1],
            rsi: s[at + 2],
            rdx: s[at + 3],
            rcx: s[at + 4],
            rbx: s[at + 5],
            rax: s[at + 6],
            r15: s[at + 7],
            r14: s[at + 8],
            r13: s[at + 9],
            r12: s[at + 10],
            r11: s[at + 11],
            r10: s[at + 12],
            r9: s[at + 13],
            r8: s[at + 14],
        },
        s[at + 15],
        s[at + 16],
    )
}

/// The frame that saving `regs` with `rflags` below return address `ret`
/// writes.
pub fn save_context(regs: &RegisterFile, rflags: u64, ret: u64) -> (r: Vec<u64>)
    ensures
        r@ == context_frame(*regs, rflags, ret),
{
    let r = vec![
        regs.rbp,
        regs.rdi,
        regs.rsi,
        regs.rdx,
        regs.rcx,
        regs.rbx,
        regs.rax,
        regs.r15,
        regs.r14,
        regs.r13,
        regs.r12,
        regs.r11,
        regs.r10,
        regs.r9,
        regs.r8,
        rflags,
        ret,
    ];
    assert(r@ =~= context_frame(*regs, rflags, ret));
    r
}

/// The registers, RFLAGS and return address that restoring from slot `at`
/// of `stack` yields.
pub fn restore_context(stack: &Vec<u64>, at: usize) -> (r: (RegisterFile, u64, u64))
    requires
        at + CONTEXT_FRAME_SLOTS <= stack.len(),
    ensures
        r == restored(stack@, at as int),
{
    let regs = RegisterFile {
        rbp: stack[at],
        rdi: stack[at + 1],
        rsi: stack[at + 2],
        rdx: stack[at + 3],
        rcx: stack[at + 4],
        rbx: stack[at + 5],
        rax: stack[at + 6],
        r15: stack[at + 7],
        r14: stack[at + 8],
        r13: stack[at + 9],
        r12: stack[at + 10],
        r11: stack[at + 11],
        r10: stack[at + 12],
        r9: stack[at + 13],
        r8: stack[at + 14],
    };
    (regs, stack[at + 15], stack[at + 16])
}

/// Restoring a saved frame gives back exactly the registers, RFLAGS and the
/// return address that were saved, wherever the frame lies on a stack.
pub proof fn lemma_context_round_trip(
    below: Seq<u64>,
    above: Seq<u64>,
    regs: RegisterFile,
    rflags: u64,
    ret: u64,
)
    ensures
        restored(below + context_frame(regs, rflags, ret) + above, below.len() as int) == (
        regs,
        rflags,
        ret,
        ),
{
    let s = below + context_frame(regs, rflags, ret) + above;
    let n = below.len() as int;
    assert forall|k: int| 0 <= k < CONTEXT_FRAME_SLOTS implies s[n + k] == context_frame(
        regs,
        rflags,
        ret,
    )[k] by {}
    assert(s[n] == regs.rbp);
    assert(s[n + 16] == ret);
}


/// Writes `frame` into `stack` from slot `at` on, leaving every other slot.
fn write_frame(stack: &mut Vec<u64>, at: usize, frame: &Vec<u64>)
    requires
        at + frame@.len() <= old(stack)@.len(),
    ensures
        final(stack)@ == old(stack)@.subrange(0, at as int) + frame@ + old(stack)@.subrange(
            at + frame@.len(),
            old(stack)@.len() as int,
        ),
{
    let ghost orig = stack@;
    let n = stack.len();
    let mut k: usize = 0;
    while k < frame.len()
        invariant
            orig.len() == n,
            at + frame@.len() <= orig.len(),
            stack@.len() == orig.len(),
            k <= frame@.len(),
            forall|j: int|
                0 <= j < orig.len() ==> #[trigger] stack@[j] == if at <= j < at + k {
                    frame@[j - at]
                } else {
                    orig[j]
                },
        decreases frame.len() - k,
    {
        stack.set(at + k, frame[k]);
        k += 1;
    }
    assert(stack@ =~= orig.subrange(0, at as int) + frame@ + orig.subrange(
        at + frame@.len(),
        orig.len() as int,
    ));
}

/// The frame that promotes a thread to user mode, in the top seven slots of
/// its kernel stack: the preloaded rdi, then the frame that `iretq` pops
/// (entry point, user code selector, RFLAGS, user stack pointer, user stack
/// selector), then the sentinel.
pub open spec fn user_entry_frame(kickoff_user_thread: u64, user_rsp: u64) -> Seq<u64> {
    seq![
        0,
        kickoff_user_thread,
        selector_value(USER_CODE_INDEX, RING3) as u64,
        INITIAL_RFLAGS,
        user_rsp,
        selector_value(USER_DATA_INDEX, RING3) as u64,
        RETURN_SENTINEL,
    ]
}

/// The initial stack pointer of user mode: the highest slot of the user stack.
pub open spec fn user_stack_top() -> u64 {
    (USER_STACK_ADDRESS + (USER_STACK_SLOTS - 1) * 8) as u64
}

/// The kernel stack of a fresh thread: zeros, then a saved frame of zero
/// registers with interrupts enabled returning into the kickoff routine,
/// then the sentinel at the top.
pub open spec fn fresh_kernel_stack(kickoff_kernel_thread: u64) -> Seq<u64> {
    Seq::new((KERNEL_STACK_SLOTS - CONTEXT_FRAME_SLOTS - 1) as nat, |i: int| 0u64) + context_frame(
        zero_registers(),
        INITIAL_RFLAGS,
        kickoff_kernel_thread,
    ) + seq![RETURN_SENTINEL]
}

/// The slot at which restoring a fresh thread begins (the rbp slot).
pub open spec fn fresh_old_rsp0() -> int {
    KERNEL_STACK_SLOTS - CONTEXT_FRAME_SLOTS - 1
}

/// The plain state of a thread: its id, its kernel stack, the size of its
/// user stack (zero for a kernel thread) and the slot of the kernel stack at
/// which the next restore begins.
pub struct Thread {
    id: usize,
    kernel_stack: Vec<u64>,
    user_stack_slots: usize,
    old_rsp0: usize,
}

/// What the switch path hands the processor for the next thread.
#[derive(Clone, Copy, Debug, PartialEq, Eq, Structural)]
pub struct SwitchOutcome {
    /// Slot of the next thread's kernel stack that `TSS.rsp0` points at.
    pub rsp0_slot: usize,
    /// Registers the next thread resumes with.
    pub registers: RegisterFile,
    /// RFLAGS the next thread resumes with.
    pub rflags: u64,
    /// Where the next thread resumes.
    pub resume_at: u64,
}

impl Thread {
    pub closed spec fn spec_id(&self) -> usize {
        self.id
    }

    pub closed spec fn stack(&self) -> Seq<u64> {
        self.kernel_stack@
    }

    pub closed spec fn user_slots(&self) -> usize {
        self.user_stack_slots
    }

    pub closed spec fn rsp0_slot(&self) -> int {
        self.old_rsp0 as int
    }

    /// The kernel stack has its full size and the restore slot lies in it.
    pub open spec fn wf(&self) -> bool {
        &&& self.stack().len() == KERNEL_STACK_SLOTS
        &&& 0 <= self.rsp0_slot() < KERNEL_STACK_SLOTS
    }

    /// What the thread resumes with when a restore begins at its restore slot.
    pub open spec fn resumes_with(&self) -> (RegisterFile, u64, u64) {
        restored(self.stack(), self.rsp0_slot())
    }

    fn new_thread(id: usize, user_stack_slots: usize, kickoff_kernel_thread: u64) -> (r: Thread)
        ensures
            r.wf(),
            r.spec_id() == id,
            r.user_slots() == user_stack_slots,
            r.stack() == fresh_kernel_stack(kickoff_kernel_thread),
            r.rsp0_slot() == fresh_old_rsp0(),
    {
        let mut thread = Thread { id, kernel_stack: Vec::new(), user_stack_slots, old_rsp0: 0 };
        thread.prepare_kernel_stack(kickoff_kernel_thread);
        thread
    }

    /// A kernel thread with the given id, whose first run enters the kickoff
    /// routine at address `kickoff_kernel_thread`.
    pub fn new_kernel_thread(id: usize, kickoff_kernel_thread: u64) -> (r: Thread)
        ensures
            r.wf(),
            r.spec_id() == id,
            r.user_slots() == 0,
            r.stack() == fresh_kernel_stack(kickoff_kernel_thread),
            r.rsp0_slot() == fresh_old_rsp0(),
    {
        Thread::new_thread(id, 0, kickoff_kernel_thread)
    }

    /// A user thread: like a kernel thread, with a user stack of sixteen pages.
    pub fn new_user_thread(id: usize, kickoff_kernel_thread: u64) -> (r: Thread)
        ensures
            r.wf(),
            r.spec_id() == id,
            r.user_slots() == USER_STACK_SLOTS,
            r.stack() == fresh_kernel_stack(kickoff_kernel_thread),
            r.rsp0_slot() == fresh_old_rsp0(),
    {
        Thread::new_thread(id, USER_STACK_SLOTS, kickoff_kernel_thread)
    }

    /// Fills the empty kernel stack with zeros and writes the initial frame:
    /// the sentinel in the top slot, below it a saved frame that returns into
    /// the kickoff routine; the restore slot is that frame's rbp slot.
    fn prepare_kernel_stack(&mut self, kickoff_kernel_thread: u64)
        requires
            old(self).stack().len() == 0,
        ensures
            final(self).wf(),
            final(self).spec_id() == old(self).spec_id(),
            final(self).user_slots() == old(self).user_slots(),
            final(self).stack() == fresh_kernel_stack(kickoff_kernel_thread),
            final(self).rsp0_slot() == fresh_old_rsp0(),
            final(self).stack()[KERNEL_STACK_SLOTS - 1] == RETURN_SENTINEL,
    {
        let capacity: usize = KERNEL_STACK_SLOTS;
        let mut i: usize = 0;
        while i < capacity
            invariant
                i <= capacity,
                self.kernel_stack@ == Seq::new(i as nat, |j: int| 0u64),
                self.id == old(self).id,
                self.user_stack_slots == old(self).user_stack_slots,
            decreases capacity - i,
        {
            self.kernel_stack.push(0);
            assert(self.kernel_stack@ =~= Seq::new((i + 1) as nat, |j: int| 0u64));
            i += 1;
        }
        let at: usize = capacity - CONTEXT_FRAME_SLOTS - 1;
        let zero = RegisterFile {
            rax: 0,
            rbx: 0,
            rcx: 0,
            rdx: 0,
            rsi: 0,
            rdi: 0,
            rbp: 0,
            r8: 0,
            r9: 0,
            r10: 0,
            r11: 0,
            r12: 0,
            r13: 0,
            r14: 0,
            r15: 0,
        };
        let frame = save_context(&zero, INITIAL_RFLAGS, kickoff_kernel_thread);
        write_frame(&mut self.kernel_stack, at, &frame);
        self.kernel_stack.set(capacity - 1, RETURN_SENTINEL);
        self.old_rsp0 = at;
        assert(self.kernel_stack@ =~= fresh_kernel_stack(kickoff_kernel_thread));
    }

    /// Rewrites the top of the kernel stack of a user thread that is running
    /// its kickoff routine into the frame that enters user mode at
    /// `kickoff_user_thread` on the top of the user stack; the restore slot
    /// becomes the preloaded rdi.
    pub fn switch_to_user_mode(&mut self, kickoff_user_thread: u64)
        requires
            old(self).wf(),
            old(self).user_slots() > 0,
        ensures
            final(self).wf(),
            final(self).spec_id() == old(self).spec_id(),
            final(self).user_slots() == old(self).user_slots(),
            final(self).stack() == old(self).stack().subrange(0, KERNEL_STACK_SLOTS - 7)
                + user_entry_frame(kickoff_user_thread, user_stack_top()),
            final(self).rsp0_slot() == KERNEL_STACK_SLOTS - 7,
    {
        let capacity: usize = KERNEL_STACK_SLOTS;
        let user_rsp: u64 = USER_STACK_ADDRESS + (USER_STACK_SLOTS as u64 - 1) * 8;
        let frame = vec![
            0,
            kickoff_user_thread,
            user_code_selector() as u64,
            INITIAL_RFLAGS,
            user_rsp,
            user_data_selector() as u64,
            RETURN_SENTINEL,
        ];
        write_frame(&mut self.kernel_stack, capacity - 7, &frame);
        self.old_rsp0 = capacity - 7;
        assert(self.kernel_stack@ =~= old(self).stack().subrange(0, KERNEL_STACK_SLOTS - 7)
            + user_entry_frame(kickoff_user_thread, user_stack_top()));
    }

    /// Saves the registers of this (running) thread in a frame whose lowest
    /// slot is `at`, makes that slot the restore slot, and reports what the
    /// `next` thread resumes with and where `TSS.rsp0` then points: the top
    /// slot of the next thread's kernel stack.
    pub fn switch(
        &mut self,
        next: &Thread,
        at: usize,
        regs: &RegisterFile,
        rflags: u64,
        ret: u64,
    ) -> (r: SwitchOutcome)
        requires
            old(self).wf(),
            next.wf(),
            next.rsp0_slot() + CONTEXT_FRAME_SLOTS <= KERNEL_STACK_SLOTS,
            at + CONTEXT_FRAME_SLOTS <= KERNEL_STACK_SLOTS,
        ensures
            final(self).wf(),
            final(self).spec_id() == old(self).spec_id(),
            final(self).user_slots() == old(self).user_slots(),
            final(self).rsp0_slot() == at,
            final(self).stack() == old(self).stack().subrange(0, at as int) + context_frame(
                *regs,
                rflags,
                ret,
            ) + old(self).stack().subrange(at + CONTEXT_FRAME_SLOTS, KERNEL_STACK_SLOTS as int),
            final(self).resumes_with() == (*regs, rflags, ret),
            r.rsp0_slot == KERNEL_STACK_SLOTS - 1,
            (r.registers, r.rflags, r.resume_at) == next.resumes_with(),
    {
        let frame = save_context(regs, rflags, ret);
        write_frame(&mut self.kernel_stack, at, &frame);
        self.old_rsp0 = at;
        proof {
            lemma_context_round_trip(
                old(self).stack().subrange(0, at as int),
                old(self).stack().subrange(at + CONTEXT_FRAME_SLOTS, KERNEL_STACK_SLOTS as int),
                *regs,
                rflags,
                ret,
            );
        }
        let (registers, rflags_next, resume_at) = restore_context(&next.kernel_stack, next.old_rsp0);
        SwitchOutcome { rsp0_slot: KERNEL_STACK_SLOTS - 1, registers, rflags: rflags_next, resume_at }
    }

    /// Whether the thread runs in the kernel only: it has no user stack.
    pub fn is_kernel_thread(&self) -> (r: bool)
        ensures
            r == (self.user_slots() == 0),
    {
        self.user_stack_slots == 0
    }

    pub fn id(&self) -> (r: usize)
        ensures
            r == self.spec_id(),
    {
        self.id
    }

    /// Byte offset, from the start of the kernel stack, of the restore slot.
    pub fn old_rsp0_offset(&self) -> (r: u64)
        requires
            self.wf(),
        ensures
            r == self.rsp0_slot() * 8,
    {
        self.old_rsp0 as u64 * 8
    }

    /// Byte offset, from the start of the kernel stack, of its top slot: the
    /// value `TSS.rsp0` holds while the thread runs.
    pub fn kernel_stack_top_offset(&self) -> (r: u64)
        ensures
            r == (KERNEL_STACK_SLOTS - 1) * 8,
    {
        (KERNEL_STACK_SLOTS as u64 - 1) * 8
    }

    /// The kernel stack's slots.
    pub fn kernel_stack(&self) -> (r: &Vec<u64>)
        ensures
            r@ == self.stack(),
    {
        &self.kernel_stack
    }
}

/// A fresh thread's first launch restores zero registers with interrupts
/// enabled and returns into the kickoff routine; above that frame lies the
/// sentinel, and the restore slot lies inside the kernel stack.
pub proof fn lemma_fresh_thread_launch(t: Thread, kickoff_kernel_thread: u64)
    requires
        t.stack() == fresh_kernel_stack(kickoff_kernel_thread),
        t.rsp0_slot() == fresh_old_rsp0(),
    ensures
        t.resumes_with() == (zero_registers(), INITIAL_RFLAGS, kickoff_kernel_thread),
        t.stack()[t.rsp0_slot() + CONTEXT_FRAME_SLOTS] == RETURN_SENTINEL,
        t.stack()[KERNEL_STACK_SLOTS - 1] == RETURN_SENTINEL,
        0 <= t.rsp0_slot() < KERNEL_STACK_SLOTS,
{
    let below = Seq::new((KERNEL_STACK_SLOTS - CONTEXT_FRAME_SLOTS - 1) as nat, |i: int| 0u64);
    lemma_context_round_trip(below, seq![RETURN_SENTINEL], zero_registers(), INITIAL_RFLAGS, kickoff_kernel_thread);
}

} // verus!
