use vstd::prelude::*;

verus! {

/// Number of callee-saved registers (`s0`..`s11`) kept in a kernel context.
pub const SAVED_REGS: usize = 12;

/// Kernel-mode register state needed to resume a suspended task's call
/// stack: the return address, the stack pointer and the callee-saved bank,
/// in that order.
#[derive(Clone, Copy, Debug)]
pub struct TaskContext {
    ra: usize,
    sp: usize,
    s: [usize; 12],
}

/// True when every saved callee register of `regs` is zero.
pub open spec fn all_zero(regs: Seq<usize>) -> bool {
    forall|i: int| 0 <= i < regs.len() ==> regs[i] == 0
}

impl TaskContext {
    /// Return address stored in this context.
    pub closed spec fn ra_spec(&self) -> usize {
        self.ra
    }

    /// Stack pointer stored in this context.
    pub closed spec fn sp_spec(&self) -> usize {
        self.sp
    }

    /// The callee-saved register bank.
    pub closed spec fn regs_spec(&self) -> Seq<usize> {
        self.s@
    }

    /// A context with every field zero; a throwaway source for the very
    /// first switch, which saves into it and never reads it back.
    pub fn init_zero() -> (r: Self)
        ensures
            r.ra_spec() == 0,
            r.sp_spec() == 0,
            r.regs_spec().len() == SAVED_REGS,
            all_zero(r.regs_spec()),
    {
        Self { ra: 0, sp: 0, s: [0usize; 12] }
    }

    /// The first context of a task that has never run: a switch into it
    /// "returns" to `restore_entry` (the trap-restore path) on the task's own
    /// kernel stack `kstack_address`, which then drops into user mode.
    pub fn init_with_ra_and_sp(restore_entry: usize, kstack_address: usize) -> (r: Self)
        ensures
            r.ra_spec() == restore_entry,
            r.sp_spec() == kstack_address,
            r.regs_spec().len() == SAVED_REGS,
            all_zero(r.regs_spec()),
    {
        Self { ra: restore_entry, sp: kstack_address, s: [0usize; 12] }
    }

    /// The return address.
    pub fn ra(&self) -> (r: usize)
        ensures
            r == self.ra_spec(),
    {
        self.ra
    }

    /// The stack pointer.
    pub fn sp(&self) -> (r: usize)
        ensures
            r == self.sp_spec(),
    {
        self.sp
    }

    /// Saved callee register `i`.
    pub fn saved_reg(&self, i: usize) -> (r: usize)
        requires
            i < SAVED_REGS,
        ensures
            r == self.regs_spec()[i as int],
    {
        self.s[i]
    }
}

} // verus!
