use vstd::prelude::*;

verus! {

/// Number of general registers `x0`..`x31` in a trap frame.
pub const GENERAL_REGS: usize = 32;

/// Index of the stack pointer (`x2`) in the general-register bank.
pub const SP_REG: usize = 2;

/// The SPP bit of `sstatus` (bit 8): clear when the trap came from user
/// mode, so that `sret` returns to user mode.
pub const SSTATUS_SPP: usize = 0x100;

/// Full application register state saved when a trap enters the kernel and
/// restored when it returns to user mode. The trap-entry and trap-exit paths
/// read and write it field by field, in this order.
#[derive(Clone, Copy, Debug)]
pub struct TrapContext {
    /// General registers `x0`..`x31`; `x[2]` is the stack pointer.
    pub x: [usize; 32],
    /// Raw `sstatus` bits; its SPP bit records the privilege before the trap.
    pub sstatus: usize,
    /// Address of the instruction to resume at.
    pub sepc: usize,
}

/// The legal `sstatus` fields other than SPP (SIE, SPIE, UBE, VS, FS, XS,
/// SUM, MXR), on 32- and 64-bit harts alike.
pub const SSTATUS_KEPT: usize = 0x000d_e662;

/// `sstatus` bits that select user mode as the privilege `sret` returns to.
pub open spec fn returns_to_user(sstatus: usize) -> bool {
    sstatus & SSTATUS_SPP == 0
}

/// The `sstatus` value `bits` with SPP set to user mode, as riscv computes
/// it (which bits survive besides the fields beside SPP depends on the
/// hart's register width).
pub uninterp spec fn user_spp_of(bits: usize) -> usize;

/// Relies on riscv's `Sstatus::from_bits`, `Sstatus::set_spp(SPP::User)` and
/// `Sstatus::bits`: the SPP bit is cleared in memory (no CSR is written),
/// every other legal field is kept, no bit is set that was clear in `bits`,
/// and the result depends on `bits` alone.
#[verifier::external_body]
fn with_user_spp(bits: usize) -> (r: usize)
    ensures
        r == user_spp_of(bits),
        returns_to_user(r),
        (r ^ bits) & SSTATUS_KEPT == 0,
        r & !bits == 0,
{
    let mut status = riscv::register::sstatus::Sstatus::from_bits(bits);
    status.set_spp(riscv::register::sstatus::SPP::User);
    status.bits()
}

impl TrapContext {
    /// Sets the stack-pointer slot `x[2]` and nothing else.
    pub fn set_sp(&mut self, sp: usize)
        ensures
            final(self).x@ == old(self).x@.update(SP_REG as int, sp),
            final(self).sstatus == old(self).sstatus,
            final(self).sepc == old(self).sepc,
    {
        self.x[SP_REG] = sp;
    }

    /// The frame an application starts from: every general register zero
    /// but the stack pointer `sp`, resuming at `entry` in user mode.
    /// `sstatus` is the value the supervisor status register holds now; the
    /// frame keeps its fields with SPP set to user mode.
    pub fn app_init_context(entry: usize, sp: usize, sstatus: usize) -> (r: Self)
        ensures
            r.sepc == entry,
            r.x@.len() == GENERAL_REGS,
            r.x@[SP_REG as int] == sp,
            forall|i: int| 0 <= i < GENERAL_REGS && i != SP_REG ==> r.x@[i] == 0,
            r.sstatus == user_spp_of(sstatus),
            returns_to_user(r.sstatus),
            (r.sstatus ^ sstatus) & SSTATUS_KEPT == 0,
            r.sstatus & !sstatus == 0,
    {
        let status = with_user_spp(sstatus);
        let mut cx = Self { x: [0usize; 32], sstatus: status, sepc: entry };
        cx.set_sp(sp);
        cx
    }
}

} // verus!
