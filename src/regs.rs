use vstd::prelude::*;

verus! {

/// General-purpose registers saved on every exit from the guest, in the
/// order of the exit path's pushes. The stack-pointer slot is a placeholder:
/// the stack pointer is handled out of band.
#[derive(Clone, Copy, Debug, PartialEq, Eq, Structural)]
pub struct GuestRegisters {
    pub r15: usize,
    pub r14: usize,
    pub r13: usize,
    pub r12: usize,
    pub r11: usize,
    pub r10: usize,
    pub r9: usize,
    pub r8: usize,
    pub rdi: usize,
    pub rsi: usize,
    pub rbp: usize,
    pub unused_rsp: usize,
    pub rbx: usize,
    pub rdx: usize,
    pub rcx: usize,
    pub rax: usize,
}

impl Default for GuestRegisters {
    /// A frame with every register zero.
    fn default() -> (r: GuestRegisters)
        ensures
            r.r15 == 0 && r.r14 == 0 && r.r13 == 0 && r.r12 == 0,
            r.r11 == 0 && r.r10 == 0 && r.r9 == 0 && r.r8 == 0,
            r.rdi == 0 && r.rsi == 0 && r.rbp == 0 && r.unused_rsp == 0,
            r.rbx == 0 && r.rdx == 0 && r.rcx == 0 && r.rax == 0,
    {
        GuestRegisters {
            r15: 0,
            r14: 0,
            r13: 0,
            r12: 0,
            r11: 0,
            r10: 0,
            r9: 0,
            r8: 0,
            rdi: 0,
            rsi: 0,
            rbp: 0,
            unused_rsp: 0,
            rbx: 0,
            rdx: 0,
            rcx: 0,
            rax: 0,
        }
    }
}

impl GuestRegisters {
    /// Sets the value that the guest sees as the result of its call (RAX);
    /// every other register is kept.
    pub fn set_return(&mut self, ret: usize)
        ensures
            *final(self) == (GuestRegisters { rax: ret, ..*old(self) }),
    {
        self.rax = ret;
    }
}

} // verus!
