use vstd::prelude::*;

use crate::segment::{selector_fits, selector_in_table, segment_spec, selector_index, selector_index_spec};
use crate::segment::{DescriptorTablePointer, Segment};

verus! {

/// Number of machine words that the entry trampoline pushes before calling in:
/// r15, r14, r13, r12, rbx, rbp and the return address, in that order.
pub const SAVED_LINUX_REGS: usize = 7;

/// Selector of the hypervisor's kernel code segment (GDT index 1, ring 0).
pub const KCODE_SELECTOR: u16 = 0x08;

/// Selector of the hypervisor's task-state segment (GDT index 2, ring 0).
pub const TSS_SELECTOR: u16 = 0x10;

/// PAT value of the hypervisor: PAT0 write-back, PAT1 write-combining, PAT2 uncacheable.
pub const HV_PAT: u64 = 0x070106;

/// "Busy" bit of a TSS descriptor's type field.
pub const DESC_TSS_BUSY: u64 = 1u64 << 41u64;

/// Segment registers that a selector can be loaded into.
#[derive(Clone, Copy, Debug, PartialEq, Eq, Structural)]
pub enum SegReg {
    Cs,
    Ds,
    Es,
    Ss,
    Fs,
    Gs,
}

/// Model-specific registers that capture and restore touch.
#[derive(Clone, Copy, Debug, PartialEq, Eq, Structural)]
pub enum MsrId {
    Efer,
    Lstar,
    Pat,
    MtrrDefType,
    FsBase,
    GsBase,
}

/// One privileged write to the processor, to be performed in sequence.
#[derive(Clone, Copy, Debug, PartialEq, Eq, Structural)]
pub enum HwWrite {
    WriteMsr(MsrId, u64),
    WriteCr0(u64),
    WriteCr4(u64),
    /// Write CR3 with the page frame of this value and all PCID bits clear.
    WriteCr3(u64),
    /// Copy the two-slot TSS descriptor at this selector from the foreign GDT
    /// into the hypervisor's GDT.
    SpliceTss(u16),
    /// Clear the busy bit of this TSS descriptor in the hypervisor's GDT and load TR from it.
    LoadTr(u16),
    LoadGdt(DescriptorTablePointer),
    LoadIdt(DescriptorTablePointer),
    LoadSegment(SegReg, u16),
}

/// The processor registers that a world switch reads or writes.
#[derive(Clone, Copy, Debug, PartialEq, Eq, Structural)]
pub struct CpuState {
    pub cs: u16,
    pub ds: u16,
    pub es: u16,
    pub ss: u16,
    pub fs: u16,
    pub gs: u16,
    pub tr: u16,
    pub gdtr: DescriptorTablePointer,
    pub idtr: DescriptorTablePointer,
    pub cr0: u64,
    pub cr3: u64,
    pub cr4: u64,
    pub efer: u64,
    pub lstar: u64,
    pub pat: u64,
    pub mtrr_def_type: u64,
    pub fs_base: u64,
    pub gs_base: u64,
}

/// The captured execution state of the host kernel.
#[derive(Clone, Copy, Debug, PartialEq, Eq, Structural)]
pub struct LinuxContext {
    pub rsp: usize,
    pub rip: usize,
    pub r15: usize,
    pub r14: usize,
    pub r13: usize,
    pub r12: usize,
    pub rbx: usize,
    pub rbp: usize,
    pub cs: Segment,
    pub ds: Segment,
    pub es: Segment,
    pub fs: Segment,
    pub gs: Segment,
    pub tss: Segment,
    pub gdt: DescriptorTablePointer,
    pub idt: DescriptorTablePointer,
    pub cr0: u64,
    pub cr3: u64,
    pub cr4: u64,
    pub efer: u64,
    pub lstar: u64,
    pub pat: u64,
    pub mtrr_def_type: u64,
}

/// Address of the page frame that a CR3 value points to (PCID and flag bits cleared).
pub open spec fn frame_of(cr3: u64) -> u64 {
    cr3 & !0xfffu64
}

/// Every selector held by `s` can be resolved against the descriptor table `gdt`.
pub open spec fn selectors_in_table(s: CpuState, gdt: Seq<u64>) -> bool {
    &&& selector_in_table(s.cs, gdt)
    &&& selector_in_table(s.ds, gdt)
    &&& selector_in_table(s.es, gdt)
    &&& selector_in_table(s.fs, gdt)
    &&& selector_in_table(s.gs, gdt)
    &&& selector_in_table(s.tr, gdt)
}

/// The snapshot of `s`, whose GDT holds `gdt`, with the saved block `regs` at `sp`.
pub open spec fn capture_spec(s: CpuState, gdt: Seq<u64>, regs: Seq<usize>, sp: usize) -> LinuxContext {
    LinuxContext {
        rsp: (sp + 8 * SAVED_LINUX_REGS) as usize,
        rip: regs[6],
        r15: regs[0],
        r14: regs[1],
        r13: regs[2],
        r12: regs[3],
        rbx: regs[4],
        rbp: regs[5],
        cs: segment_spec(s.cs, gdt),
        ds: segment_spec(s.ds, gdt),
        es: segment_spec(s.es, gdt),
        fs: Segment { base: s.fs_base, ..segment_spec(s.fs, gdt) },
        gs: Segment { base: s.gs_base, ..segment_spec(s.gs, gdt) },
        tss: segment_spec(s.tr, gdt),
        gdt: s.gdtr,
        idt: s.idtr,
        cr0: s.cr0,
        cr3: s.cr3,
        cr4: s.cr4,
        efer: s.efer,
        lstar: s.lstar,
        pat: s.pat,
        mtrr_def_type: s.mtrr_def_type,
    }
}

/// The writes that hand the processor to the hypervisor's own tables and caching policy.
pub open spec fn seize_plan(hv_gdt: DescriptorTablePointer, hv_idt: DescriptorTablePointer) -> Seq<HwWrite> {
    seq![
        HwWrite::LoadGdt(hv_gdt),
        HwWrite::LoadSegment(SegReg::Cs, KCODE_SELECTOR),
        HwWrite::LoadSegment(SegReg::Ds, 0),
        HwWrite::LoadSegment(SegReg::Es, 0),
        HwWrite::LoadSegment(SegReg::Ss, 0),
        HwWrite::LoadIdt(hv_idt),
        HwWrite::LoadTr(TSS_SELECTOR),
        HwWrite::WriteMsr(MsrId::Pat, HV_PAT),
    ]
}

/// The writes that give the processor back to the context `c`, in order.
pub open spec fn restore_plan(c: LinuxContext) -> Seq<HwWrite> {
    seq![
        HwWrite::WriteMsr(MsrId::Pat, c.pat),
        HwWrite::WriteMsr(MsrId::Efer, c.efer),
        HwWrite::WriteCr0(c.cr0),
        HwWrite::WriteCr4(c.cr4),
        HwWrite::WriteCr3(c.cr3),
        HwWrite::SpliceTss(c.tss.selector),
        HwWrite::LoadTr(c.tss.selector),
        HwWrite::LoadGdt(c.gdt),
        HwWrite::LoadIdt(c.idt),
        HwWrite::LoadSegment(SegReg::Cs, c.cs.selector),
        HwWrite::LoadSegment(SegReg::Ds, c.ds.selector),
        HwWrite::LoadSegment(SegReg::Es, c.es.selector),
        HwWrite::LoadSegment(SegReg::Fs, c.fs.selector),
        HwWrite::LoadSegment(SegReg::Gs, c.gs.selector),
        HwWrite::WriteMsr(MsrId::FsBase, c.fs.base),
        HwWrite::WriteMsr(MsrId::GsBase, c.gs.base),
    ]
}

/// The effect of one write on the registers. Loading FS or GS replaces the
/// hidden base with the descriptor's; the model does not hold the descriptor
/// table and writes 0 there, so only a later write of the base MSR fixes the base.
pub open spec fn apply_write(s: CpuState, w: HwWrite) -> CpuState {
    match w {
        HwWrite::WriteMsr(m, v) => match m {
            MsrId::Efer => CpuState { efer: v, ..s },
            MsrId::Lstar => CpuState { lstar: v, ..s },
            MsrId::Pat => CpuState { pat: v, ..s },
            MsrId::MtrrDefType => CpuState { mtrr_def_type: v, ..s },
            MsrId::FsBase => CpuState { fs_base: v, ..s },
            MsrId::GsBase => CpuState { gs_base: v, ..s },
        },
        HwWrite::WriteCr0(v) => CpuState { cr0: v, ..s },
        HwWrite::WriteCr4(v) => CpuState { cr4: v, ..s },
        HwWrite::WriteCr3(v) => CpuState { cr3: frame_of(v), ..s },
        HwWrite::SpliceTss(_) => s,
        HwWrite::LoadTr(sel) => CpuState { tr: sel, ..s },
        HwWrite::LoadGdt(p) => CpuState { gdtr: p, ..s },
        HwWrite::LoadIdt(p) => CpuState { idtr: p, ..s },
        HwWrite::LoadSegment(r, sel) => match r {
            SegReg::Cs => CpuState { cs: sel, ..s },
            SegReg::Ds => CpuState { ds: sel, ..s },
            SegReg::Es => CpuState { es: sel, ..s },
            SegReg::Ss => CpuState { ss: sel, ..s },
            SegReg::Fs => CpuState { fs: sel, fs_base: 0, ..s },
            SegReg::Gs => CpuState { gs: sel, gs_base: 0, ..s },
        },
    }
}

/// The registers after performing `ws` in order, starting from `s`.
pub open spec fn run(s: CpuState, ws: Seq<HwWrite>) -> CpuState
    decreases ws.len(),
{
    if ws.len() == 0 {
        s
    } else {
        run(apply_write(s, ws[0]), ws.drop_first())
    }
}

/// Whether every selector held by `cpu` can be resolved against `gdt`.
pub fn selectors_fit(cpu: &CpuState, gdt: &Vec<u64>) -> (r: bool)
    ensures
        r == selectors_in_table(*cpu, gdt@),
{
    selector_fits(cpu.cs, gdt) && selector_fits(cpu.ds, gdt) && selector_fits(cpu.es, gdt)
        && selector_fits(cpu.fs, gdt) && selector_fits(cpu.gs, gdt) && selector_fits(cpu.tr, gdt)
}

impl LinuxContext {
    /// Builds the snapshot of the host kernel from the registers `cpu`, the
    /// entries `gdt` of the GDT that `cpu.gdtr` points to, and the block `regs`
    /// that the entry trampoline saved at `linux_sp`.
    pub fn load_from(linux_sp: usize, regs: &Vec<usize>, cpu: &CpuState, gdt: &Vec<u64>) -> (r: LinuxContext)
        requires
            regs.len() == SAVED_LINUX_REGS,
            linux_sp + 8 * SAVED_LINUX_REGS <= usize::MAX,
            selectors_in_table(*cpu, gdt@),
        ensures
            r == capture_spec(*cpu, gdt@, regs@, linux_sp),
    {
        let fs = Segment::from_selector(cpu.fs, gdt);
        let gs = Segment::from_selector(cpu.gs, gdt);
        LinuxContext {
            rsp: linux_sp + 8 * SAVED_LINUX_REGS,
            rip: regs[6],
            r15: regs[0],
            r14: regs[1],
            r13: regs[2],
            r12: regs[3],
            rbx: regs[4],
            rbp: regs[5],
            cs: Segment::from_selector(cpu.cs, gdt),
            ds: Segment::from_selector(cpu.ds, gdt),
            es: Segment::from_selector(cpu.es, gdt),
            fs: Segment { base: cpu.fs_base, ..fs },
            gs: Segment { base: cpu.gs_base, ..gs },
            tss: Segment::from_selector(cpu.tr, gdt),
            gdt: cpu.gdtr,
            idt: cpu.idtr,
            cr0: cpu.cr0,
            cr3: cpu.cr3,
            cr4: cpu.cr4,
            efer: cpu.efer,
            lstar: cpu.lstar,
            pat: cpu.pat,
            mtrr_def_type: cpu.mtrr_def_type,
        }
    }

    /// The writes, in order, that install the hypervisor's GDT `hv_gdt`, IDT
    /// `hv_idt`, kernel segments, TSS and PAT once the snapshot has been taken.
    pub fn seize_writes(hv_gdt: DescriptorTablePointer, hv_idt: DescriptorTablePointer) -> (r: Vec<HwWrite>)
        ensures
            r@ == seize_plan(hv_gdt, hv_idt),
    {
        let r = vec![
            HwWrite::LoadGdt(hv_gdt),
            HwWrite::LoadSegment(SegReg::Cs, KCODE_SELECTOR),
            HwWrite::LoadSegment(SegReg::Ds, 0),
            HwWrite::LoadSegment(SegReg::Es, 0),
            HwWrite::LoadSegment(SegReg::Ss, 0),
            HwWrite::LoadIdt(hv_idt),
            HwWrite::LoadTr(TSS_SELECTOR),
            HwWrite::WriteMsr(MsrId::Pat, HV_PAT),
        ];
        assert(r@ =~= seize_plan(hv_gdt, hv_idt));
        r
    }

    /// The writes, in order, that give the processor back to this context.
    pub fn restore(&self) -> (r: Vec<HwWrite>)
        ensures
            r@ == restore_plan(*self),
    {
        let r = vec![
            HwWrite::WriteMsr(MsrId::Pat, self.pat),
            HwWrite::WriteMsr(MsrId::Efer, self.efer),
            HwWrite::WriteCr0(self.cr0),
            HwWrite::WriteCr4(self.cr4),
            HwWrite::WriteCr3(self.cr3),
            HwWrite::SpliceTss(self.tss.selector),
            HwWrite::LoadTr(self.tss.selector),
            HwWrite::LoadGdt(self.gdt),
            HwWrite::LoadIdt(self.idt),
            HwWrite::LoadSegment(SegReg::Cs, self.cs.selector),
            HwWrite::LoadSegment(SegReg::Ds, self.ds.selector),
            HwWrite::LoadSegment(SegReg::Es, self.es.selector),
            HwWrite::LoadSegment(SegReg::Fs, self.fs.selector),
            HwWrite::LoadSegment(SegReg::Gs, self.gs.selector),
            HwWrite::WriteMsr(MsrId::FsBase, self.fs.base),
            HwWrite::WriteMsr(MsrId::GsBase, self.gs.base),
        ];
        assert(r@ =~= restore_plan(*self));
        r
    }
}

/// Copies the two-slot TSS descriptor designated by `selector` from the
/// foreign GDT `foreign` into the hypervisor's GDT `hv_gdt`, at the same index.
pub fn splice_tss(hv_gdt: &mut Vec<u64>, foreign: &Vec<u64>, selector: u16)
    requires
        selector_index_spec(selector) + 1 < old(hv_gdt).len(),
        selector_index_spec(selector) + 1 < foreign.len(),
    ensures
        final(hv_gdt)@ == old(hv_gdt)@.update(selector_index_spec(selector), foreign@[selector_index_spec(selector)]).update(
            selector_index_spec(selector) + 1,
            foreign@[selector_index_spec(selector) + 1],
        ),
{
    let i = selector_index(selector) as usize;
    hv_gdt.set(i, foreign[i]);
    hv_gdt.set(i + 1, foreign[i + 1]);
}

/// Clears the busy bit of the TSS descriptor designated by `selector` in
/// `gdt`, so that TR can be loaded from it.
pub fn clear_tss_busy(gdt: &mut Vec<u64>, selector: u16)
    requires
        selector_index_spec(selector) < old(gdt).len(),
    ensures
        final(gdt)@ == old(gdt)@.update(
            selector_index_spec(selector),
            old(gdt)@[selector_index_spec(selector)] & !DESC_TSS_BUSY,
        ),
{
    let i = selector_index(selector) as usize;
    let e = gdt[i];
    gdt.set(i, e & !DESC_TSS_BUSY);
}

/// Restoring writes CR3 after CR0 and CR4, and no control register after CR3.
pub proof fn lemma_restore_cr3_after_cr4(c: LinuxContext)
    ensures
        restore_plan(c)[3] == HwWrite::WriteCr4(c.cr4),
        restore_plan(c)[4] == HwWrite::WriteCr3(c.cr3),
        forall|i: int, j: int|
            0 <= i < j < restore_plan(c).len() && restore_plan(c)[i] is WriteCr3 ==> !(restore_plan(
                c,
            )[j] is WriteCr4) && !(restore_plan(c)[j] is WriteCr0) && !(restore_plan(c)[j] is WriteCr3),
        forall|j: int|
            0 <= j < restore_plan(c).len() && (restore_plan(c)[j] is WriteCr4 || restore_plan(c)[j] is WriteCr0)
                ==> j < 4,
{
    let p = restore_plan(c);
    assert forall|i: int, j: int| 0 <= i < j < p.len() && p[i] is WriteCr3 implies !(p[j] is WriteCr4) && !(
    p[j] is WriteCr0) && !(p[j] is WriteCr3) by {
        assert(i == 4);
    }
}

/// Capturing the host's state, seizing the processor and then restoring
/// gives back every register of the snapshot: capturing again yields the same
/// snapshot but for CR3, whose PCID bits are cleared, and that is the only
/// register that differs from before.
pub proof fn lemma_capture_restore_round_trip(
    s: CpuState,
    gdt: Seq<u64>,
    regs: Seq<usize>,
    sp: usize,
    hv_gdt: DescriptorTablePointer,
    hv_idt: DescriptorTablePointer,
)
    requires
        regs.len() == SAVED_LINUX_REGS,
        sp + 8 * SAVED_LINUX_REGS <= usize::MAX,
        selectors_in_table(s, gdt),
    ensures
        ({
            let c = capture_spec(s, gdt, regs, sp);
            let after = run(run(s, seize_plan(hv_gdt, hv_idt)), restore_plan(c));
            &&& capture_spec(after, gdt, regs, sp) == (LinuxContext { cr3: frame_of(c.cr3), ..c })
            &&& after.cr3 == frame_of(s.cr3)
            &&& after == (CpuState { cr3: frame_of(s.cr3), ss: 0, ..s })
        }),
{
    let c = capture_spec(s, gdt, regs, sp);
    reveal_with_fuel(run, 17);
    let s1 = run(s, seize_plan(hv_gdt, hv_idt));
    let after = run(s1, restore_plan(c));
    assert(after == (CpuState { cr3: frame_of(s.cr3), ss: 0, ..s }));
}

} // verus!
