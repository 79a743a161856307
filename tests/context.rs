use rvm_core::context::{
    clear_tss_busy, selectors_fit, splice_tss, CpuState, HwWrite, LinuxContext, MsrId, SegReg, HV_PAT, KCODE_SELECTOR,
    TSS_SELECTOR,
};
use rvm_core::segment::{DescriptorTablePointer, Segment};

fn gdt() -> Vec<u64> {
    vec![
        0,
        0x00af_9b00_0000_ffff,
        0x00cf_9300_0000_ffff,
        0x00cf_f300_0000_ffff,
        0x0000_8b12_3456_0067,
        0x0000_0000_ffff_fffe,
    ]
}

fn cpu() -> CpuState {
    CpuState {
        cs: 0x08,
        ds: 0x10,
        es: 0x10,
        ss: 0x10,
        fs: 0x1b,
        gs: 0,
        tr: 0x20,
        gdtr: DescriptorTablePointer { limit: 0x2f, base: 0xffff_8000_0001_0000 },
        idtr: DescriptorTablePointer { limit: 0xfff, base: 0xffff_8000_0002_0000 },
        cr0: 0x8005_0033,
        cr3: 0x1234_5003,
        cr4: 0x0036_06f0,
        efer: 0xd01,
        lstar: 0xffff_ffff_8160_0010,
        pat: 0x0007_0406_0007_0406,
        mtrr_def_type: 0xc00,
        fs_base: 0x7f00_1234_5000,
        gs_base: 0xffff_8880_3fc0_0000,
    }
}

fn regs() -> Vec<usize> {
    vec![15, 14, 13, 12, 0xb, 0xbb, 0xffff_ffff_8100_0000]
}

// Plays writes on a register set, as the processor would.
fn apply(s: &mut CpuState, ws: &[HwWrite]) {
    for w in ws {
        match *w {
            HwWrite::WriteMsr(MsrId::Efer, v) => s.efer = v,
            HwWrite::WriteMsr(MsrId::Lstar, v) => s.lstar = v,
            HwWrite::WriteMsr(MsrId::Pat, v) => s.pat = v,
            HwWrite::WriteMsr(MsrId::MtrrDefType, v) => s.mtrr_def_type = v,
            HwWrite::WriteMsr(MsrId::FsBase, v) => s.fs_base = v,
            HwWrite::WriteMsr(MsrId::GsBase, v) => s.gs_base = v,
            HwWrite::WriteCr0(v) => s.cr0 = v,
            HwWrite::WriteCr4(v) => s.cr4 = v,
            HwWrite::WriteCr3(v) => s.cr3 = v & !0xfff,
            HwWrite::SpliceTss(_) => {}
            HwWrite::LoadTr(sel) => s.tr = sel,
            HwWrite::LoadGdt(p) => s.gdtr = p,
            HwWrite::LoadIdt(p) => s.idtr = p,
            HwWrite::LoadSegment(SegReg::Cs, v) => s.cs = v,
            HwWrite::LoadSegment(SegReg::Ds, v) => s.ds = v,
            HwWrite::LoadSegment(SegReg::Es, v) => s.es = v,
            HwWrite::LoadSegment(SegReg::Ss, v) => s.ss = v,
            HwWrite::LoadSegment(SegReg::Fs, v) => {
                s.fs = v;
                s.fs_base = 0;
            }
            HwWrite::LoadSegment(SegReg::Gs, v) => {
                s.gs = v;
                s.gs_base = 0;
            }
        }
    }
}

#[test]
fn load_from_reads_saved_block_and_registers() {
    let c = LinuxContext::load_from(0x1000, &regs(), &cpu(), &gdt());
    assert_eq!(c.rsp, 0x1000 + 56);
    assert_eq!((c.r15, c.r14, c.r13, c.r12, c.rbx, c.rbp), (15, 14, 13, 12, 0xb, 0xbb));
    assert_eq!(c.rip, 0xffff_ffff_8100_0000);
    assert_eq!(c.cs, Segment { selector: 0x08, base: 0, limit: 0xffff_ffff, access_rights: 0xa09b });
    assert_eq!(c.ds.access_rights, 0xc093);
    assert_eq!(c.fs.selector, 0x1b);
    assert_eq!(c.fs.base, 0x7f00_1234_5000);
    assert_eq!(c.fs.access_rights, 0xc0f3);
    assert_eq!(c.gs.base, 0xffff_8880_3fc0_0000);
    assert_eq!(c.tss.base, 0xffff_fffe_0012_3456);
    assert_eq!(c.gdt, cpu().gdtr);
    assert_eq!(c.idt, cpu().idtr);
    assert_eq!(c.cr3, 0x1234_5003);
    assert_eq!((c.cr0, c.cr4, c.efer), (0x8005_0033, 0x0036_06f0, 0xd01));
    assert_eq!((c.lstar, c.pat, c.mtrr_def_type), (0xffff_ffff_8160_0010, 0x0007_0406_0007_0406, 0xc00));
}

#[test]
fn seize_installs_hypervisor_tables_and_pat() {
    let hv_gdt = DescriptorTablePointer { limit: 0x27, base: 0xffff_ff00_0001_0000 };
    let hv_idt = DescriptorTablePointer { limit: 0xfff, base: 0xffff_ff00_0002_0000 };
    let w = LinuxContext::seize_writes(hv_gdt, hv_idt);
    assert_eq!(
        w,
        vec![
            HwWrite::LoadGdt(hv_gdt),
            HwWrite::LoadSegment(SegReg::Cs, KCODE_SELECTOR),
            HwWrite::LoadSegment(SegReg::Ds, 0),
            HwWrite::LoadSegment(SegReg::Es, 0),
            HwWrite::LoadSegment(SegReg::Ss, 0),
            HwWrite::LoadIdt(hv_idt),
            HwWrite::LoadTr(TSS_SELECTOR),
            HwWrite::WriteMsr(MsrId::Pat, HV_PAT),
        ]
    );
    assert_eq!(HV_PAT, 0x070106);
}

#[test]
fn restore_writes_cr3_after_cr4() {
    let c = LinuxContext::load_from(0x1000, &regs(), &cpu(), &gdt());
    let w = c.restore();
    let cr4 = w.iter().position(|x| matches!(x, HwWrite::WriteCr4(_))).unwrap();
    let cr0 = w.iter().position(|x| matches!(x, HwWrite::WriteCr0(_))).unwrap();
    let cr3 = w.iter().position(|x| matches!(x, HwWrite::WriteCr3(_))).unwrap();
    assert!(cr0 < cr4 && cr4 < cr3);
    let pat = w.iter().position(|x| matches!(x, HwWrite::WriteMsr(MsrId::Pat, _))).unwrap();
    let efer = w.iter().position(|x| matches!(x, HwWrite::WriteMsr(MsrId::Efer, _))).unwrap();
    assert!(pat < efer && efer < cr0);
    assert_eq!(w[cr3], HwWrite::WriteCr3(0x1234_5003));
}

#[test]
fn restore_sequence_is_complete_and_ordered() {
    let c = LinuxContext::load_from(0x1000, &regs(), &cpu(), &gdt());
    assert_eq!(
        c.restore(),
        vec![
            HwWrite::WriteMsr(MsrId::Pat, 0x0007_0406_0007_0406),
            HwWrite::WriteMsr(MsrId::Efer, 0xd01),
            HwWrite::WriteCr0(0x8005_0033),
            HwWrite::WriteCr4(0x0036_06f0),
            HwWrite::WriteCr3(0x1234_5003),
            HwWrite::SpliceTss(0x20),
            HwWrite::LoadTr(0x20),
            HwWrite::LoadGdt(cpu().gdtr),
            HwWrite::LoadIdt(cpu().idtr),
            HwWrite::LoadSegment(SegReg::Cs, 0x08),
            HwWrite::LoadSegment(SegReg::Ds, 0x10),
            HwWrite::LoadSegment(SegReg::Es, 0x10),
            HwWrite::LoadSegment(SegReg::Fs, 0x1b),
            HwWrite::LoadSegment(SegReg::Gs, 0),
            HwWrite::WriteMsr(MsrId::FsBase, 0x7f00_1234_5000),
            HwWrite::WriteMsr(MsrId::GsBase, 0xffff_8880_3fc0_0000),
        ]
    );
}

#[test]
fn capture_seize_restore_round_trip() {
    let host = cpu();
    let c = LinuxContext::load_from(0x1000, &regs(), &host, &gdt());
    let mut s = host;
    let hv_gdt = DescriptorTablePointer { limit: 0x27, base: 0xffff_ff00_0001_0000 };
    let hv_idt = DescriptorTablePointer { limit: 0xfff, base: 0xffff_ff00_0002_0000 };
    apply(&mut s, &LinuxContext::seize_writes(hv_gdt, hv_idt));
    assert_eq!(s.pat, HV_PAT);
    assert_eq!(s.gdtr, hv_gdt);
    apply(&mut s, &c.restore());
    let again = LinuxContext::load_from(0x1000, &regs(), &s, &gdt());
    assert_eq!(again, LinuxContext { cr3: 0x1234_5000, ..c });
    assert_eq!(s.cr3, 0x1234_5000);
    assert_eq!(CpuState { cr3: host.cr3, ss: host.ss, ..s }, host);
}

#[test]
fn splice_copies_both_tss_slots() {
    let mut hv = vec![0u64, 1, 2, 3, 4, 5];
    splice_tss(&mut hv, &gdt(), 0x20);
    assert_eq!(hv, vec![0, 1, 2, 3, 0x0000_8b12_3456_0067, 0x0000_0000_ffff_fffe]);
}

#[test]
fn clear_busy_marks_tss_available() {
    let mut hv = vec![0u64, 0, 0x0000_8b00_0000_0067];
    clear_tss_busy(&mut hv, 0x10);
    assert_eq!(hv[2], 0x0000_8900_0000_0067);
    assert_eq!(hv[..2], [0, 0]);
}

#[test]
fn selectors_fit_requires_every_selector() {
    assert!(selectors_fit(&cpu(), &gdt()));
    let bad = CpuState { gs: 0x40, ..cpu() };
    assert!(!selectors_fit(&bad, &gdt()));
}
