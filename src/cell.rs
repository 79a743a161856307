use vstd::prelude::*;

use crate::memory::{insert_spec, regions_overlap, HvError, Mapper, MemoryRegion, MemorySet};
use crate::memory::{MEM_EXECUTE, MEM_NO_HUGEPAGES, MEM_READ, MEM_WRITE};

verus! {

/// Virtual address at which the hypervisor's own memory is mapped.
pub const HV_BASE: u64 = 0xffff_ff00_0000_0000;

/// One memory region that a cell's configuration declares.
#[derive(Clone, Copy, Debug, PartialEq, Eq, Structural)]
pub struct MemRegionConfig {
    pub phys_start: u64,
    pub virt_start: u64,
    pub size: u64,
    pub flags: u64,
}

/// The part of a cell's configuration that construction reads.
#[derive(Clone, Debug)]
pub struct CellConfig {
    pub mem_regions: Vec<MemRegionConfig>,
}

/// The system configuration: the hypervisor's reserved physical range and the root cell.
#[derive(Clone, Debug)]
pub struct SystemConfig {
    pub hv_phys_start: u64,
    pub hv_phys_size: u64,
    pub root_cell: CellConfig,
}

/// A partition: its configuration, the guest-physical memory set that its
/// guest sees, and the host-virtual memory set that the hypervisor runs in.
#[derive(Debug)]
pub struct Cell {
    pub config: CellConfig,
    pub gpm: MemorySet,
    pub hvm: MemorySet,
}

/// The reserved range fits below `HV_BASE` and its mapping at `HV_BASE` fits
/// in the address space; the hypervisor core lies inside the range.
pub open spec fn layout_ok(sys: SystemConfig, core_size: u64) -> bool {
    &&& sys.hv_phys_start <= HV_BASE
    &&& HV_BASE + sys.hv_phys_size <= u64::MAX
    &&& sys.hv_phys_start + sys.hv_phys_size <= u64::MAX
    &&& core_size <= sys.hv_phys_size
}

/// Whether `sys` and `core_size` describe a layout that fits the address space.
pub fn layout_fits(sys: &SystemConfig, core_size: u64) -> (r: bool)
    ensures
        r == layout_ok(*sys, core_size),
{
    sys.hv_phys_start <= HV_BASE && sys.hv_phys_size <= u64::MAX - HV_BASE && sys.hv_phys_start
        <= u64::MAX - sys.hv_phys_size && core_size <= sys.hv_phys_size
}

/// `paddr` plus the distance from `hv_phys_start` to `HV_BASE`, modulo 2^64.
pub open spec fn phys_to_virt_spec(hv_phys_start: u64, paddr: u64) -> u64 {
    let v = paddr + (HV_BASE - hv_phys_start);
    if v <= u64::MAX {
        v as u64
    } else {
        (v - u64::MAX - 1) as u64
    }
}

/// The hypervisor's direct-access virtual address of physical address `paddr`,
/// for a hypervisor whose memory starts at `hv_phys_start`.
pub fn phys_to_virt(hv_phys_start: u64, paddr: u64) -> (r: u64)
    requires
        hv_phys_start <= HV_BASE,
    ensures
        r == phys_to_virt_spec(hv_phys_start, paddr),
{
    let offset = HV_BASE - hv_phys_start;
    if paddr <= u64::MAX - offset {
        paddr + offset
    } else {
        paddr - (u64::MAX - offset) - 1
    }
}

/// The reservation that keeps the hypervisor's memory out of a guest's reach.
pub open spec fn hv_guest_region(sys: SystemConfig) -> MemoryRegion {
    MemoryRegion {
        start: sys.hv_phys_start,
        size: sys.hv_phys_size,
        flags: MEM_READ | MEM_NO_HUGEPAGES,
        mapper: Mapper::Empty,
    }
}

/// A configured region as the guest sees it.
pub open spec fn guest_region(c: MemRegionConfig) -> MemoryRegion {
    MemoryRegion { start: c.virt_start, size: c.size, flags: c.flags, mapper: Mapper::Linear(c.phys_start) }
}

/// The hypervisor's code and data at `HV_BASE`.
pub open spec fn hv_core_region(sys: SystemConfig, core_size: u64) -> MemoryRegion {
    MemoryRegion {
        start: HV_BASE,
        size: core_size,
        flags: MEM_READ | MEM_WRITE | MEM_EXECUTE,
        mapper: Mapper::Linear(sys.hv_phys_start),
    }
}

/// The rest of the reserved range (per-CPU data, configuration, page pool), right after the core.
pub open spec fn hv_rest_region(sys: SystemConfig, core_size: u64) -> MemoryRegion {
    MemoryRegion {
        start: (HV_BASE + core_size) as u64,
        size: (sys.hv_phys_size - core_size) as u64,
        flags: MEM_READ | MEM_WRITE,
        mapper: Mapper::Linear((sys.hv_phys_start + core_size) as u64),
    }
}

/// The hypervisor's direct-access alias of a configured region.
pub open spec fn alias_region(hv_phys_start: u64, c: MemRegionConfig) -> MemoryRegion {
    MemoryRegion {
        start: phys_to_virt_spec(hv_phys_start, c.virt_start),
        size: c.size,
        flags: c.flags,
        mapper: Mapper::Linear(c.phys_start),
    }
}

pub open spec fn is_executable(c: MemRegionConfig) -> bool {
    c.flags & MEM_EXECUTE != 0
}

/// The alias of `c` would start below `c` itself: the addition wrapped.
pub open spec fn alias_wraps(hv_phys_start: u64, c: MemRegionConfig) -> bool {
    phys_to_virt_spec(hv_phys_start, c.virt_start) < c.virt_start
}

/// Step of the guest-physical set: insert the region as configured.
pub open spec fn gpm_step(s: Seq<MemoryRegion>, c: MemRegionConfig) -> Result<Seq<MemoryRegion>, HvError> {
    insert_spec(s, guest_region(c))
}

/// Step of the host-virtual set: insert the alias of an executable region,
/// refusing one whose alias wraps.
pub open spec fn alias_step(hv_phys_start: u64, s: Seq<MemoryRegion>, c: MemRegionConfig) -> Result<
    Seq<MemoryRegion>,
    HvError,
> {
    if !is_executable(c) {
        Ok(s)
    } else if alias_wraps(hv_phys_start, c) {
        Err(HvError::GuestAddrTooLarge(c.virt_start))
    } else {
        insert_spec(s, alias_region(hv_phys_start, c))
    }
}

/// Applies `step` to the configured regions in order, from the set `s`, stopping at the first error.
pub open spec fn fold_regions(
    s: Seq<MemoryRegion>,
    cfgs: Seq<MemRegionConfig>,
    step: spec_fn(Seq<MemoryRegion>, MemRegionConfig) -> Result<Seq<MemoryRegion>, HvError>,
) -> Result<Seq<MemoryRegion>, HvError>
    decreases cfgs.len(),
{
    if cfgs.len() == 0 {
        Ok(s)
    } else {
        match fold_regions(s, cfgs.drop_last(), step) {
            Ok(t) => step(t, cfgs.last()),
            Err(e) => Err(e),
        }
    }
}

/// The step of the guest-physical set, as a function.
pub open spec fn gpm_stepper() -> spec_fn(Seq<MemoryRegion>, MemRegionConfig) -> Result<Seq<MemoryRegion>, HvError> {
    |s: Seq<MemoryRegion>, c: MemRegionConfig| gpm_step(s, c)
}

/// The step of the host-virtual set, as a function.
pub open spec fn alias_stepper(hv_phys_start: u64) -> spec_fn(Seq<MemoryRegion>, MemRegionConfig) -> Result<
    Seq<MemoryRegion>,
    HvError,
> {
    |s: Seq<MemoryRegion>, c: MemRegionConfig| alias_step(hv_phys_start, s, c)
}

/// The guest-physical set after the reservation and every configured region.
pub open spec fn gpm_spec(sys: SystemConfig) -> Result<Seq<MemoryRegion>, HvError> {
    fold_regions(seq![hv_guest_region(sys)], sys.root_cell.mem_regions@, gpm_stepper())
}

/// The host-virtual set after the core, the rest of the range and the aliases.
pub open spec fn hvm_spec(sys: SystemConfig, core_size: u64) -> Result<Seq<MemoryRegion>, HvError> {
    fold_regions(
        seq![hv_core_region(sys, core_size), hv_rest_region(sys, core_size)],
        sys.root_cell.mem_regions@,
        alias_stepper(sys.hv_phys_start),
    )
}

/// The two memory sets of the root cell, or the first error met building them.
pub open spec fn new_root_spec(sys: SystemConfig, core_size: u64) -> Result<
    (Seq<MemoryRegion>, Seq<MemoryRegion>),
    HvError,
> {
    match gpm_spec(sys) {
        Err(e) => Err(e),
        Ok(g) => match hvm_spec(sys, core_size) {
            Err(e) => Err(e),
            Ok(h) => Ok((g, h)),
        },
    }
}

/// Once the fold has failed on a prefix, it fails with that error on every longer prefix.
proof fn lemma_fold_err_sticks(
    s: Seq<MemoryRegion>,
    cfgs: Seq<MemRegionConfig>,
    step: spec_fn(Seq<MemoryRegion>, MemRegionConfig) -> Result<Seq<MemoryRegion>, HvError>,
    k: int,
    m: int,
)
    requires
        0 <= k <= m <= cfgs.len(),
        fold_regions(s, cfgs.take(k), step) is Err,
    ensures
        fold_regions(s, cfgs.take(m), step) == fold_regions(s, cfgs.take(k), step),
    decreases m - k,
{
    if m > k {
        lemma_fold_err_sticks(s, cfgs, step, k, m - 1);
        assert(cfgs.take(m).drop_last() =~= cfgs.take(m - 1));
    }
}

impl Cell {
    /// The cell's memory sets hold no overlapping regions.
    pub open spec fn wf(&self) -> bool {
        self.gpm.wf() && self.hvm.wf()
    }

    /// Builds the root cell from the system configuration `sys` and the size
    /// `core_size` of the hypervisor's code and data.
    pub fn new_root(sys: SystemConfig, core_size: u64) -> (r: Result<Cell, HvError>)
        requires
            layout_ok(sys, core_size),
        ensures
            match r {
                Ok(cell) => new_root_spec(sys, core_size) == Ok::<_, HvError>((cell.gpm@, cell.hvm@))
                    && cell.config == sys.root_cell && cell.wf(),
                Err(e) => new_root_spec(sys, core_size) == Err::<(Seq<MemoryRegion>, Seq<MemoryRegion>), _>(e),
            },
    {
        let ghost cfgs = sys.root_cell.mem_regions@;
        let hv_phys_start = sys.hv_phys_start;
        let hv_phys_size = sys.hv_phys_size;
        let n: usize = sys.root_cell.mem_regions.len();
        let mut gpm = MemorySet::new();
        let mut hvm = MemorySet::new();

        // guest-physical: the hypervisor's own memory, then every configured region
        match gpm.insert(
            MemoryRegion::new_with_empty_mapper(hv_phys_start, hv_phys_size, MEM_READ | MEM_NO_HUGEPAGES),
        ) {
            Ok(()) => {},
            Err(e) => {
                return Err(e);
            },
        }
        assert(gpm@ =~= seq![hv_guest_region(sys)]);
        assert(cfgs.take(0) =~= Seq::<MemRegionConfig>::empty());
        let mut i: usize = 0;
        while i < n
            invariant
                n == cfgs.len(),
                cfgs == sys.root_cell.mem_regions@,
                i <= n,
                gpm.wf(),
                fold_regions(seq![hv_guest_region(sys)], cfgs.take(i as int), gpm_stepper()) == Ok::<_, HvError>(gpm@),
            decreases n - i,
        {
            let c = sys.root_cell.mem_regions[i];
            let ghost before = gpm@;
            assert(cfgs.take(i + 1).drop_last() =~= cfgs.take(i as int));
            assert(cfgs.take(i + 1).last() == c);
            assert(cfgs.take(i + 1).len() == i + 1);
            assert(fold_regions(seq![hv_guest_region(sys)], cfgs.take(i as int), gpm_stepper()) == Ok::<_, HvError>(before));
            assert(gpm_stepper()(before, c) == gpm_step(before, c));
            assert(fold_regions(seq![hv_guest_region(sys)], cfgs.take(i + 1), gpm_stepper()) == gpm_stepper()(before, c));
            assert(fold_regions(seq![hv_guest_region(sys)], cfgs.take(i + 1), gpm_stepper()) == gpm_step(before, c));
            match gpm.insert(MemoryRegion::new_with_offset_mapper(c.virt_start, c.phys_start, c.size, c.flags)) {
                Ok(()) => {},
                Err(e) => {
                    proof {
                        lemma_fold_err_sticks(seq![hv_guest_region(sys)], cfgs, gpm_stepper(), i + 1, n as int);
                        assert(cfgs.take(n as int) =~= cfgs);
                    }
                    return Err(e);
                },
            }
            i = i + 1;
        }
        assert(cfgs.take(n as int) =~= cfgs);
        assert(gpm_spec(sys) == Ok::<_, HvError>(gpm@));

        // host-virtual: the core, the rest of the reserved range, then the aliases
        match hvm.insert(
            MemoryRegion::new_with_offset_mapper(HV_BASE, hv_phys_start, core_size, MEM_READ | MEM_WRITE | MEM_EXECUTE),
        ) {
            Ok(()) => {},
            Err(e) => {
                return Err(e);
            },
        }
        match hvm.insert(
            MemoryRegion::new_with_offset_mapper(
                HV_BASE + core_size,
                hv_phys_start + core_size,
                hv_phys_size - core_size,
                MEM_READ | MEM_WRITE,
            ),
        ) {
            Ok(()) => {},
            Err(e) => {
                assert(!regions_overlap(hv_core_region(sys, core_size), hv_rest_region(sys, core_size)));
                return Err(e);
            },
        }
        assert(hvm@ =~= seq![hv_core_region(sys, core_size), hv_rest_region(sys, core_size)]);
        assert(cfgs.take(0) =~= Seq::<MemRegionConfig>::empty());
        let mut i: usize = 0;
        while i < n
            invariant
                n == cfgs.len(),
                cfgs == sys.root_cell.mem_regions@,
                i <= n,
                hv_phys_start == sys.hv_phys_start,
                hv_phys_start <= HV_BASE,
                hvm.wf(),
                gpm.wf(),
                gpm_spec(sys) == Ok::<_, HvError>(gpm@),
                fold_regions(
                    seq![hv_core_region(sys, core_size), hv_rest_region(sys, core_size)],
                    cfgs.take(i as int),
                    alias_stepper(sys.hv_phys_start),
                ) == Ok::<_, HvError>(hvm@),
            decreases n - i,
        {
            let c = sys.root_cell.mem_regions[i];
            let ghost before = hvm@;
            assert(cfgs.take(i + 1).drop_last() =~= cfgs.take(i as int));
            assert(cfgs.take(i + 1).last() == c);
            assert(fold_regions(
                seq![hv_core_region(sys, core_size), hv_rest_region(sys, core_size)],
                cfgs.take(i + 1),
                alias_stepper(sys.hv_phys_start),
            ) == alias_step(sys.hv_phys_start, before, c));
            if c.flags & MEM_EXECUTE != 0 {
                let hv_virt_start = phys_to_virt(hv_phys_start, c.virt_start);
                if hv_virt_start < c.virt_start {
                    proof {
                        lemma_fold_err_sticks(
                            seq![hv_core_region(sys, core_size), hv_rest_region(sys, core_size)],
                            cfgs,
                            alias_stepper(sys.hv_phys_start),
                            i + 1,
                            n as int,
                        );
                        assert(cfgs.take(n as int) =~= cfgs);
                    }
                    return Err(HvError::GuestAddrTooLarge(c.virt_start));
                }
                match hvm.insert(MemoryRegion::new_with_offset_mapper(hv_virt_start, c.phys_start, c.size, c.flags)) {
                    Ok(()) => {},
                    Err(e) => {
                        proof {
                            lemma_fold_err_sticks(
                                seq![hv_core_region(sys, core_size), hv_rest_region(sys, core_size)],
                                cfgs,
                                alias_stepper(sys.hv_phys_start),
                                i + 1,
                                n as int,
                            );
                            assert(cfgs.take(n as int) =~= cfgs);
                        }
                        return Err(e);
                    },
                }
            }
            i = i + 1;
        }
        assert(cfgs.take(n as int) =~= cfgs);
        Ok(Cell { config: sys.root_cell, gpm, hvm })
    }
}

/// Brings up the root cell: refuses with `Unsupported` when the processor
/// lacks the virtualization features (`features_present` is false), before any
/// memory set is built; otherwise builds the root cell.
pub fn init(features_present: bool, sys: SystemConfig, core_size: u64) -> (r: Result<Cell, HvError>)
    requires
        features_present ==> layout_ok(sys, core_size),
    ensures
        !features_present ==> r == Err::<Cell, HvError>(HvError::Unsupported),
        features_present ==> match r {
            Ok(cell) => new_root_spec(sys, core_size) == Ok::<_, HvError>((cell.gpm@, cell.hvm@))
                && cell.config == sys.root_cell && cell.wf(),
            Err(e) => new_root_spec(sys, core_size) == Err::<(Seq<MemoryRegion>, Seq<MemoryRegion>), _>(e),
        },
{
    if !features_present {
        return Err(HvError::Unsupported);
    }
    Cell::new_root(sys, core_size)
}

/// Every error of a fold whose steps on these regions fail only with overlaps is an overlap.
proof fn lemma_fold_err_is_overlap(
    s: Seq<MemoryRegion>,
    cfgs: Seq<MemRegionConfig>,
    step: spec_fn(Seq<MemoryRegion>, MemRegionConfig) -> Result<Seq<MemoryRegion>, HvError>,
)
    requires
        forall|t: Seq<MemoryRegion>, m: int|
            0 <= m < cfgs.len() && (#[trigger] step(t, cfgs[m])) is Err ==> step(t, cfgs[m])->Err_0 is Overlap,
    ensures
        fold_regions(s, cfgs, step) is Err ==> fold_regions(s, cfgs, step)->Err_0 is Overlap,
    decreases cfgs.len(),
{
    if cfgs.len() > 0 {
        let p = cfgs.drop_last();
        assert forall|t: Seq<MemoryRegion>, m: int|
            0 <= m < p.len() && (#[trigger] step(t, p[m])) is Err implies step(t, p[m])->Err_0 is Overlap by {
            assert(p[m] == cfgs[m]);
        }
        lemma_fold_err_is_overlap(s, p, step);
        assert(cfgs.last() == cfgs[cfgs.len() - 1]);
    }
}

/// After the guest-physical fold succeeds on a prefix, the set holds every region of it.
proof fn lemma_gpm_fold_contains(s: Seq<MemoryRegion>, cfgs: Seq<MemRegionConfig>, k: int)
    requires
        0 <= k <= cfgs.len(),
        fold_regions(s, cfgs.take(k), gpm_stepper()) is Ok,
    ensures
        forall|m: int|
            0 <= m < k ==> (fold_regions(s, cfgs.take(k), gpm_stepper())->Ok_0).contains(
                #[trigger] guest_region(cfgs[m]),
            ),
    decreases k,
{
    if k > 0 {
        assert(cfgs.take(k).drop_last() =~= cfgs.take(k - 1));
        let prev = fold_regions(s, cfgs.take(k - 1), gpm_stepper());
        assert(prev is Ok);
        lemma_gpm_fold_contains(s, cfgs, k - 1);
        let t = prev->Ok_0;
        let c = cfgs[k - 1];
        assert(cfgs.take(k).last() == c);
        let t2 = t.push(guest_region(c));
        assert(fold_regions(s, cfgs.take(k), gpm_stepper()) == Ok::<_, HvError>(t2));
        assert forall|m: int| 0 <= m < k implies t2.contains(#[trigger] guest_region(cfgs[m])) by {
            if m < k - 1 {
                let idx = choose|idx: int| 0 <= idx < t.len() && t[idx] == guest_region(cfgs[m]);
                assert(t2[idx] == guest_region(cfgs[m]));
            } else {
                assert(t2[t.len() as int] == guest_region(c));
            }
        }
    }
}

/// After the alias fold succeeds on a prefix, the set holds the alias of every
/// executable region of it.
proof fn lemma_alias_fold_contains(hv_phys_start: u64, s: Seq<MemoryRegion>, cfgs: Seq<MemRegionConfig>, k: int)
    requires
        0 <= k <= cfgs.len(),
        fold_regions(s, cfgs.take(k), alias_stepper(hv_phys_start)) is Ok,
    ensures
        forall|m: int|
            0 <= m < k && is_executable(cfgs[m]) ==> (fold_regions(
                s,
                cfgs.take(k),
                alias_stepper(hv_phys_start),
            )->Ok_0).contains(#[trigger] alias_region(hv_phys_start, cfgs[m])),
    decreases k,
{
    if k > 0 {
        assert(cfgs.take(k).drop_last() =~= cfgs.take(k - 1));
        let prev = fold_regions(s, cfgs.take(k - 1), alias_stepper(hv_phys_start));
        assert(prev is Ok);
        lemma_alias_fold_contains(hv_phys_start, s, cfgs, k - 1);
        let t = prev->Ok_0;
        let c = cfgs[k - 1];
        assert(cfgs.take(k).last() == c);
        let t2 = fold_regions(s, cfgs.take(k), alias_stepper(hv_phys_start))->Ok_0;
        assert(fold_regions(s, cfgs.take(k), alias_stepper(hv_phys_start)) == alias_step(hv_phys_start, t, c));
        assert forall|m: int| 0 <= m < k && is_executable(cfgs[m]) implies t2.contains(
            #[trigger] alias_region(hv_phys_start, cfgs[m]),
        ) by {
            if m < k - 1 {
                let idx = choose|idx: int| 0 <= idx < t.len() && t[idx] == alias_region(hv_phys_start, cfgs[m]);
                if is_executable(c) {
                    assert(t2[idx] == alias_region(hv_phys_start, cfgs[m]));
                } else {
                    assert(t2 == t);
                }
            } else {
                assert(t2[t.len() as int] == alias_region(hv_phys_start, c));
            }
        }
    }
}

/// Two configured regions whose guest-physical ranges intersect make root-cell
/// construction fail with an overlap error.
pub proof fn lemma_overlapping_guest_regions_refused(sys: SystemConfig, core_size: u64, i: int, j: int)
    requires
        0 <= i < j < sys.root_cell.mem_regions@.len(),
        regions_overlap(
            guest_region(sys.root_cell.mem_regions@[i]),
            guest_region(sys.root_cell.mem_regions@[j]),
        ),
    ensures
        new_root_spec(sys, core_size) is Err,
        new_root_spec(sys, core_size)->Err_0 is Overlap,
{
    let cfgs = sys.root_cell.mem_regions@;
    let s = seq![hv_guest_region(sys)];
    let st = gpm_stepper();
    let n = cfgs.len() as int;
    if fold_regions(s, cfgs.take(j), st) is Err {
        lemma_fold_err_sticks(s, cfgs, st, j, n);
    } else {
        lemma_gpm_fold_contains(s, cfgs, j);
        let t = fold_regions(s, cfgs.take(j), st)->Ok_0;
        assert(t.contains(guest_region(cfgs[i])));
        let idx = choose|idx: int| 0 <= idx < t.len() && t[idx] == guest_region(cfgs[i]);
        assert(regions_overlap(t[idx], guest_region(cfgs[j])));
        assert(cfgs.take(j + 1).drop_last() =~= cfgs.take(j));
        assert(cfgs.take(j + 1).last() == cfgs[j]);
        assert(fold_regions(s, cfgs.take(j + 1), st) is Err);
        lemma_fold_err_sticks(s, cfgs, st, j + 1, n);
    }
    assert(cfgs.take(n) =~= cfgs);
    lemma_fold_err_is_overlap(s, cfgs, st);
}

/// Two executable configured regions whose direct-access aliases intersect make
/// root-cell construction fail with an overlap error, where no alias wraps.
pub proof fn lemma_overlapping_aliases_refused(sys: SystemConfig, core_size: u64, i: int, j: int)
    requires
        0 <= i < j < sys.root_cell.mem_regions@.len(),
        is_executable(sys.root_cell.mem_regions@[i]),
        is_executable(sys.root_cell.mem_regions@[j]),
        regions_overlap(
            alias_region(sys.hv_phys_start, sys.root_cell.mem_regions@[i]),
            alias_region(sys.hv_phys_start, sys.root_cell.mem_regions@[j]),
        ),
        forall|m: int|
            0 <= m < sys.root_cell.mem_regions@.len() ==> !alias_wraps(
                sys.hv_phys_start,
                #[trigger] sys.root_cell.mem_regions@[m],
            ),
    ensures
        new_root_spec(sys, core_size) is Err,
        new_root_spec(sys, core_size)->Err_0 is Overlap,
{
    let cfgs = sys.root_cell.mem_regions@;
    let g = seq![hv_guest_region(sys)];
    lemma_fold_err_is_overlap(g, cfgs, gpm_stepper());
    let s = seq![hv_core_region(sys, core_size), hv_rest_region(sys, core_size)];
    let st = alias_stepper(sys.hv_phys_start);
    let n = cfgs.len() as int;
    if fold_regions(s, cfgs.take(j), st) is Err {
        lemma_fold_err_sticks(s, cfgs, st, j, n);
    } else {
        lemma_alias_fold_contains(sys.hv_phys_start, s, cfgs, j);
        let t = fold_regions(s, cfgs.take(j), st)->Ok_0;
        assert(t.contains(alias_region(sys.hv_phys_start, cfgs[i])));
        let idx = choose|idx: int| 0 <= idx < t.len() && t[idx] == alias_region(sys.hv_phys_start, cfgs[i]);
        assert(regions_overlap(t[idx], alias_region(sys.hv_phys_start, cfgs[j])));
        assert(cfgs.take(j + 1).drop_last() =~= cfgs.take(j));
        assert(cfgs.take(j + 1).last() == cfgs[j]);
        assert(fold_regions(s, cfgs.take(j + 1), st) is Err);
        lemma_fold_err_sticks(s, cfgs, st, j + 1, n);
    }
    assert(cfgs.take(n) =~= cfgs);
    lemma_fold_err_is_overlap(s, cfgs, st);
}

/// For a root cell with one executable region that lies clear of the
/// hypervisor's memory: construction fails naming the region's guest-physical
/// start exactly when its direct-access alias wraps; an alias that does not
/// wrap and lies clear of the hypervisor's own mappings is accepted.
pub proof fn lemma_alias_wrap_boundary(sys: SystemConfig, core_size: u64, c: MemRegionConfig)
    requires
        layout_ok(sys, core_size),
        sys.root_cell.mem_regions@ == seq![c],
        is_executable(c),
        !regions_overlap(hv_guest_region(sys), guest_region(c)),
    ensures
        alias_wraps(sys.hv_phys_start, c) ==> new_root_spec(sys, core_size) == Err::<
            (Seq<MemoryRegion>, Seq<MemoryRegion>),
            HvError,
        >(HvError::GuestAddrTooLarge(c.virt_start)),
        !alias_wraps(sys.hv_phys_start, c) && !regions_overlap(
            hv_core_region(sys, core_size),
            alias_region(sys.hv_phys_start, c),
        ) && !regions_overlap(hv_rest_region(sys, core_size), alias_region(sys.hv_phys_start, c))
            ==> new_root_spec(sys, core_size) is Ok,
{
    let cfgs = seq![c];
    assert(cfgs.drop_last() =~= Seq::<MemRegionConfig>::empty());
    assert(cfgs.last() == c);
    let g = seq![hv_guest_region(sys)];
    assert(!(exists|k: int| 0 <= k < g.len() && regions_overlap(g[k], guest_region(c)))) by {
        assert forall|k: int| 0 <= k < g.len() implies !regions_overlap(g[k], guest_region(c)) by {
            assert(g[k] == hv_guest_region(sys));
        }
    }
    assert(fold_regions(g, cfgs.drop_last(), gpm_stepper()) == Ok::<_, HvError>(g));
    assert(fold_regions(g, cfgs, gpm_stepper()) == gpm_step(g, c));
    assert(gpm_spec(sys) is Ok);
    let s = seq![hv_core_region(sys, core_size), hv_rest_region(sys, core_size)];
    let a = alias_region(sys.hv_phys_start, c);
    assert(fold_regions(s, cfgs.drop_last(), alias_stepper(sys.hv_phys_start)) == Ok::<_, HvError>(s));
    assert(fold_regions(s, cfgs, alias_stepper(sys.hv_phys_start)) == alias_step(sys.hv_phys_start, s, c));
    if !alias_wraps(sys.hv_phys_start, c) && !regions_overlap(hv_core_region(sys, core_size), a)
        && !regions_overlap(hv_rest_region(sys, core_size), a) {
        assert forall|k: int| 0 <= k < s.len() implies !regions_overlap(s[k], a) by {
            if k == 0 {
                assert(s[k] == hv_core_region(sys, core_size));
            } else {
                assert(s[k] == hv_rest_region(sys, core_size));
            }
        }
        assert(insert_spec(s, a) is Ok);
    }
}

} // verus!
