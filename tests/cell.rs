use rvm_core::cell::{init, layout_fits, phys_to_virt, Cell, CellConfig, MemRegionConfig, SystemConfig, HV_BASE};
use rvm_core::memory::{
    HvError, Mapper, MemoryRegion, MEM_EXECUTE, MEM_NO_HUGEPAGES, MEM_READ, MEM_WRITE,
};

const RWX: u64 = MEM_READ | MEM_WRITE | MEM_EXECUTE;

fn sys(start: u64, size: u64, regions: Vec<MemRegionConfig>) -> SystemConfig {
    SystemConfig { hv_phys_start: start, hv_phys_size: size, root_cell: CellConfig { mem_regions: regions } }
}

fn reg(guest: u64, host: u64, size: u64, flags: u64) -> MemRegionConfig {
    MemRegionConfig { phys_start: host, virt_start: guest, size, flags }
}

#[test]
fn hypervisor_range_maps_core_and_rest() {
    let cell = Cell::new_root(sys(0x100000, 0x100000, vec![]), 0x10000).unwrap();
    let h = cell.hvm.regions();
    assert_eq!(h.len(), 2);
    assert_eq!(
        h[0],
        MemoryRegion { start: HV_BASE, size: 0x10000, flags: RWX, mapper: Mapper::Linear(0x100000) }
    );
    assert_eq!(
        h[1],
        MemoryRegion {
            start: HV_BASE + 0x10000,
            size: 0xF0000,
            flags: MEM_READ | MEM_WRITE,
            mapper: Mapper::Linear(0x110000),
        }
    );
    assert_eq!(h[1].flags & MEM_EXECUTE, 0);
    let g = cell.gpm.regions();
    assert_eq!(g.len(), 1);
    assert_eq!(
        g[0],
        MemoryRegion { start: 0x100000, size: 0x100000, flags: MEM_READ | MEM_NO_HUGEPAGES, mapper: Mapper::Empty }
    );
}

#[test]
fn executable_guest_region_gets_alias() {
    let hv = 0x1_0000_0000;
    let cell = Cell::new_root(sys(hv, 0x100000, vec![reg(0, 0, 0x8000_0000, RWX)]), 0x10000).unwrap();
    let g = cell.gpm.regions();
    assert_eq!(g.len(), 2);
    assert_eq!(g[1], MemoryRegion { start: 0, size: 0x8000_0000, flags: RWX, mapper: Mapper::Linear(0) });
    let h = cell.hvm.regions();
    assert_eq!(h.len(), 3);
    assert_eq!(phys_to_virt(hv, 0), HV_BASE - hv);
    assert_eq!(
        h[2],
        MemoryRegion { start: phys_to_virt(hv, 0), size: 0x8000_0000, flags: RWX, mapper: Mapper::Linear(0) }
    );
    assert_eq!(cell.config.mem_regions, vec![reg(0, 0, 0x8000_0000, RWX)]);
}

#[test]
fn non_executable_region_gets_no_alias() {
    let cell = Cell::new_root(
        sys(0x1_0000_0000, 0x100000, vec![reg(0, 0, 0x1000, MEM_READ | MEM_WRITE)]),
        0x10000,
    )
    .unwrap();
    assert_eq!(cell.gpm.len(), 2);
    assert_eq!(cell.hvm.len(), 2);
}

#[test]
fn overlapping_guest_regions_fail() {
    let r = Cell::new_root(
        sys(0x1_0000_0000, 0x100000, vec![reg(0, 0, 0x2000, MEM_READ), reg(0x1000, 0x10_0000, 0x1000, MEM_READ)]),
        0x10000,
    );
    assert_eq!(r.err(), Some(HvError::Overlap { start: 0x1000, size: 0x1000 }));
}

#[test]
fn guest_region_over_hypervisor_memory_fails() {
    let r = Cell::new_root(sys(0x100000, 0x100000, vec![reg(0, 0, 0x8000_0000, RWX)]), 0x10000);
    assert_eq!(r.err(), Some(HvError::Overlap { start: 0, size: 0x8000_0000 }));
}

#[test]
fn executable_regions_get_aliases_in_order() {
    let hv = 0x1_0000_0000;
    let a = reg(0x2000, 0x2000, 0x2000, RWX);
    let c = reg(0x4000, 0x9000, 0x1000, MEM_READ);
    let d = reg(0x8000, 0x7000, 0x1000, MEM_READ | MEM_EXECUTE);
    let cell = Cell::new_root(sys(hv, 0x100000, vec![a, c, d]), 0x10000).unwrap();
    let h = cell.hvm.regions();
    assert_eq!(h.len(), 4);
    assert_eq!(h[2], MemoryRegion { start: HV_BASE - hv + 0x2000, size: 0x2000, flags: RWX, mapper: Mapper::Linear(0x2000) });
    assert_eq!(
        h[3],
        MemoryRegion {
            start: HV_BASE - hv + 0x8000,
            size: 0x1000,
            flags: MEM_READ | MEM_EXECUTE,
            mapper: Mapper::Linear(0x7000),
        }
    );
    assert_eq!(cell.gpm.len(), 4);
}

#[test]
fn alias_that_wraps_fails() {
    let hv = 0x1_0000_0000;
    let offset = HV_BASE - hv;
    let start = u64::MAX - offset + 1;
    let r = Cell::new_root(sys(hv, 0x100000, vec![reg(start, 0, 0x1000, RWX)]), 0x10000);
    assert_eq!(r.err(), Some(HvError::GuestAddrTooLarge(start)));
    assert_eq!(phys_to_virt(hv, start), 0);
}

#[test]
fn alias_just_below_wrap_succeeds() {
    let hv = 0x1_0000_0000;
    let offset = HV_BASE - hv;
    let start = u64::MAX - offset;
    let cell = Cell::new_root(sys(hv, 0x100000, vec![reg(start, 0, 1, RWX)]), 0x10000).unwrap();
    assert_eq!(phys_to_virt(hv, start), u64::MAX);
    assert_eq!(cell.hvm.regions()[2].start, u64::MAX);
}

#[test]
fn init_without_features_fails_first() {
    let r = init(false, sys(0x100000, 0x100000, vec![reg(0, 0, 0x8000_0000, RWX)]), 0x10000);
    assert_eq!(r.err(), Some(HvError::Unsupported));
}

#[test]
fn init_without_features_ignores_layout() {
    let r = init(false, sys(HV_BASE + 1, u64::MAX, vec![]), u64::MAX);
    assert_eq!(r.err(), Some(HvError::Unsupported));
}

#[test]
fn init_with_features_builds_root_cell() {
    let cell = init(true, sys(0x100000, 0x100000, vec![]), 0x10000).unwrap();
    assert_eq!(cell.hvm.len(), 2);
    assert_eq!(cell.gpm.len(), 1);
}

#[test]
fn layout_fits_checks_core_and_bounds() {
    assert!(layout_fits(&sys(0x100000, 0x100000, vec![]), 0x10000));
    assert!(!layout_fits(&sys(0x100000, 0x100000, vec![]), 0x100001));
    assert!(!layout_fits(&sys(HV_BASE + 1, 0x1000, vec![]), 0));
    assert!(!layout_fits(&sys(0, u64::MAX - HV_BASE + 1, vec![]), 0));
}
