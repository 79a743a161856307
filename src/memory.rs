use vstd::prelude::*;

verus! {

/// Permission and attribute bits of a memory region.
pub const MEM_READ: u64 = 1u64 << 0u64;
pub const MEM_WRITE: u64 = 1u64 << 1u64;
pub const MEM_EXECUTE: u64 = 1u64 << 2u64;
pub const MEM_DMA: u64 = 1u64 << 3u64;
pub const MEM_IO: u64 = 1u64 << 4u64;
pub const MEM_NO_HUGEPAGES: u64 = 1u64 << 8u64;

/// How the addresses of a region translate to physical addresses.
#[derive(Clone, Copy, Debug, PartialEq, Eq, Structural)]
pub enum Mapper {
    /// Reserves the addresses without backing them.
    Empty,
    /// Maps linearly: the region's first address to this physical address.
    Linear(u64),
}

/// A contiguous range of addresses with its permissions and mapping.
#[derive(Clone, Copy, Debug, PartialEq, Eq, Structural)]
pub struct MemoryRegion {
    pub start: u64,
    pub size: u64,
    pub flags: u64,
    pub mapper: Mapper,
}

/// Errors of cell construction and bootstrap.
#[derive(Clone, Copy, Debug, PartialEq, Eq, Structural)]
pub enum HvError {
    /// The region (start, size) overlaps one already in the memory set.
    Overlap { start: u64, size: u64 },
    /// The direct-access alias of this guest-physical address wraps around
    /// the address space.
    GuestAddrTooLarge(u64),
    /// The processor lacks a virtualization feature that the hypervisor needs.
    Unsupported,
}

impl MemoryRegion {
    /// A region that maps `[start, start + size)` linearly onto physical memory from `phys_start`.
    pub fn new_with_offset_mapper(start: u64, phys_start: u64, size: u64, flags: u64) -> (r: MemoryRegion)
        ensures
            r == (MemoryRegion { start, size, flags, mapper: Mapper::Linear(phys_start) }),
    {
        MemoryRegion { start, size, flags, mapper: Mapper::Linear(phys_start) }
    }

    /// A region that reserves `[start, start + size)` without backing it.
    pub fn new_with_empty_mapper(start: u64, size: u64, flags: u64) -> (r: MemoryRegion)
        ensures
            r == (MemoryRegion { start, size, flags, mapper: Mapper::Empty }),
    {
        MemoryRegion { start, size, flags, mapper: Mapper::Empty }
    }
}

/// Two regions share at least one address.
pub open spec fn regions_overlap(a: MemoryRegion, b: MemoryRegion) -> bool {
    &&& a.size > 0
    &&& b.size > 0
    &&& a.start < b.start + b.size
    &&& b.start < a.start + a.size
}

/// No two regions of `s` overlap.
pub open spec fn disjoint(s: Seq<MemoryRegion>) -> bool {
    forall|i: int, j: int| 0 <= i < s.len() && 0 <= j < s.len() && i != j ==> !regions_overlap(s[i], s[j])
}

/// The result of inserting `r` into a set holding `s`: refused when `r` overlaps a region of `s`.
pub open spec fn insert_spec(s: Seq<MemoryRegion>, r: MemoryRegion) -> Result<Seq<MemoryRegion>, HvError> {
    if exists|i: int| 0 <= i < s.len() && regions_overlap(s[i], r) {
        Err(HvError::Overlap { start: r.start, size: r.size })
    } else {
        Ok(s.push(r))
    }
}

/// Whether two regions overlap.
pub fn overlaps(a: &MemoryRegion, b: &MemoryRegion) -> (r: bool)
    ensures
        r == regions_overlap(*a, *b),
{
    if a.size == 0 || b.size == 0 {
        false
    } else if a.start <= b.start {
        b.start - a.start < a.size
    } else {
        a.start - b.start < b.size
    }
}

/// A set of non-overlapping memory regions, kept in order of insertion.
#[derive(Debug)]
pub struct MemorySet {
    regions: Vec<MemoryRegion>,
}

impl View for MemorySet {
    type V = Seq<MemoryRegion>;

    closed spec fn view(&self) -> Seq<MemoryRegion> {
        self.regions@
    }
}

impl MemorySet {
    /// The set holds no two overlapping regions.
    pub open spec fn wf(&self) -> bool {
        disjoint(self@)
    }

    /// An empty set.
    pub fn new() -> (r: MemorySet)
        ensures
            r@ == Seq::<MemoryRegion>::empty(),
            r.wf(),
    {
        MemorySet { regions: Vec::new() }
    }

    /// The regions, in order of insertion.
    pub fn regions(&self) -> (r: &Vec<MemoryRegion>)
        ensures
            r@ == self@,
    {
        &self.regions
    }

    /// Number of regions.
    pub fn len(&self) -> (r: usize)
        ensures
            r == self@.len(),
    {
        self.regions.len()
    }

    /// Adds `region`, or leaves the set unchanged and reports an overlap.
    pub fn insert(&mut self, region: MemoryRegion) -> (r: Result<(), HvError>)
        requires
            old(self).wf(),
        ensures
            final(self).wf(),
            match r {
                Ok(()) => insert_spec(old(self)@, region) == Ok::<Seq<MemoryRegion>, HvError>(final(self)@),
                Err(e) => insert_spec(old(self)@, region) == Err::<Seq<MemoryRegion>, HvError>(e)
                    && final(self)@ == old(self)@,
            },
    {
        let n: usize = self.regions.len();
        let mut i: usize = 0;
        while i < n
            invariant
                n == self.regions@.len(),
                self.regions@ == old(self).regions@,
                disjoint(self.regions@),
                i <= n,
                forall|k: int| 0 <= k < i ==> !regions_overlap(self.regions@[k], region),
            decreases n - i,
        {
            if overlaps(&self.regions[i], &region) {
                return Err(HvError::Overlap { start: region.start, size: region.size });
            }
            i = i + 1;
        }
        self.regions.push(region);
        assert(disjoint(self.regions@)) by {
            assert forall|a: int, b: int|
                0 <= a < self.regions@.len() && 0 <= b < self.regions@.len() && a != b implies !regions_overlap(
                self.regions@[a],
                self.regions@[b],
            ) by {
                if a < n as int && b < n as int {
                    assert(self.regions@[a] == old(self).regions@[a]);
                    assert(self.regions@[b] == old(self).regions@[b]);
                }
            }
        }
        Ok(())
    }
}

/// Once a region is in a set, inserting any region that overlaps it is refused.
pub proof fn lemma_insert_overlapping_refused(s: Seq<MemoryRegion>, a: MemoryRegion, b: MemoryRegion)
    requires
        insert_spec(s, a) is Ok,
        regions_overlap(a, b),
    ensures
        insert_spec(insert_spec(s, a)->Ok_0, b) == Err::<Seq<MemoryRegion>, HvError>(
            HvError::Overlap { start: b.start, size: b.size },
        ),
{
    let t = insert_spec(s, a)->Ok_0;
    assert(t[s.len() as int] == a);
}

} // verus!
