use vstd::prelude::*;
use x86::segmentation::SegmentSelector;

verus! {

/// Access-rights bit that marks a segment as unusable (null or not present).
pub const ACCESS_UNUSABLE: u32 = 0x1_0000;

/// Descriptor "present" bit.
pub const DESC_PRESENT: u64 = 1u64 << 47u64;

/// Descriptor "S" bit: set for code/data descriptors, clear for system ones.
pub const DESC_USER_SEGMENT: u64 = 1u64 << 44u64;

/// Descriptor granularity bit: the limit counts 4 KiB units.
pub const DESC_GRANULARITY: u64 = 1u64 << 55u64;

/// A descriptor-table register value (GDTR or IDTR) as the hardware encodes it.
#[derive(Clone, Copy, Debug, PartialEq, Eq, Structural)]
pub struct DescriptorTablePointer {
    pub limit: u16,
    pub base: u64,
}

/// A segment register with the hidden part resolved from its descriptor.
#[derive(Clone, Copy, Debug, PartialEq, Eq, Structural)]
pub struct Segment {
    pub selector: u16,
    pub base: u64,
    pub limit: u32,
    pub access_rights: u32,
}

/// Index of a selector in its descriptor table.
pub open spec fn selector_index_spec(selector: u16) -> int {
    (selector >> 3u16) as int
}

pub open spec fn desc_present(entry: u64) -> bool {
    entry & DESC_PRESENT != 0
}

pub open spec fn desc_is_system(entry: u64) -> bool {
    entry & DESC_USER_SEGMENT == 0
}

/// Base address held in the low descriptor word (bits 0..32 of the base).
pub open spec fn desc_base_low(entry: u64) -> u64 {
    ((entry >> 16u64) & 0xff_ffffu64) | (((entry >> 56u64) & 0xffu64) << 24u64)
}

/// Limit in bytes, granularity applied.
pub open spec fn desc_limit(entry: u64) -> u32 {
    let raw = (entry & 0xffffu64) | (((entry >> 48u64) & 0xfu64) << 16u64);
    if entry & DESC_GRANULARITY != 0 {
        ((raw << 12u64) | 0xfffu64) as u32
    } else {
        raw as u32
    }
}

/// Access rights in the layout of the VMX guest-state fields.
pub open spec fn desc_access_rights(entry: u64) -> u32 {
    ((entry >> 40u64) & 0xf0ffu64) as u32
}

/// The selector can be resolved against `table` without reading past its end:
/// its entry is in range, and so is the upper half of a present system descriptor.
pub open spec fn selector_in_table(selector: u16, table: Seq<u64>) -> bool {
    let i = selector_index_spec(selector);
    i < table.len() && (i != 0 && desc_present(table[i]) && desc_is_system(table[i]) ==> i + 1
        < table.len())
}

/// The segment that `selector` designates in `table`.
pub open spec fn segment_spec(selector: u16, table: Seq<u64>) -> Segment {
    let i = selector_index_spec(selector);
    if i == 0 || !desc_present(table[i]) {
        Segment { selector, base: 0, limit: 0, access_rights: ACCESS_UNUSABLE }
    } else {
        let entry = table[i];
        let base = if desc_is_system(entry) {
            desc_base_low(entry) | ((table[i + 1] & 0xffff_ffffu64) << 32u64)
        } else {
            desc_base_low(entry)
        };
        Segment {
            selector,
            base,
            limit: desc_limit(entry),
            access_rights: desc_access_rights(entry),
        }
    }
}

/// Relies on x86's `SegmentSelector::from_raw` and `SegmentSelector::index`:
/// the index is the selector with its three RPL/TI bits shifted out.
#[verifier::external_body]
pub(crate) fn selector_index(selector: u16) -> (r: u16)
    ensures
        r as int == selector_index_spec(selector),
{
    SegmentSelector::from_raw(selector).index()
}

/// Whether `selector` can be resolved against `table`.
pub fn selector_fits(selector: u16, table: &Vec<u64>) -> (r: bool)
    ensures
        r == selector_in_table(selector, table@),
{
    let i = selector_index(selector) as usize;
    if i >= table.len() {
        return false;
    }
    let entry = table[i];
    if i != 0 && entry & DESC_PRESENT != 0 && entry & DESC_USER_SEGMENT == 0 {
        i + 1 < table.len()
    } else {
        true
    }
}

impl Segment {
    /// Resolves `selector` against the descriptor table `table`.
    pub fn from_selector(selector: u16, table: &Vec<u64>) -> (r: Segment)
        requires
            selector_in_table(selector, table@),
        ensures
            r == segment_spec(selector, table@),
    {
        let i = selector_index(selector) as usize;
        if i == 0 {
            return Segment { selector, base: 0, limit: 0, access_rights: ACCESS_UNUSABLE };
        }
        let entry = table[i];
        if entry & DESC_PRESENT == 0 {
            return Segment { selector, base: 0, limit: 0, access_rights: ACCESS_UNUSABLE };
        }
        let low = ((entry >> 16u64) & 0xff_ffffu64) | (((entry >> 56u64) & 0xffu64) << 24u64);
        let base = if entry & DESC_USER_SEGMENT == 0 {
            low | ((table[i + 1] & 0xffff_ffffu64) << 32u64)
        } else {
            low
        };
        let raw = (entry & 0xffffu64) | (((entry >> 48u64) & 0xfu64) << 16u64);
        let limit = if entry & DESC_GRANULARITY != 0 {
            ((raw << 12u64) | 0xfffu64) as u32
        } else {
            raw as u32
        };
        Segment {
            selector,
            base,
            limit,
            access_rights: ((entry >> 40u64) & 0xf0ffu64) as u32,
        }
    }
}

/// Reading a segment is a pure function of the selector and the table:
/// two reads of one selector against an unchanged table agree.
pub proof fn lemma_segment_read_repeatable(selector: u16, table: Seq<u64>, r1: Segment, r2: Segment)
    requires
        r1 == segment_spec(selector, table),
        r2 == segment_spec(selector, table),
    ensures
        r1 == r2,
{
}

} // verus!
