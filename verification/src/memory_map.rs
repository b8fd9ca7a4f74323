//! Model of the firmware-supplied memory map.
//!
//! The firmware hands the bootloader an ordered run of memory descriptors once
//! boot services are exited.  The frame allocator consumes the map twice: once
//! at construction to size its bitmap, and once per descriptor to reserve the
//! regions whose type must remain untouched.

use vstd::prelude::*;

verus! {

/// Category of a firmware memory region.  Only four categories are safe to
/// reuse once boot services are exited; everything else must stay reserved.
#[derive(Clone, Copy, PartialEq, Eq, Structural, Debug)]
pub enum MemoryRegionType {
    /// Code of the firmware's boot services; reusable after exit.
    BootServicesCode,
    /// Data of the firmware's boot services; reusable after exit.
    BootServicesData,
    /// Ordinary free memory.
    Conventional,
    /// Byte-addressable persistent memory; treated as reusable.
    PersistentMemory,
    /// Code loaded by the firmware for the bootloader itself.
    LoaderCode,
    /// Data allocated by the firmware for the bootloader itself.
    LoaderData,
    /// Code of the firmware's runtime services; must stay resident.
    RuntimeServicesCode,
    /// Data of the firmware's runtime services; must stay resident.
    RuntimeServicesData,
    /// Memory holding ACPI tables.
    AcpiTables,
    /// Memory-mapped device registers.
    MemoryMappedIo,
    /// Memory reported as defective or otherwise unusable.
    Unusable,
    /// Any other firmware-reserved region.
    Reserved,
}

impl MemoryRegionType {
    /// Whether frames of this region type may be handed out again after boot
    /// services are exited.
    pub open spec fn spec_is_reusable(self) -> bool {
        match self {
            MemoryRegionType::BootServicesCode => true,
            MemoryRegionType::BootServicesData => true,
            MemoryRegionType::Conventional => true,
            MemoryRegionType::PersistentMemory => true,
            _ => false,
        }
    }

    /// Whether frames of this region type may be handed out again.
    #[verifier::when_used_as_spec(spec_is_reusable)]
    pub fn is_reusable(self) -> (r: bool)
        ensures
            r == self.spec_is_reusable(),
    {
        match self {
            MemoryRegionType::BootServicesCode => true,
            MemoryRegionType::BootServicesData => true,
            MemoryRegionType::Conventional => true,
            MemoryRegionType::PersistentMemory => true,
            _ => false,
        }
    }
}

/// One entry of the firmware memory map, as plain values.
#[derive(Clone, Copy, PartialEq, Eq, Structural, Debug)]
pub struct MemoryDescriptor {
    /// Physical address of the region's first byte.
    pub phys_start: u64,
    /// Virtual address of the region's first byte; identity-mapped at boot.
    pub virt_start: u64,
    /// Number of frames the region spans.
    pub page_count: u64,
    /// Firmware category of the region.
    pub region_type: MemoryRegionType,
}

impl MemoryDescriptor {
    /// First byte past the region, for frames of `page_size` bytes.
    pub open spec fn spec_end(self, page_size: u16) -> int {
        self.phys_start + self.page_count * page_size
    }
}

/// Total number of frames described by the map: the sum of all page counts.
pub open spec fn total_pages(map: Seq<MemoryDescriptor>) -> int
    decreases map.len(),
{
    if map.len() == 0 {
        0
    } else {
        total_pages(map.drop_last()) + map.last().page_count
    }
}

/// Total number of frames of the non-reusable descriptors: the frames that
/// must be reserved before the allocator hands out memory.
pub open spec fn reserved_pages(map: Seq<MemoryDescriptor>) -> int
    decreases map.len(),
{
    if map.len() == 0 {
        0
    } else {
        reserved_pages(map.drop_last()) + if map.last().region_type.spec_is_reusable() {
            0
        } else {
            map.last().page_count as int
        }
    }
}

/// Whether frame `j`, numbered from the map's first frame, belongs to a
/// non-reusable region of the map.
pub open spec fn spec_reserved_frame(map: Seq<MemoryDescriptor>, j: int) -> bool {
    exists|d: int|
        0 <= d < map.len() && !(#[trigger] map[d]).region_type.spec_is_reusable()
            && total_pages(map.take(d)) <= j < total_pages(map.take(d)) + map[d].page_count
}

/// Extending the map by one descriptor extends the reserved frames by that
/// descriptor's frames, when it is non-reusable.
pub proof fn lemma_reserved_frame_step(map: Seq<MemoryDescriptor>, i: int, j: int)
    requires
        0 <= i < map.len(),
    ensures
        spec_reserved_frame(map.take(i + 1), j) == (spec_reserved_frame(map.take(i), j) || (
        !map[i].region_type.spec_is_reusable() && total_pages(map.take(i)) <= j < total_pages(
            map.take(i),
        ) + map[i].page_count)),
{
    let shorter = map.take(i);
    let longer = map.take(i + 1);
    assert(longer.take(i) =~= map.take(i));
    if spec_reserved_frame(shorter, j) {
        let d = choose|d: int|
            0 <= d < shorter.len() && !(#[trigger] shorter[d]).region_type.spec_is_reusable()
                && total_pages(shorter.take(d)) <= j < total_pages(shorter.take(d))
                + shorter[d].page_count;
        assert(shorter.take(d) =~= map.take(d));
        assert(longer.take(d) =~= map.take(d));
        assert(longer[d] == shorter[d]);
        assert(spec_reserved_frame(longer, j));
    }
    if !map[i].region_type.spec_is_reusable() && total_pages(map.take(i)) <= j < total_pages(
        map.take(i),
    ) + map[i].page_count {
        assert(longer[i] == map[i]);
        assert(spec_reserved_frame(longer, j));
    }
    if spec_reserved_frame(longer, j) {
        let d = choose|d: int|
            0 <= d < longer.len() && !(#[trigger] longer[d]).region_type.spec_is_reusable()
                && total_pages(longer.take(d)) <= j < total_pages(longer.take(d))
                + longer[d].page_count;
        assert(longer.take(d) =~= map.take(d));
        if d < i {
            assert(shorter[d] == longer[d]);
            assert(shorter.take(d) =~= map.take(d));
            assert(spec_reserved_frame(shorter, j));
        } else {
            assert(d == i);
            assert(longer[i] == map[i]);
        }
    }
}

/// What the allocator's construction relies on the firmware to guarantee: a
/// non-empty map of page-aligned regions, ascending and contiguous, whose
/// frame count and end address fit the machine's arithmetic.
pub open spec fn map_wf(map: Seq<MemoryDescriptor>, page_size: u16) -> bool {
    &&& map.len() > 0
    &&& page_size > 0
    &&& forall|i: int|
        0 <= i < map.len() ==> (#[trigger] map[i]).phys_start % (page_size as u64) == 0
    &&& forall|i: int|
        0 <= i < map.len() - 1 ==> (#[trigger] map[i]).spec_end(page_size) == map[i + 1].phys_start
    &&& map.last().spec_end(page_size) + 8 * (page_size as int) <= u64::MAX
    &&& total_pages(map) <= usize::MAX
    &&& 8 * total_pages(map) <= usize::MAX
}

/// Unfolds the page total of a one-longer prefix.
pub proof fn lemma_total_pages_take_step(map: Seq<MemoryDescriptor>, i: int)
    requires
        0 <= i < map.len(),
    ensures
        total_pages(map.take(i + 1)) == total_pages(map.take(i)) + map[i].page_count,
{
    assert(map.take(i + 1).drop_last() =~= map.take(i));
    assert(map.take(i + 1).last() == map[i]);
}

/// Unfolds the reserved-page total of a one-longer prefix.
pub proof fn lemma_reserved_pages_take_step(map: Seq<MemoryDescriptor>, i: int)
    requires
        0 <= i < map.len(),
    ensures
        reserved_pages(map.take(i + 1)) == reserved_pages(map.take(i))
            + if map[i].region_type.spec_is_reusable() {
                0
            } else {
                map[i].page_count as int
            },
{
    assert(map.take(i + 1).drop_last() =~= map.take(i));
    assert(map.take(i + 1).last() == map[i]);
}

/// Page totals are sums of non-negative counts, so a prefix never exceeds the
/// whole map's total.
pub proof fn lemma_total_pages_bounds(map: Seq<MemoryDescriptor>, i: int, j: int)
    requires
        0 <= i <= j <= map.len(),
    ensures
        0 <= total_pages(map.take(i)) <= total_pages(map.take(j)),
    decreases j - i,
{
    if i == j {
        lemma_total_pages_nonneg(map.take(i));
    } else {
        lemma_total_pages_take_step(map, j - 1);
        lemma_total_pages_bounds(map, i, j - 1);
    }
}

/// A page total is never negative.
pub proof fn lemma_total_pages_nonneg(map: Seq<MemoryDescriptor>)
    ensures
        total_pages(map) >= 0,
    decreases map.len(),
{
    if map.len() > 0 {
        lemma_total_pages_nonneg(map.drop_last());
    }
}

/// The whole map is its own length-`len` prefix.
pub proof fn lemma_total_pages_take_all(map: Seq<MemoryDescriptor>)
    ensures
        total_pages(map.take(map.len() as int)) == total_pages(map),
        reserved_pages(map.take(map.len() as int)) == reserved_pages(map),
{
    assert(map.take(map.len() as int) =~= map);
}

/// In a contiguous, ascending map each region starts exactly `total_pages`
/// of its predecessors past the first region's start, and the last region
/// ends exactly at the start plus the whole map's page total.
#[verifier::rlimit(50)]
pub proof fn lemma_contiguous_extent(map: Seq<MemoryDescriptor>, page_size: u16, i: int)
    requires
        map.len() > 0,
        page_size > 0,
        forall|n: int|
            0 <= n < map.len() - 1 ==> (#[trigger] map[n]).spec_end(page_size) == map[n + 1].phys_start,
        0 <= i < map.len(),
    ensures
        map[i].phys_start == map[0].phys_start + total_pages(map.take(i)) * page_size,
        map[i].spec_end(page_size) == map[0].phys_start + total_pages(map.take(i + 1)) * page_size,
    decreases i,
{
    lemma_total_pages_take_step(map, i);
    let t = total_pages(map.take(i));
    let c = map[i].page_count as int;
    assert((t + c) * page_size == t * page_size + c * page_size) by (nonlinear_arith);
    if i == 0 {
        assert(map.take(0).len() == 0);
        assert(total_pages(map.take(0)) == 0);
    } else {
        lemma_contiguous_extent(map, page_size, i - 1);
        assert(map[i - 1].spec_end(page_size) == map[i].phys_start);
    }
}

} // verus!
