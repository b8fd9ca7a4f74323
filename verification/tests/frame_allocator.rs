use bootcore::bitmap::FrameTable;
use bootcore::error::Error;
use bootcore::frame::FrameAllocator;
use bootcore::memory_map::MemoryDescriptor;
use bootcore::memory_map::MemoryRegionType;

fn descriptor(phys_start: u64, page_count: u64, region_type: MemoryRegionType) -> MemoryDescriptor {
    MemoryDescriptor { phys_start, virt_start: phys_start, page_count, region_type }
}

#[test]
fn bitmap_toggle_and_query() {
    let mut table = FrameTable { frame_table: vec![0u8; 2] };
    assert!(!table.page_allocated(3));
    table.toggle_frame_alloc_status(3);
    assert!(table.page_allocated(3));
    assert_eq!(table.frame_table[0], 0b0000_1000);
    assert_eq!(table.frame_table[1], 0);
    table.toggle_frame_alloc_status(3);
    assert!(!table.page_allocated(3));
    assert_eq!(table.frame_table[0], 0);
    table.toggle_frame_alloc_status(9);
    assert!(table.page_allocated(9));
    assert_eq!(table.frame_table[1], 0b0000_0010);
}

#[test]
fn construction_sizes_the_bitmap() {
    let map = vec![descriptor(0x0, 9, MemoryRegionType::Conventional)];
    let allocator = FrameAllocator::new(&map, 4096);
    assert_eq!(allocator.start_address, 0x0);
    assert_eq!(allocator.stop_address, 0x9000);
    assert_eq!(allocator.page_size, 4096);
    // 9 frames need two bitmap bytes, all marked free.
    assert_eq!(allocator.frame_table.frame_table.len(), 2);
    assert_eq!(allocator.frame_table.frame_table, vec![0u8, 0u8]);
    assert_eq!(allocator.allocated_frames(), 0);
}

#[test]
fn end_to_end_scenario() {
    // One conventional region of nine pages at address zero.
    let map = vec![descriptor(0x0, 9, MemoryRegionType::Conventional)];
    let mut allocator = FrameAllocator::new(&map, 4096);
    assert_eq!(allocator.available_frames(), 9);
    let first = allocator.allocate(4096).unwrap();
    assert_eq!(first, allocator.start_address);
    let second = allocator.allocate(8192).unwrap();
    assert_eq!(second, allocator.start_address + 0x1000);
    assert_eq!(allocator.allocated_frames(), 3);
    assert_eq!(allocator.remaining_frames(), 6);
}

#[test]
fn reservation_coverage() {
    // Ten conventional pages followed by five runtime-services pages: after
    // reserving the non-reusable regions, exactly those five are allocated.
    let map = vec![
        descriptor(0x0, 10, MemoryRegionType::Conventional),
        descriptor(0xA000, 5, MemoryRegionType::RuntimeServicesData),
    ];
    let mut allocator = FrameAllocator::new(&map, 4096);
    allocator.reserve_firmware_regions(&map);
    assert_eq!(allocator.allocated_frames(), 5);
    // The reserved frames are the runtime-services ones, frames 10 to 14.
    for frame in 0..10 {
        assert!(!allocator.frame_table.page_allocated(frame));
    }
    for frame in 10..15 {
        assert!(allocator.frame_table.page_allocated(frame));
    }
}

#[test]
fn reserve_single_section() {
    let map = vec![
        descriptor(0x0, 4, MemoryRegionType::Conventional),
        descriptor(0x4000, 2, MemoryRegionType::AcpiTables),
    ];
    let mut allocator = FrameAllocator::new(&map, 4096);
    allocator.reserve_memory_section(&map[1]);
    assert_eq!(allocator.allocated_frames(), 2);
    assert!(allocator.frame_table.page_allocated(4));
    assert!(allocator.frame_table.page_allocated(5));
}

#[test]
fn alloc_dealloc_round_trip() {
    let map = vec![
        descriptor(0x0, 10, MemoryRegionType::Conventional),
        descriptor(0xA000, 5, MemoryRegionType::RuntimeServicesData),
    ];
    let mut allocator = FrameAllocator::new(&map, 4096);
    allocator.reserve_firmware_regions(&map);
    let initial = allocator.frame_table.frame_table.clone();
    let a = allocator.allocate(3 * 4096).unwrap();
    let b = allocator.allocate(4096).unwrap();
    assert_ne!(initial, allocator.frame_table.frame_table);
    allocator.dealloc(a, 3 * 4096).unwrap();
    allocator.dealloc(b, 4096).unwrap();
    // Every balanced pair undone: the bitmap equals the reserved set again.
    assert_eq!(initial, allocator.frame_table.frame_table);
    assert_eq!(allocator.allocated_frames(), 5);
}

#[test]
fn out_of_order_frees_restore_reserved_set() {
    let map = vec![
        descriptor(0x0, 20, MemoryRegionType::Conventional),
        descriptor(0x14000, 4, MemoryRegionType::MemoryMappedIo),
    ];
    let mut allocator = FrameAllocator::new(&map, 4096);
    allocator.reserve_firmware_regions(&map);
    let initial = allocator.frame_table.frame_table.clone();
    let a = allocator.allocate(4096).unwrap();
    let b = allocator.allocate(5 * 4096).unwrap();
    let c = allocator.allocate(2 * 4096).unwrap();
    // Free in a different order than the allocations were made.
    allocator.dealloc(b, 5 * 4096).unwrap();
    allocator.dealloc(a, 4096).unwrap();
    allocator.dealloc(c, 2 * 4096).unwrap();
    assert_eq!(initial, allocator.frame_table.frame_table);
    assert_eq!(allocator.allocated_frames(), 4);
}

#[test]
fn first_fit_is_deterministic() {
    let map = vec![descriptor(0x0, 16, MemoryRegionType::Conventional)];
    let mut one = FrameAllocator::new(&map, 4096);
    let mut two = FrameAllocator::new(&map, 4096);
    let a1 = one.allocate(8192).unwrap();
    let a2 = two.allocate(8192).unwrap();
    assert_eq!(a1, a2);
    // Freeing and repeating the same request returns the same address.
    one.dealloc(a1, 8192).unwrap();
    let a3 = one.allocate(8192).unwrap();
    assert_eq!(a1, a3);
}

#[test]
fn first_fit_takes_lowest_run() {
    let map = vec![descriptor(0x0, 16, MemoryRegionType::Conventional)];
    let mut allocator = FrameAllocator::new(&map, 4096);
    let a = allocator.allocate(4096).unwrap();
    let b = allocator.allocate(2 * 4096).unwrap();
    let c = allocator.allocate(4096).unwrap();
    assert_eq!(a, 0x0);
    assert_eq!(b, 0x1000);
    assert_eq!(c, 0x3000);
    // Free the middle run: the next two-page request reuses the hole.
    allocator.dealloc(b, 2 * 4096).unwrap();
    let again = allocator.allocate(2 * 4096).unwrap();
    assert_eq!(again, 0x1000);
}

#[test]
fn first_fit_crosses_byte_boundary() {
    // Frames 0 to 5 allocated: the first four-page run is frames 6 to 9,
    // spanning the boundary between the first and second bitmap byte.
    let allocator = FrameAllocator {
        start_address: 0,
        stop_address: 16 * 4096,
        page_size: 4096,
        frame_table: FrameTable { frame_table: vec![0b0011_1111, 0] },
    };
    assert_eq!(allocator.find_first_frame_index(4), Some(6));
    assert_eq!(allocator.find_first_frame_index(1), Some(6));
    assert_eq!(allocator.find_first_frame_index(10), Some(6));
    assert_eq!(allocator.find_first_frame_index(11), None);
}

#[test]
fn allocation_addresses_are_page_aligned() {
    let map = vec![descriptor(0x8000, 8, MemoryRegionType::Conventional)];
    let mut allocator = FrameAllocator::new(&map, 4096);
    for _ in 0..3 {
        let address = allocator.allocate(5000).unwrap();
        assert_eq!(address % 4096, 0);
    }
}

#[test]
fn exhaustion_reports_out_of_frames() {
    let map = vec![descriptor(0x0, 2, MemoryRegionType::Conventional)];
    let mut allocator = FrameAllocator::new(&map, 4096);
    assert_eq!(allocator.allocate(3 * 4096), Err(Error::OutOfFrames));
    // The failed request left the bitmap untouched.
    assert_eq!(allocator.allocated_frames(), 0);
    let a = allocator.allocate(2 * 4096).unwrap();
    assert_eq!(a, 0x0);
    assert_eq!(allocator.allocate(1), Err(Error::OutOfFrames));
}

#[test]
fn dealloc_rejects_unaligned_address() {
    let map = vec![descriptor(0x0, 4, MemoryRegionType::Conventional)];
    let mut allocator = FrameAllocator::new(&map, 4096);
    let a = allocator.allocate(4096).unwrap();
    assert_eq!(allocator.dealloc(a + 1, 4096), Err(Error::UnalignedAddress));
    // The aligned address still frees cleanly afterward.
    assert_eq!(allocator.dealloc(a, 4096), Ok(()));
}

#[test]
fn dealloc_rejects_out_of_range_address() {
    let map = vec![descriptor(0x4000, 4, MemoryRegionType::Conventional)];
    let mut allocator = FrameAllocator::new(&map, 4096);
    assert_eq!(allocator.dealloc(0x1000, 4096), Err(Error::AddressOutOfRange));
    assert_eq!(allocator.dealloc(0x4000 + 32 * 4096, 4096), Err(Error::AddressOutOfRange));
}

#[test]
fn dealloc_rejects_free_frames() {
    let map = vec![descriptor(0x0, 4, MemoryRegionType::Conventional)];
    let mut allocator = FrameAllocator::new(&map, 4096);
    assert_eq!(allocator.dealloc(0x1000, 4096), Err(Error::FrameNotAllocated));
    let a = allocator.allocate(4096).unwrap();
    allocator.dealloc(a, 4096).unwrap();
    // Freeing the same allocation twice is caught.
    assert_eq!(allocator.dealloc(a, 4096), Err(Error::FrameNotAllocated));
}

#[test]
fn alloc_at_claims_exact_addresses() {
    let map = vec![descriptor(0x0, 16, MemoryRegionType::Conventional)];
    let mut allocator = FrameAllocator::new(&map, 4096);
    assert_eq!(allocator.alloc_at(0x3000, 2), Ok(()));
    assert!(allocator.frame_table.page_allocated(3));
    assert!(allocator.frame_table.page_allocated(4));
    assert_eq!(allocator.allocated_frames(), 2);
    // The same region cannot be claimed twice.
    assert_eq!(allocator.alloc_at(0x4000, 1), Err(Error::FrameAlreadyAllocated));
    assert_eq!(allocator.alloc_at(0x3001, 1), Err(Error::UnalignedAddress));
    assert_eq!(allocator.alloc_at(0x11000, 1), Err(Error::AddressOutOfRange));
    // A four-page request cannot use frames 0 to 2, so first fit lands just
    // past the claimed region.
    let a = allocator.allocate(4 * 4096).unwrap();
    assert_eq!(a, 0x5000);
}

#[test]
fn request_sizes_round_up_to_whole_frames() {
    let map = vec![descriptor(0x0, 16, MemoryRegionType::Conventional)];
    let mut allocator = FrameAllocator::new(&map, 4096);
    // A zero-byte request still takes one frame.
    let a = allocator.allocate(0).unwrap();
    assert_eq!(a, 0x0);
    assert_eq!(allocator.allocated_frames(), 1);
    // An exact multiple takes exactly that many frames.
    let b = allocator.allocate(2 * 4096).unwrap();
    assert_eq!(b, 0x1000);
    assert_eq!(allocator.allocated_frames(), 3);
    // One byte past a multiple takes one frame more.
    let c = allocator.allocate(2 * 4096 + 1).unwrap();
    assert_eq!(c, 0x3000);
    assert_eq!(allocator.allocated_frames(), 6);
}

#[test]
fn remaining_frames_saturates_at_zero() {
    // A hand-built allocator whose bitmap has more set bits than the
    // managed range holds frames: the difference saturates instead of
    // wrapping.
    let allocator = FrameAllocator {
        start_address: 0,
        stop_address: 2 * 4096,
        page_size: 4096,
        frame_table: FrameTable { frame_table: vec![0xFF] },
    };
    assert_eq!(allocator.available_frames(), 2);
    assert_eq!(allocator.allocated_frames(), 8);
    assert_eq!(allocator.remaining_frames(), 0);
}

#[test]
fn accounting_with_page_size_other_than_default() {
    let map = vec![descriptor(0x0, 6, MemoryRegionType::Conventional)];
    let mut allocator = FrameAllocator::new(&map, 8192);
    assert_eq!(allocator.stop_address, 6 * 8192);
    assert_eq!(allocator.available_frames(), 6);
    let a = allocator.allocate(1).unwrap();
    assert_eq!(a, 0x0);
    assert_eq!(allocator.allocated_frames(), 1);
    let b = allocator.allocate(8193).unwrap();
    assert_eq!(b, 8192);
    assert_eq!(allocator.allocated_frames(), 3);
}
