use bootcore::elf::parse_file;
use bootcore::elf::parse_program_headers;
use bootcore::elf::ProgramHeader;
use bootcore::elf_loader::materialize_segment;
use bootcore::elf_loader::parse_elf_file;
use bootcore::error::Error;
use bootcore::frame::FrameAllocator;
use bootcore::memory_map::MemoryDescriptor;
use bootcore::memory_map::MemoryRegionType;

fn put_u16(image: &mut [u8], offset: usize, value: u16) {
    image[offset..offset + 2].copy_from_slice(&value.to_le_bytes());
}

fn put_u32(image: &mut [u8], offset: usize, value: u32) {
    image[offset..offset + 4].copy_from_slice(&value.to_le_bytes());
}

fn put_u64(image: &mut [u8], offset: usize, value: u64) {
    image[offset..offset + 8].copy_from_slice(&value.to_le_bytes());
}

/// A minimal 64-bit little-endian ELF image with one program header whose
/// file-backed bytes follow the program-header table.
fn synthetic_elf(entry: u64, vaddr: u64, memsz: u64, filesz: u64) -> Vec<u8> {
    let data_offset: u64 = 64 + 56;
    let mut image = vec![0u8; (data_offset + filesz) as usize];
    image[0] = 0x7f;
    image[1] = b'E';
    image[2] = b'L';
    image[3] = b'F';
    image[4] = 2; // 64-bit
    image[5] = 1; // little-endian
    put_u64(&mut image, 24, entry);
    put_u64(&mut image, 32, 64); // program-header table right after the header
    put_u16(&mut image, 54, 56); // entry size
    put_u16(&mut image, 56, 1); // one entry
    put_u32(&mut image, 64, 1); // PT_LOAD
    put_u64(&mut image, 64 + 8, data_offset);
    put_u64(&mut image, 64 + 16, vaddr);
    put_u64(&mut image, 64 + 24, vaddr);
    put_u64(&mut image, 64 + 32, filesz);
    put_u64(&mut image, 64 + 40, memsz);
    put_u64(&mut image, 64 + 48, 4096);
    for i in 0..filesz as usize {
        image[data_offset as usize + i] = (i % 251) as u8;
    }
    image
}

fn loader_map() -> Vec<MemoryDescriptor> {
    vec![MemoryDescriptor {
        phys_start: 0x0,
        virt_start: 0x0,
        page_count: 16,
        region_type: MemoryRegionType::Conventional,
    }]
}

#[test]
fn header_validation() {
    let image = synthetic_elf(0x1000, 0x1000, 0x100, 0x100);
    assert_eq!(parse_file(&image), Ok(()));
    assert_eq!(parse_file(&image[..32]), Err(Error::TruncatedHeader));
    let mut bad_magic = image.clone();
    bad_magic[1] = b'X';
    assert_eq!(parse_file(&bad_magic), Err(Error::BadMagic));
    let mut bad_class = image.clone();
    bad_class[4] = 1;
    assert_eq!(parse_file(&bad_class), Err(Error::UnsupportedClass));
    let mut bad_endian = image.clone();
    bad_endian[5] = 2;
    assert_eq!(parse_file(&bad_endian), Err(Error::UnsupportedEndianness));
}

#[test]
fn program_header_parsing() {
    let image = synthetic_elf(0xAB, 0x1000, 0x2500, 0x200);
    let headers = parse_program_headers(&image).unwrap();
    assert_eq!(headers.len(), 1);
    let ph = &headers[0];
    assert_eq!(ph.p_type, 1);
    assert_eq!(ph.p_offset, 120);
    assert_eq!(ph.p_vaddr, 0x1000);
    assert_eq!(ph.p_paddr, 0x1000);
    assert_eq!(ph.p_filesz, 0x200);
    assert_eq!(ph.p_memsz, 0x2500);
    assert_eq!(ph.p_align, 4096);
}

#[test]
fn program_header_table_out_of_bounds() {
    let mut image = synthetic_elf(0, 0x1000, 0x100, 0x100);
    // Claim more entries than the buffer holds.
    put_u16(&mut image, 56, 40);
    assert_eq!(parse_program_headers(&image), Err(Error::BadProgramHeaderTable));
    // An unsupported entry size is rejected as well.
    let mut bad_entsize = synthetic_elf(0, 0x1000, 0x100, 0x100);
    put_u16(&mut bad_entsize, 54, 32);
    assert_eq!(parse_program_headers(&bad_entsize), Err(Error::BadProgramHeaderTable));
}

#[test]
fn segment_extent_scenario() {
    // One PT_LOAD segment at vaddr 0x1000 with memsz 0x2500 and filesz
    // 0x2000: the loader must claim pages covering [0x1000, 0x3500), copy
    // exactly 0x2000 bytes, and zero the remaining 0x500.
    let image = synthetic_elf(0x1000, 0x1000, 0x2500, 0x2000);
    let map = loader_map();
    let mut allocator = FrameAllocator::new(&map, 4096);
    let loaded = parse_elf_file(&image, &mut allocator).unwrap();
    assert_eq!(loaded.entry, 0x1000);
    assert_eq!(loaded.segments.len(), 1);
    let segment = &loaded.segments[0];
    assert_eq!(segment.address, 0x1000);
    // Three pages cover [0x1000, 0x4000) ⊇ [0x1000, 0x3500).
    assert_eq!(segment.bytes.len(), 3 * 4096);
    for i in 0..0x2000usize {
        assert_eq!(segment.bytes[i], (i % 251) as u8);
    }
    for i in 0x2000..3 * 4096 {
        assert_eq!(segment.bytes[i], 0);
    }
    // Exactly frames 1 to 3 were claimed from the allocator.
    assert_eq!(allocator.allocated_frames(), 3);
    assert!(!allocator.frame_table.page_allocated(0));
    for frame in 1..4 {
        assert!(allocator.frame_table.page_allocated(frame));
    }
    assert!(!allocator.frame_table.page_allocated(4));
}

#[test]
fn materialize_unaligned_load_address() {
    let data: Vec<u8> = (0u32..0x80).map(|b| (b % 256) as u8).collect();
    let mut file = vec![0u8; 0x40];
    file.extend_from_slice(&data);
    let ph = ProgramHeader {
        p_type: 1,
        p_flags: 0,
        p_offset: 0x40,
        p_vaddr: 0x2130,
        p_paddr: 0x2130,
        p_filesz: 0x80,
        p_memsz: 0x100,
        p_align: 4096,
    };
    let bytes = materialize_segment(&file, &ph).unwrap();
    // One page covers [0x2000, 0x3000); the data sits at offset 0x130.
    assert_eq!(bytes.len(), 4096);
    for i in 0..0x130 {
        assert_eq!(bytes[i], 0);
    }
    for i in 0..0x80 {
        assert_eq!(bytes[0x130 + i], data[i]);
    }
    for i in 0x1b0..4096 {
        assert_eq!(bytes[i], 0);
    }
}

#[test]
fn materialize_rejects_bad_segments() {
    let file = vec![0u8; 0x100];
    let mut ph = ProgramHeader {
        p_type: 1,
        p_flags: 0,
        p_offset: 0x40,
        p_vaddr: 0x1000,
        p_paddr: 0x1000,
        p_filesz: 0x200,
        p_memsz: 0x100,
        p_align: 4096,
    };
    // More file-backed bytes than the in-memory size.
    assert_eq!(materialize_segment(&file, &ph), Err(Error::SegmentSizeMismatch));
    // File-backed bytes past the end of the buffer.
    ph.p_memsz = 0x400;
    assert_eq!(materialize_segment(&file, &ph), Err(Error::SegmentOutOfBounds));
}

#[test]
fn loader_rejects_occupied_region() {
    let image = synthetic_elf(0x1000, 0x1000, 0x1000, 0x10);
    let map = loader_map();
    let mut allocator = FrameAllocator::new(&map, 4096);
    allocator.alloc_at(0x1000, 1).unwrap();
    assert_eq!(parse_elf_file(&image, &mut allocator).err(), Some(Error::FrameAlreadyAllocated));
}

#[test]
fn loader_rejects_region_outside_map() {
    let image = synthetic_elf(0x1000, 0x40000, 0x1000, 0x10);
    let map = loader_map();
    let mut allocator = FrameAllocator::new(&map, 4096);
    assert_eq!(parse_elf_file(&image, &mut allocator).err(), Some(Error::AddressOutOfRange));
}

#[test]
fn loader_skips_non_loadable_segments() {
    let mut image = synthetic_elf(0x1000, 0x1000, 0x1000, 0x10);
    // Turn the only segment into a non-loadable note segment.
    put_u32(&mut image, 64, 4);
    let map = loader_map();
    let mut allocator = FrameAllocator::new(&map, 4096);
    let loaded = parse_elf_file(&image, &mut allocator).unwrap();
    assert_eq!(loaded.segments.len(), 0);
    assert_eq!(allocator.allocated_frames(), 0);
}

#[test]
fn loader_handles_multiple_segments() {
    // Two loadable segments: one page at 0x2000 and two pages at 0x5000.
    let data_offset: usize = 64 + 2 * 56;
    let mut image = vec![0u8; data_offset + 0x30];
    image[0] = 0x7f;
    image[1] = b'E';
    image[2] = b'L';
    image[3] = b'F';
    image[4] = 2;
    image[5] = 1;
    put_u64(&mut image, 24, 0x2000);
    put_u64(&mut image, 32, 64);
    put_u16(&mut image, 54, 56);
    put_u16(&mut image, 56, 2);
    put_u32(&mut image, 64, 1);
    put_u64(&mut image, 64 + 8, data_offset as u64);
    put_u64(&mut image, 64 + 16, 0x2000);
    put_u64(&mut image, 64 + 32, 0x10);
    put_u64(&mut image, 64 + 40, 0x10);
    put_u32(&mut image, 120, 1);
    put_u64(&mut image, 120 + 8, data_offset as u64 + 0x10);
    put_u64(&mut image, 120 + 16, 0x5000);
    put_u64(&mut image, 120 + 32, 0x20);
    put_u64(&mut image, 120 + 40, 0x1800);
    for i in 0..0x30 {
        image[data_offset + i] = 0x40 + i as u8;
    }

    let map = loader_map();
    let mut allocator = FrameAllocator::new(&map, 4096);
    let loaded = parse_elf_file(&image, &mut allocator).unwrap();
    assert_eq!(loaded.entry, 0x2000);
    assert_eq!(loaded.segments.len(), 2);
    assert_eq!(loaded.segments[0].address, 0x2000);
    assert_eq!(loaded.segments[0].bytes.len(), 4096);
    for i in 0..0x10 {
        assert_eq!(loaded.segments[0].bytes[i], 0x40 + i as u8);
    }
    assert_eq!(loaded.segments[1].address, 0x5000);
    assert_eq!(loaded.segments[1].bytes.len(), 2 * 4096);
    for i in 0..0x20 {
        assert_eq!(loaded.segments[1].bytes[i], 0x50 + i as u8);
    }
    for i in 0x20..2 * 4096 {
        assert_eq!(loaded.segments[1].bytes[i], 0);
    }
    // Frames 2, 5 and 6 were claimed, nothing else.
    assert_eq!(allocator.allocated_frames(), 3);
    assert!(allocator.frame_table.page_allocated(2));
    assert!(allocator.frame_table.page_allocated(5));
    assert!(allocator.frame_table.page_allocated(6));
}

#[test]
fn loader_propagates_header_errors() {
    let map = loader_map();
    let mut allocator = FrameAllocator::new(&map, 4096);
    assert_eq!(parse_elf_file(&[0u8; 8], &mut allocator).err(), Some(Error::TruncatedHeader));
}
