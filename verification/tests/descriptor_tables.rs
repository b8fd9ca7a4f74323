use bootcore::error::Error;
use bootcore::gdt::GDTDescriptor;
use bootcore::gdt::GlobalDescriptorTable;
use bootcore::gdt::ACCESS_EXECUTABLE;
use bootcore::gdt::ACCESS_PRESENT;
use bootcore::gdt::ACCESS_READABLE;
use bootcore::gdt::ACCESS_USER_SEGMENT;
use bootcore::gdt::FLAG_GRANULARITY;
use bootcore::gdt::FLAG_LONG_MODE;
use bootcore::idt::Exception;
use bootcore::idt::GateType;
use bootcore::idt::IDTDescriptor;
use bootcore::idt::InterruptDescriptorTable;
use bootcore::x86::DescriptorTable;
use bootcore::x86::PrivilegeLevel;
use bootcore::x86::SegmentSelector;

#[test]
fn gdt_descriptor_encoding() {
    let code = GDTDescriptor::code_segment(PrivilegeLevel::KernelSpace);
    assert_eq!(code.access_flags(), 0x9a);
    assert_eq!(code.flags(), 0x0a);
    assert_eq!(code.privilege_level(), PrivilegeLevel::KernelSpace);
    assert_eq!(code.encode(), 0x00A0_9A00_0000_0000);

    let data = GDTDescriptor::data_segment(PrivilegeLevel::KernelSpace);
    assert_eq!(data.access_flags(), 0x92);
    assert_eq!(data.flags(), 0x0a);
    assert_eq!(data.encode(), 0x00A0_9200_0000_0000);
}

#[test]
fn gdt_descriptor_privilege_round_trip() {
    let user_code = GDTDescriptor::code_segment(PrivilegeLevel::UserSpace);
    assert_eq!(user_code.access_flags(), 0x9a | 0x60);
    assert_eq!(user_code.privilege_level(), PrivilegeLevel::UserSpace);
    let ring1 = GDTDescriptor::new(
        PrivilegeLevel::Ring1,
        ACCESS_PRESENT | ACCESS_USER_SEGMENT | ACCESS_EXECUTABLE | ACCESS_READABLE,
        FLAG_GRANULARITY | FLAG_LONG_MODE,
    );
    assert_eq!(ring1.privilege_level(), PrivilegeLevel::Ring1);
}

#[test]
fn gdt_pointer_reflects_highest_index() {
    let mut gdt = GlobalDescriptorTable::default();
    gdt.insert(1, GDTDescriptor::code_segment(PrivilegeLevel::KernelSpace)).unwrap();
    gdt.insert(2, GDTDescriptor::data_segment(PrivilegeLevel::KernelSpace)).unwrap();
    let pointer = gdt.as_ptr(0x7000);
    assert_eq!(pointer.base, 0x7000);
    // Size reflects the highest used index, not the 8192-slot capacity.
    assert_eq!(pointer.size, 2 * 8 - 1);
    assert_eq!(gdt.count(), 2);
    // Inserting at a lower index keeps the highest index.
    gdt.insert(1, GDTDescriptor::code_segment(PrivilegeLevel::UserSpace)).unwrap();
    assert_eq!(gdt.as_ptr(0x7000).size, 15);
}

#[test]
fn gdt_insert_rejects_bad_indices() {
    let mut gdt = GlobalDescriptorTable::default();
    let descriptor = GDTDescriptor::data_segment(PrivilegeLevel::KernelSpace);
    assert_eq!(gdt.insert(0, descriptor), Err(Error::NullIndex));
    assert_eq!(gdt.insert(8192, descriptor), Err(Error::IndexOutOfCapacity));
    assert_eq!(gdt.insert(8191, descriptor), Ok(()));
    assert_eq!(gdt.descriptor_at(8191).access_flags(), descriptor.access_flags());
    // Slot 0 still holds the null descriptor.
    assert_eq!(gdt.descriptor_at(0).access_flags(), 0);
    assert_eq!(gdt.descriptor_at(0).flags(), 0);
}

#[test]
fn idt_descriptor_splits_handler_address() {
    let selector = SegmentSelector::new(1, DescriptorTable::GDT, PrivilegeLevel::KernelSpace);
    let descriptor = IDTDescriptor::new(
        0x1234_5678_9ABC_DEF0,
        selector,
        GateType::Interrupt,
        PrivilegeLevel::KernelSpace,
    );
    assert_eq!(descriptor.lower_isr_address, 0xDEF0);
    assert_eq!(descriptor.middle_isr_address, 0x9ABC);
    assert_eq!(descriptor.higher_isr_address, 0x1234_5678);
    assert_eq!(descriptor.isr_address(), 0x1234_5678_9ABC_DEF0);
    assert_eq!(descriptor.ist, 0);
    assert_eq!(descriptor.reserved, 0);
    // Present bit, ring 0, interrupt gate.
    assert_eq!(descriptor.flags, 0x8E);
    let trap = IDTDescriptor::new(0, selector, GateType::Trap, PrivilegeLevel::UserSpace);
    assert_eq!(trap.flags, 0x80 | 0x60 | 0x0F);
}

#[test]
fn idt_address_round_trip_at_extremes() {
    let selector = SegmentSelector::new(1, DescriptorTable::GDT, PrivilegeLevel::KernelSpace);
    for address in [0u64, 1, 0xFFFF, 0x10000, u64::MAX - 1, u64::MAX] {
        let descriptor =
            IDTDescriptor::new(address, selector, GateType::Trap, PrivilegeLevel::KernelSpace);
        assert_eq!(descriptor.isr_address(), address);
    }
}

#[test]
fn idt_default_vectors_reach_default_handler() {
    let default_handler = 0xFFFF_8000_0010_0000u64;
    let mut idt = InterruptDescriptorTable::new(default_handler);
    let selector = SegmentSelector::new(1, DescriptorTable::GDT, PrivilegeLevel::KernelSpace);
    let page_fault_handler = 0xFFFF_8000_0020_0000u64;
    idt.insert(
        Exception::PageFault.vector() as usize,
        IDTDescriptor::new(page_fault_handler, selector, GateType::Trap, PrivilegeLevel::KernelSpace),
    )
    .unwrap();
    idt.insert(
        32,
        IDTDescriptor::new(0x1111, selector, GateType::Interrupt, PrivilegeLevel::KernelSpace),
    )
    .unwrap();
    // The two bound vectors route to their handlers; every other vector
    // still reaches the default handler.
    for vector in 0..256usize {
        let expected = if vector == 0x0E {
            page_fault_handler
        } else if vector == 32 {
            0x1111
        } else {
            default_handler
        };
        assert_eq!(idt.handler_address(vector), expected);
    }
}

#[test]
fn idt_insert_rejects_capacity_overflow() {
    let mut idt = InterruptDescriptorTable::new(0);
    let selector = SegmentSelector::new(1, DescriptorTable::GDT, PrivilegeLevel::KernelSpace);
    let descriptor = IDTDescriptor::new(0x42, selector, GateType::Trap, PrivilegeLevel::KernelSpace);
    assert_eq!(idt.insert(256, descriptor), Err(Error::IndexOutOfCapacity));
    assert_eq!(idt.insert(0, descriptor), Ok(()));
    assert_eq!(idt.handler_address(0), 0x42);
}

#[test]
fn idt_pointer_covers_whole_table() {
    let idt = InterruptDescriptorTable::new(0);
    let pointer = idt.as_ptr(0x5000);
    assert_eq!(pointer.base, 0x5000);
    assert_eq!(pointer.size, 256 * 16 - 1);
}

#[test]
fn exception_vectors() {
    assert_eq!(Exception::Division.vector(), 0x00);
    assert_eq!(Exception::Breakpoint.vector(), 0x03);
    assert_eq!(Exception::DoubleFault.vector(), 0x08);
    assert_eq!(Exception::GeneralProtectionFault.vector(), 0x0D);
    assert_eq!(Exception::PageFault.vector(), 0x0E);
    assert_eq!(Exception::Security.vector(), 0x30);
}

#[test]
fn segment_selector_fields() {
    let mut selector = SegmentSelector::new(5, DescriptorTable::LDT, PrivilegeLevel::UserSpace);
    assert_eq!(selector.0, (5 << 3) | 0b100 | 0b11);
    assert_eq!(selector.index(), 5);
    assert_eq!(selector.table(), DescriptorTable::LDT);
    assert_eq!(selector.privilege_level(), PrivilegeLevel::UserSpace);

    selector.set_index(9);
    assert_eq!(selector.index(), 9);
    assert_eq!(selector.table(), DescriptorTable::LDT);
    assert_eq!(selector.privilege_level(), PrivilegeLevel::UserSpace);

    selector.set_table(DescriptorTable::GDT);
    assert_eq!(selector.table(), DescriptorTable::GDT);
    assert_eq!(selector.index(), 9);

    selector.set_privilege_level(PrivilegeLevel::Ring2);
    assert_eq!(selector.privilege_level(), PrivilegeLevel::Ring2);
    assert_eq!(selector.index(), 9);
    assert_eq!(selector.table(), DescriptorTable::GDT);
}

#[test]
fn segment_selector_default_is_null() {
    let selector = SegmentSelector::default();
    assert_eq!(selector.0, 0);
    assert_eq!(selector.index(), 0);
    assert_eq!(selector.table(), DescriptorTable::GDT);
    assert_eq!(selector.privilege_level(), PrivilegeLevel::KernelSpace);
}

#[test]
fn privilege_level_encodings() {
    assert_eq!(PrivilegeLevel::KernelSpace.ring(), 0);
    assert_eq!(PrivilegeLevel::Ring1.ring(), 1);
    assert_eq!(PrivilegeLevel::Ring2.ring(), 2);
    assert_eq!(PrivilegeLevel::UserSpace.ring(), 3);
    assert_eq!(PrivilegeLevel::UserSpace.dpl_bits(), 0x60);
    assert_eq!(PrivilegeLevel::from_ring(3), PrivilegeLevel::UserSpace);
}
