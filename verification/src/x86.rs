//! x86 segmentation primitives shared by the descriptor-table builders:
//! privilege rings, the 16-bit segment selector word, and the pointer
//! structure consumed by the CPU's table-load instructions.

use vstd::prelude::*;

verus! {

/// CPU privilege ring.  Only ring 0 (kernel) and ring 3 (user) are used by
/// production systems; rings 1 and 2 exist for completeness.
#[derive(Clone, Copy, PartialEq, Eq, Structural, Debug)]
pub enum PrivilegeLevel {
    /// Ring 0: full hardware access, used by the bootloader and kernel.
    KernelSpace,
    /// Ring 1: rarely used intermediate ring.
    Ring1,
    /// Ring 2: rarely used intermediate ring.
    Ring2,
    /// Ring 3: userland, most protected.
    UserSpace,
}

impl PrivilegeLevel {
    /// Ring number (0 through 3) as stored in a selector's low two bits.
    pub open spec fn spec_ring(self) -> u16 {
        match self {
            PrivilegeLevel::KernelSpace => 0,
            PrivilegeLevel::Ring1 => 1,
            PrivilegeLevel::Ring2 => 2,
            PrivilegeLevel::UserSpace => 3,
        }
    }

    /// Ring number (0 through 3) of this privilege level.
    #[verifier::when_used_as_spec(spec_ring)]
    pub fn ring(self) -> (r: u16)
        ensures
            r == self.spec_ring(),
    {
        match self {
            PrivilegeLevel::KernelSpace => 0,
            PrivilegeLevel::Ring1 => 1,
            PrivilegeLevel::Ring2 => 2,
            PrivilegeLevel::UserSpace => 3,
        }
    }

    /// The ring shifted into bits 5 and 6, the position the descriptor
    /// access and flag bytes store the privilege level in.
    pub open spec fn spec_dpl_bits(self) -> u8 {
        (self.spec_ring() * 32) as u8
    }

    /// The ring shifted into bits 5 and 6 of a descriptor byte.
    #[verifier::when_used_as_spec(spec_dpl_bits)]
    pub fn dpl_bits(self) -> (r: u8)
        ensures
            r == self.spec_dpl_bits(),
    {
        match self {
            PrivilegeLevel::KernelSpace => 0x00,
            PrivilegeLevel::Ring1 => 0x20,
            PrivilegeLevel::Ring2 => 0x40,
            PrivilegeLevel::UserSpace => 0x60,
        }
    }

    /// Decode a two-bit ring number back into a privilege level.
    pub fn from_ring(value: u16) -> (r: PrivilegeLevel)
        requires
            value < 4,
        ensures
            r.spec_ring() == value,
    {
        match value {
            0 => PrivilegeLevel::KernelSpace,
            1 => PrivilegeLevel::Ring1,
            2 => PrivilegeLevel::Ring2,
            _ => PrivilegeLevel::UserSpace,
        }
    }
}

/// Which descriptor table a segment selector refers to.
#[derive(Clone, Copy, PartialEq, Eq, Structural, Debug)]
pub enum DescriptorTable {
    /// The global descriptor table.
    GDT,
    /// The local descriptor table.
    LDT,
}

impl DescriptorTable {
    /// The table-indicator bit of a selector: clear for the GDT, set for the
    /// LDT.
    pub open spec fn spec_table_bit(self) -> bool {
        self is LDT
    }

    /// The table-indicator bit of a selector.
    #[verifier::when_used_as_spec(spec_table_bit)]
    pub fn table_bit(self) -> (r: bool)
        ensures
            r == self.spec_table_bit(),
    {
        match self {
            DescriptorTable::GDT => false,
            DescriptorTable::LDT => true,
        }
    }

    /// Decode a selector's table-indicator bit.
    pub fn from_bit(value: bool) -> (r: DescriptorTable)
        ensures
            r.spec_table_bit() == value,
    {
        if value {
            DescriptorTable::LDT
        } else {
            DescriptorTable::GDT
        }
    }
}

/// 16-bit segment selector: descriptor index in bits 3 and up, the
/// table-indicator in bit 2, and the requested privilege level in bits 0
/// and 1.
#[derive(Clone, Copy, PartialEq, Eq, Structural, Debug)]
pub struct SegmentSelector(pub u16);

impl Default for SegmentSelector {
    /// The null selector: index 0 in the GDT at ring 0.
    fn default() -> (r: Self)
        ensures
            r.0 == 0,
    {
        SegmentSelector(0)
    }
}

impl SegmentSelector {
    /// Descriptor index stored in bits 3 and up.
    pub open spec fn spec_index(self) -> u16 {
        self.0 >> 3
    }

    /// Table-indicator stored in bit 2.
    pub open spec fn spec_table_bit(self) -> bool {
        (self.0 >> 2) & 1 == 1
    }

    /// Requested privilege level stored in bits 0 and 1.
    pub open spec fn spec_rpl(self) -> u16 {
        self.0 & 3
    }

    /// Build a selector from a descriptor index, the table it refers to and
    /// the requested privilege level.
    pub fn new(index: u16, table: DescriptorTable, privilege: PrivilegeLevel) -> (r: Self)
        requires
            index < 0x2000,
        ensures
            r.spec_index() == index,
            r.spec_table_bit() == table.spec_table_bit(),
            r.spec_rpl() == privilege.spec_ring(),
            r.0 == index * 8 + (if table.spec_table_bit() {
                4int
            } else {
                0int
            }) + privilege.spec_ring(),
    {
        let table_bits: u16 = if table.table_bit() {
            4
        } else {
            0
        };
        let rpl: u16 = privilege.ring();
        let value: u16 = (index << 3u16) | table_bits | rpl;
        proof {
            assert((((index << 3u16) | table_bits | rpl) >> 3) == index
                && ((((index << 3u16) | table_bits | rpl) >> 2) & 1 == 1) == (table_bits == 4)
                && (((index << 3u16) | table_bits | rpl) & 3) == rpl
                && ((index << 3u16) | table_bits | rpl) == index * 8 + table_bits + rpl)
                by (bit_vector)
                requires
                    index < 0x2000,
                    table_bits == 4 || table_bits == 0,
                    rpl < 4,
            ;
        }
        SegmentSelector(value)
    }

    /// Replace the requested privilege level, keeping index and table bit.
    pub fn set_privilege_level(&mut self, level: PrivilegeLevel)
        ensures
            final(self).spec_index() == old(self).spec_index(),
            final(self).spec_table_bit() == old(self).spec_table_bit(),
            final(self).spec_rpl() == level.spec_ring(),
    {
        let rpl: u16 = level.ring();
        let value: u16 = (self.0 & !3u16) | rpl;
        proof {
            let prior = self.0;
            assert((((prior & !3u16) | rpl) >> 3) == (prior >> 3)
                && ((((prior & !3u16) | rpl) >> 2) & 1) == ((prior >> 2) & 1)
                && (((prior & !3u16) | rpl) & 3) == rpl) by (bit_vector)
                requires
                    rpl < 4,
            ;
        }
        self.0 = value;
    }

    /// The requested privilege level of this selector.
    pub fn privilege_level(&self) -> (r: PrivilegeLevel)
        ensures
            r.spec_ring() == self.spec_rpl(),
    {
        let bits: u16 = self.0 & 3;
        proof {
            let value = self.0;
            assert(value & 3 < 4) by (bit_vector);
        }
        PrivilegeLevel::from_ring(bits)
    }

    /// Replace the table-indicator bit, keeping index and privilege level.
    pub fn set_table(&mut self, descriptor_table: DescriptorTable)
        ensures
            final(self).spec_index() == old(self).spec_index(),
            final(self).spec_table_bit() == descriptor_table.spec_table_bit(),
            final(self).spec_rpl() == old(self).spec_rpl(),
    {
        let table_bits: u16 = if descriptor_table.table_bit() {
            4
        } else {
            0
        };
        let value: u16 = (self.0 & !4u16) | table_bits;
        proof {
            let prior = self.0;
            assert((((prior & !4u16) | table_bits) >> 3) == (prior >> 3)
                && ((((prior & !4u16) | table_bits) >> 2) & 1 == 1) == (table_bits == 4)
                && (((prior & !4u16) | table_bits) & 3) == (prior & 3)) by (bit_vector)
                requires
                    table_bits == 4 || table_bits == 0,
            ;
        }
        self.0 = value;
    }

    /// The table this selector refers to.
    pub fn table(&self) -> (r: DescriptorTable)
        ensures
            r.spec_table_bit() == self.spec_table_bit(),
    {
        DescriptorTable::from_bit((self.0 >> 2u16) & 1 == 1)
    }

    /// Replace the descriptor index, keeping table bit and privilege level.
    pub fn set_index(&mut self, index: u16)
        requires
            index < 0x2000,
        ensures
            final(self).spec_index() == index,
            final(self).spec_table_bit() == old(self).spec_table_bit(),
            final(self).spec_rpl() == old(self).spec_rpl(),
    {
        let value: u16 = (self.0 & 7u16) | (index << 3u16);
        proof {
            let prior = self.0;
            assert((((prior & 7u16) | (index << 3u16)) >> 3) == index
                && ((((prior & 7u16) | (index << 3u16)) >> 2) & 1) == ((prior >> 2) & 1)
                && (((prior & 7u16) | (index << 3u16)) & 3) == (prior & 3)) by (bit_vector)
                requires
                    index < 0x2000,
            ;
        }
        self.0 = value;
    }

    /// The descriptor index of this selector.
    pub fn index(&self) -> (r: u16)
        ensures
            r == self.spec_index(),
    {
        self.0 >> 3u16
    }
}

/// Pointer structure handed to the `lgdt` and `lidt` instructions: the linear
/// base address of a descriptor table and its size in bytes minus one.
#[derive(Clone, Copy, PartialEq, Eq, Structural, Debug)]
pub struct DescriptorTablePointer {
    /// Linear base address of the table.
    pub base: u64,
    /// Size of the table in bytes, minus one.
    pub size: u16,
}

} // verus!
