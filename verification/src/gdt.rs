//! Global Descriptor Table builder.
//!
//! A descriptor configures one memory segment: its access byte encodes the
//! privilege level, presence and readability/executability, its flag nibble
//! the granularity and long-mode bits.  In long mode the base and limit
//! fields are ignored, so the builder produces flat segments spanning the
//! whole address space.  The table itself is a fixed array of 8192 slots
//! with slot 0 reserved for the hardware-mandated null descriptor.

use vstd::prelude::*;

use crate::error::Error;
use crate::x86::DescriptorTablePointer;
use crate::x86::PrivilegeLevel;

verus! {

/// Access-byte flag: set by the CPU when it touches the descriptor.
pub const ACCESS_ACCESSED: u8 = 0x01;

/// Access-byte flag: read access for code segments.
pub const ACCESS_READABLE: u8 = 0x02;

/// Access-byte flag: write access for data segments.
pub const ACCESS_WRITABLE: u8 = 0x02;

/// Access-byte flag: executable code segment.
pub const ACCESS_EXECUTABLE: u8 = 0x08;

/// Access-byte flag: code or data segment rather than a system segment.
pub const ACCESS_USER_SEGMENT: u8 = 0x10;

/// Access-byte flag: the descriptor is valid.
pub const ACCESS_PRESENT: u8 = 0x80;

/// Flag bit: the segment limit counts 4 KiB blocks.
pub const FLAG_GRANULARITY: u8 = 0x08;

/// Flag bit: 32-bit protected-mode segment.
pub const FLAG_SIZE: u8 = 0x04;

/// Flag bit: 64-bit code segment.
pub const FLAG_LONG_MODE: u8 = 0x02;

/// Number of descriptor slots in the table.
pub const GDT_CAPACITY: usize = 8192;

/// Size in bytes of one encoded descriptor.
pub const GDT_ENTRY_SIZE: usize = 8;

/// One descriptor of the global descriptor table: the access byte and the
/// flag nibble; every other field of the 8-byte hardware layout is zero in
/// the flat long-mode model.
#[derive(Clone, Copy, PartialEq, Eq, Structural, Debug)]
pub struct GDTDescriptor {
    access: u8,
    flags: u8,
}

impl Default for GDTDescriptor {
    /// The null descriptor: every bit clear.
    fn default() -> (r: Self)
        ensures
            r.spec_access() == 0,
            r.spec_flags() == 0,
    {
        GDTDescriptor { access: 0, flags: 0 }
    }
}

impl GDTDescriptor {
    /// The access byte.
    pub closed spec fn spec_access(self) -> u8 {
        self.access
    }

    /// The flag nibble.
    pub closed spec fn spec_flags(self) -> u8 {
        self.flags
    }

    /// Privilege ring stored in bits 5 and 6 of the access byte.
    pub closed spec fn spec_dpl(self) -> u16 {
        ((self.access >> 5) & 3) as u16
    }

    /// Build a descriptor from a privilege level, access flags and
    /// descriptor flags; the privilege level is merged into bits 5 and 6 of
    /// the access byte.
    pub fn new(privilege: PrivilegeLevel, access: u8, flags: u8) -> (r: Self)
        ensures
            r.spec_access() == access | privilege.spec_dpl_bits(),
            r.spec_flags() == flags,
            access & 0x60 == 0 ==> r.spec_dpl() == privilege.spec_ring(),
    {
        let dpl: u8 = privilege.dpl_bits();
        proof {
            assert(dpl == 0x00 || dpl == 0x20 || dpl == 0x40 || dpl == 0x60);
            assert(access & 0x60 == 0 ==> ((access | dpl) >> 5) & 3 == dpl >> 5) by (bit_vector)
                requires
                    dpl == 0x00 || dpl == 0x20 || dpl == 0x40 || dpl == 0x60,
            ;
            assert(dpl >> 5 == dpl / 0x20) by (bit_vector);
        }
        GDTDescriptor { access: access | dpl, flags }
    }

    /// A flat kernel-visible code segment: present, readable, executable,
    /// page granularity, long mode.
    pub fn code_segment(level: PrivilegeLevel) -> (r: Self)
        ensures
            r.spec_access() == (ACCESS_PRESENT | ACCESS_USER_SEGMENT | ACCESS_EXECUTABLE
                | ACCESS_READABLE) | level.spec_dpl_bits(),
            r.spec_flags() == FLAG_GRANULARITY | FLAG_LONG_MODE,
            r.spec_dpl() == level.spec_ring(),
    {
        proof {
            assert((0x80u8 | 0x10u8 | 0x08u8 | 0x02u8) & 0x60 == 0) by (bit_vector);
        }
        Self::new(
            level,
            ACCESS_PRESENT | ACCESS_USER_SEGMENT | ACCESS_EXECUTABLE | ACCESS_READABLE,
            FLAG_GRANULARITY | FLAG_LONG_MODE,
        )
    }

    /// A flat data segment: present, writable, page granularity, long mode.
    pub fn data_segment(level: PrivilegeLevel) -> (r: Self)
        ensures
            r.spec_access() == (ACCESS_PRESENT | ACCESS_USER_SEGMENT | ACCESS_WRITABLE)
                | level.spec_dpl_bits(),
            r.spec_flags() == FLAG_GRANULARITY | FLAG_LONG_MODE,
            r.spec_dpl() == level.spec_ring(),
    {
        proof {
            assert((0x80u8 | 0x10u8 | 0x02u8) & 0x60 == 0) by (bit_vector);
        }
        Self::new(
            level,
            ACCESS_PRESENT | ACCESS_USER_SEGMENT | ACCESS_WRITABLE,
            FLAG_GRANULARITY | FLAG_LONG_MODE,
        )
    }

    /// The descriptor's privilege level, read back from the access byte.
    pub fn privilege_level(&self) -> (r: PrivilegeLevel)
        ensures
            r.spec_ring() == self.spec_dpl(),
    {
        let bits: u16 = ((self.access >> 5) & 3) as u16;
        proof {
            let a = self.access;
            assert((a >> 5) & 3 < 4) by (bit_vector);
        }
        PrivilegeLevel::from_ring(bits)
    }

    /// The descriptor's access byte.
    pub fn access_flags(&self) -> (r: u8)
        ensures
            r == self.spec_access(),
    {
        self.access
    }

    /// The descriptor's flag nibble.
    pub fn flags(&self) -> (r: u8)
        ensures
            r == self.spec_flags(),
    {
        self.flags
    }

    /// The 8-byte hardware encoding of the descriptor: the access byte at
    /// byte 5 and the flag nibble in the upper half of byte 6, every other
    /// field zero (flat long-mode segment).
    pub fn encode(&self) -> (r: u64)
        ensures
            r == ((self.spec_access() as u64) << 40) | (((self.spec_flags() & 0x0f) as u64)
                << 52),
            (r >> 40) & 0xff == self.spec_access(),
            (r >> 52) & 0x0f == self.spec_flags() & 0x0f,
    {
        let access64: u64 = self.access as u64;
        let flags64: u64 = (self.flags & 0x0f) as u64;
        proof {
            let f = self.flags;
            assert(f & 0x0f < 0x10) by (bit_vector);
            assert(((access64 << 40) | (flags64 << 52)) >> 40 & 0xff == access64 && ((access64
                << 40) | (flags64 << 52)) >> 52 & 0x0f == flags64) by (bit_vector)
                requires
                    access64 < 0x100,
                    flags64 < 0x10,
            ;
        }
        (access64 << 40) | (flags64 << 52)
    }
}

/// The global descriptor table: a fixed array of 8192 descriptor slots and
/// the highest slot index written so far, which sizes the table pointer.
pub struct GlobalDescriptorTable {
    descriptors: Vec<GDTDescriptor>,
    count: usize,
}

impl Default for GlobalDescriptorTable {
    /// An empty table: every slot holds the null descriptor and no slot has
    /// been written.
    fn default() -> (r: Self)
        ensures
            r.wf(),
            r.spec_count() == 0,
            forall|i: int|
                0 <= i < GDT_CAPACITY ==> (#[trigger] r.spec_descriptors()[i]).spec_access() == 0
                    && r.spec_descriptors()[i].spec_flags() == 0,
    {
        let null = GDTDescriptor::default();
        let mut descriptors: Vec<GDTDescriptor> = Vec::new();
        let mut n: usize = 0;
        while n < GDT_CAPACITY
            invariant
                n <= GDT_CAPACITY,
                descriptors@.len() == n,
                null.spec_access() == 0,
                null.spec_flags() == 0,
                forall|i: int|
                    0 <= i < n ==> (#[trigger] descriptors@[i]).spec_access() == 0
                        && descriptors@[i].spec_flags() == 0,
            decreases GDT_CAPACITY - n,
        {
            descriptors.push(null);
            n = n + 1;
        }
        GlobalDescriptorTable { descriptors, count: 0 }
    }
}

impl GlobalDescriptorTable {
    /// The descriptor slots.
    pub closed spec fn spec_descriptors(self) -> Seq<GDTDescriptor> {
        self.descriptors@
    }

    /// The highest slot index written so far.
    pub closed spec fn spec_count(self) -> int {
        self.count as int
    }

    /// Well-formedness: full capacity allocated, count within capacity.
    pub open spec fn wf(self) -> bool {
        &&& self.spec_descriptors().len() == GDT_CAPACITY
        &&& 0 <= self.spec_count() < GDT_CAPACITY
    }

    /// Write a descriptor into the given slot and remember the highest slot
    /// written.  Slot 0 is the hardware-reserved null descriptor and cannot
    /// be overwritten; an index past the fixed capacity is rejected.
    pub fn insert(&mut self, index: usize, descriptor: GDTDescriptor) -> (r: Result<(), Error>)
        requires
            old(self).wf(),
        ensures
            final(self).wf(),
            match r {
                Ok(_) => {
                    &&& 1 <= index < GDT_CAPACITY
                    &&& final(self).spec_descriptors() == old(self).spec_descriptors().update(
                        index as int,
                        descriptor,
                    )
                    &&& final(self).spec_count() == if old(self).spec_count() < index {
                        index as int
                    } else {
                        old(self).spec_count()
                    }
                },
                Err(e) => {
                    &&& *final(self) == *old(self)
                    &&& (e == Error::NullIndex <==> index == 0)
                    &&& (e == Error::IndexOutOfCapacity <==> index >= GDT_CAPACITY)
                    &&& (e == Error::NullIndex || e == Error::IndexOutOfCapacity)
                },
            },
    {
        if index == 0 {
            return Err(Error::NullIndex);
        }
        if index >= GDT_CAPACITY {
            return Err(Error::IndexOutOfCapacity);
        }
        self.descriptors[index] = descriptor;
        if self.count < index {
            self.count = index;
        }
        Ok(())
    }

    /// The descriptor currently held in a slot.
    pub fn descriptor_at(&self, index: usize) -> (r: GDTDescriptor)
        requires
            self.wf(),
            index < GDT_CAPACITY,
        ensures
            r == self.spec_descriptors()[index as int],
    {
        self.descriptors[index]
    }

    /// The highest slot index written so far.
    pub fn count(&self) -> (r: usize)
        ensures
            r == self.spec_count(),
    {
        self.count
    }

    /// The pointer structure the `lgdt` instruction consumes: the table's
    /// base address and its size in bytes minus one, sized by the highest
    /// written slot rather than the fixed capacity.
    ///
    /// The base address of the descriptor array is a linear address the
    /// caller determines when it places the encoded table in memory.
    pub fn as_ptr(&self, base: u64) -> (r: DescriptorTablePointer)
        requires
            self.wf(),
            self.spec_count() >= 1,
        ensures
            r.base == base,
            r.size == self.spec_count() * GDT_ENTRY_SIZE - 1,
    {
        DescriptorTablePointer { base, size: (self.count * GDT_ENTRY_SIZE - 1) as u16 }
    }
}

} // verus!
