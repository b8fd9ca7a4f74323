//! Interrupt Descriptor Table builder.
//!
//! The table binds each of the 256 interrupt vectors to a handler: a single
//! descriptor holds the handler address split across three fields, a
//! selector naming the handler's code segment, and a gate kind.  A
//! freshly built table points every vector at one default handler,
//! so an exception that was never given a handler reaches well-defined code
//! instead of undefined memory.

use vstd::prelude::*;

use crate::error::Error;
use crate::x86::DescriptorTable;
use crate::x86::DescriptorTablePointer;
use crate::x86::PrivilegeLevel;
use crate::x86::SegmentSelector;

verus! {

/// Number of interrupt vectors the table covers.
pub const IDT_CAPACITY: usize = 256;

/// Size in bytes of one encoded descriptor in long mode.
pub const IDT_ENTRY_SIZE: usize = 16;

/// Kind of gate a descriptor installs.
#[derive(Clone, Copy, PartialEq, Eq, Structural, Debug)]
pub enum GateType {
    /// Interrupt gate: the CPU disables interrupts while the handler runs.
    Interrupt,
    /// Trap gate: interrupts stay enabled while the handler runs.
    Trap,
}

impl GateType {
    /// Gate-type nibble of the descriptor flags byte.
    pub open spec fn spec_bits(self) -> u8 {
        match self {
            GateType::Interrupt => 0x0e,
            GateType::Trap => 0x0f,
        }
    }

    /// Gate-type nibble of the descriptor flags byte.
    #[verifier::when_used_as_spec(spec_bits)]
    pub fn bits(self) -> (r: u8)
        ensures
            r == self.spec_bits(),
    {
        match self {
            GateType::Interrupt => 0x0e,
            GateType::Trap => 0x0f,
        }
    }
}

/// The CPU state pushed on the stack when an interrupt or exception fires;
/// a handler reads it to recover or report the interrupted context.
#[derive(Clone, Copy, PartialEq, Eq, Structural, Debug)]
pub struct InterruptStackFrame {
    /// Address of the interrupted (or faulting) instruction.
    pub instruction_pointer: u64,
    /// Code segment of the interrupted context.
    pub code_segment: u64,
    /// The saved CPU flags.
    pub cpu_flags: u64,
    /// Stack pointer of the interrupted context.
    pub stack_pointer: u64,
    /// Stack segment of the interrupted context.
    pub stack_segment: u64,
}

/// Architecture-defined exception vectors.
#[derive(Clone, Copy, PartialEq, Eq, Structural, Debug)]
pub enum Exception {
    /// Division by zero or an unrepresentable quotient.
    Division,
    /// Debug fault or trap.
    Debug,
    /// Non-maskable interrupt for unrecoverable hardware problems.
    NonMaskableInterrupt,
    /// `INT3` breakpoint trap.
    Breakpoint,
    /// `INTO` overflow trap.
    Overflow,
    /// Bound-range check failure.
    BoundRangeExceeded,
    /// Invalid or undefined opcode.
    InvalidOpcode,
    /// FPU instruction with no FPU available.
    DeviceNotAvailable,
    /// Unhandled exception during exception delivery.
    DoubleFault,
    /// Illegal segment selector during a task switch.
    InvalidTSS,
    /// Segment or gate without its present bit.
    SegmentNotPresent,
    /// Stack-segment load or limit failure.
    StackSegmentFault,
    /// Protection violation with no more specific vector.
    GeneralProtectionFault,
    /// Page-translation failure or page-protection violation.
    PageFault,
    /// Pending x87 floating-point exception.
    X87FloatingPoint,
    /// Unaligned memory access with alignment checking enabled.
    AlignmentCheck,
    /// Internal machine error, such as a bus error.
    MachineCheck,
    /// Unmasked 128-bit media floating-point exception.
    SIMDFloatingPoint,
    /// EPT violation in virtual-machine operation.
    Virtualization,
    /// Control-flow enforcement violation.
    ControlProtection,
    /// Hypervisor event injection into a secure guest.
    HypervisorInjection,
    /// Communication event between a secure guest and its monitor.
    VMMCommunication,
    /// Security-sensitive event in secure virtual-machine operation.
    Security,
}

impl Exception {
    /// The interrupt vector the CPU raises for this exception.
    pub open spec fn spec_vector(self) -> u8 {
        match self {
            Exception::Division => 0x00,
            Exception::Debug => 0x01,
            Exception::NonMaskableInterrupt => 0x02,
            Exception::Breakpoint => 0x03,
            Exception::Overflow => 0x04,
            Exception::BoundRangeExceeded => 0x05,
            Exception::InvalidOpcode => 0x06,
            Exception::DeviceNotAvailable => 0x07,
            Exception::DoubleFault => 0x08,
            Exception::InvalidTSS => 0x0a,
            Exception::SegmentNotPresent => 0x0b,
            Exception::StackSegmentFault => 0x0c,
            Exception::GeneralProtectionFault => 0x0d,
            Exception::PageFault => 0x0e,
            Exception::X87FloatingPoint => 0x10,
            Exception::AlignmentCheck => 0x17,
            Exception::MachineCheck => 0x18,
            Exception::SIMDFloatingPoint => 0x19,
            Exception::Virtualization => 0x14,
            Exception::ControlProtection => 0x21,
            Exception::HypervisorInjection => 0x1c,
            Exception::VMMCommunication => 0x1d,
            Exception::Security => 0x30,
        }
    }

    /// The interrupt vector the CPU raises for this exception.
    #[verifier::when_used_as_spec(spec_vector)]
    pub fn vector(self) -> (r: u8)
        ensures
            r == self.spec_vector(),
    {
        match self {
            Exception::Division => 0x00,
            Exception::Debug => 0x01,
            Exception::NonMaskableInterrupt => 0x02,
            Exception::Breakpoint => 0x03,
            Exception::Overflow => 0x04,
            Exception::BoundRangeExceeded => 0x05,
            Exception::InvalidOpcode => 0x06,
            Exception::DeviceNotAvailable => 0x07,
            Exception::DoubleFault => 0x08,
            Exception::InvalidTSS => 0x0a,
            Exception::SegmentNotPresent => 0x0b,
            Exception::StackSegmentFault => 0x0c,
            Exception::GeneralProtectionFault => 0x0d,
            Exception::PageFault => 0x0e,
            Exception::X87FloatingPoint => 0x10,
            Exception::AlignmentCheck => 0x17,
            Exception::MachineCheck => 0x18,
            Exception::SIMDFloatingPoint => 0x19,
            Exception::Virtualization => 0x14,
            Exception::ControlProtection => 0x21,
            Exception::HypervisorInjection => 0x1c,
            Exception::VMMCommunication => 0x1d,
            Exception::Security => 0x30,
        }
    }
}

/// One descriptor of the interrupt descriptor table, in the 16-byte long
/// mode layout: the handler address split into low, middle and high parts,
/// the code segment selector, the interrupt-stack-table index, the flags
/// byte, and a reserved field that stays zero.
#[derive(Clone, Copy, PartialEq, Eq, Structural, Debug)]
pub struct IDTDescriptor {
    /// Bits 0 through 15 of the handler address.
    pub lower_isr_address: u16,
    /// Code segment the CPU loads before entering the handler.
    pub segment_selector: SegmentSelector,
    /// Interrupt-stack-table index; zero selects the current stack.
    pub ist: u8,
    /// Present bit, privilege level and gate type.
    pub flags: u8,
    /// Bits 16 through 31 of the handler address.
    pub middle_isr_address: u16,
    /// Bits 32 through 63 of the handler address.
    pub higher_isr_address: u32,
    /// Hardware-reserved, always zero.
    pub reserved: u32,
}

/// The handler address a descriptor binds: its three address fields joined
/// back together.
pub open spec fn spec_isr_address(d: IDTDescriptor) -> int {
    d.lower_isr_address + 0x1_0000 * d.middle_isr_address + 0x1_0000_0000 * d.higher_isr_address
}

impl IDTDescriptor {
    /// Build a descriptor binding a handler address, with the given code
    /// segment selector, gate type and privilege level; the present bit is
    /// always set.
    pub fn new(
        handler_address: u64,
        selector: SegmentSelector,
        gate_type: GateType,
        privilege_level: PrivilegeLevel,
    ) -> (r: Self)
        ensures
            spec_isr_address(r) == handler_address,
            r.segment_selector == selector,
            r.ist == 0,
            r.flags == 0x80u8 | privilege_level.spec_dpl_bits() | gate_type.spec_bits(),
            r.reserved == 0,
    {
        let lower: u16 = (handler_address & 0xffff) as u16;
        let middle: u16 = ((handler_address >> 16) & 0xffff) as u16;
        let higher: u32 = ((handler_address >> 32) & 0xffff_ffff) as u32;
        proof {
            let a = handler_address;
            assert((a & 0xffff) + 0x1_0000 * ((a >> 16) & 0xffff) + 0x1_0000_0000 * ((a >> 32)
                & 0xffff_ffff) == a) by (bit_vector);
            assert((a & 0xffff) < 0x1_0000 && ((a >> 16) & 0xffff) < 0x1_0000 && ((a >> 32)
                & 0xffff_ffff) < 0x1_0000_0000) by (bit_vector);
        }
        IDTDescriptor {
            lower_isr_address: lower,
            segment_selector: selector,
            ist: 0,
            flags: 0x80u8 | privilege_level.dpl_bits() | gate_type.bits(),
            middle_isr_address: middle,
            higher_isr_address: higher,
            reserved: 0,
        }
    }

    /// The handler address this descriptor binds.
    pub fn isr_address(&self) -> (r: u64)
        ensures
            r == spec_isr_address(*self),
    {
        let lower: u64 = self.lower_isr_address as u64;
        let middle: u64 = self.middle_isr_address as u64;
        let higher: u64 = self.higher_isr_address as u64;
        proof {
            assert(lower | (middle << 16) | (higher << 32) == lower + 0x1_0000 * middle
                + 0x1_0000_0000 * higher) by (bit_vector)
                requires
                    lower < 0x1_0000,
                    middle < 0x1_0000,
                    higher < 0x1_0000_0000,
            ;
        }
        lower | (middle << 16) | (higher << 32)
    }
}

/// The interrupt descriptor table: a fixed array of 256 descriptors, one
/// per vector.
pub struct InterruptDescriptorTable {
    descriptors: Vec<IDTDescriptor>,
}

impl InterruptDescriptorTable {
    /// The descriptor of each vector.
    pub closed spec fn spec_descriptors(self) -> Seq<IDTDescriptor> {
        self.descriptors@
    }

    /// Well-formedness: one descriptor per vector.
    pub open spec fn wf(self) -> bool {
        self.spec_descriptors().len() == IDT_CAPACITY
    }

    /// Build a table whose 256 vectors all point at the given default
    /// handler, through a trap gate in the kernel code segment at ring 0.
    ///
    /// Together with the update contract of [`Self::insert`] this is the
    /// fail-safe: a vector that is never explicitly bound still reaches the
    /// default handler, not undefined memory.
    pub fn new(default_handler_address: u64) -> (r: Self)
        ensures
            r.wf(),
            forall|v: int|
                0 <= v < IDT_CAPACITY ==> spec_isr_address(#[trigger] r.spec_descriptors()[v])
                    == default_handler_address,
            forall|v: int|
                0 <= v < IDT_CAPACITY ==> (#[trigger] r.spec_descriptors()[v]).flags == 0x8fu8,
            forall|v: int|
                0 <= v < IDT_CAPACITY ==> {
                    let d = #[trigger] r.spec_descriptors()[v];
                    &&& d.segment_selector.0 == 8
                    &&& d.ist == 0
                    &&& d.reserved == 0
                },
    {
        let default_descriptor = IDTDescriptor::new(
            default_handler_address,
            SegmentSelector::new(1, DescriptorTable::GDT, PrivilegeLevel::KernelSpace),
            GateType::Trap,
            PrivilegeLevel::KernelSpace,
        );
        proof {
            assert(0x80u8 | 0x00u8 | 0x0fu8 == 0x8fu8) by (bit_vector);
        }
        let mut descriptors: Vec<IDTDescriptor> = Vec::new();
        let mut n: usize = 0;
        while n < IDT_CAPACITY
            invariant
                n <= IDT_CAPACITY,
                descriptors@.len() == n,
                spec_isr_address(default_descriptor) == default_handler_address,
                default_descriptor.flags == 0x8fu8,
                forall|v: int|
                    0 <= v < n ==> #[trigger] descriptors@[v] == default_descriptor,
            decreases IDT_CAPACITY - n,
        {
            descriptors.push(default_descriptor);
            n = n + 1;
        }
        InterruptDescriptorTable { descriptors }
    }

    /// Bind a handler descriptor to one vector, leaving every other vector's
    /// descriptor untouched; a vector past the fixed capacity is rejected.
    pub fn insert(&mut self, index: usize, descriptor: IDTDescriptor) -> (r: Result<(), Error>)
        requires
            old(self).wf(),
        ensures
            final(self).wf(),
            match r {
                Ok(_) => index < IDT_CAPACITY && final(self).spec_descriptors() == old(
                    self,
                ).spec_descriptors().update(index as int, descriptor),
                Err(e) => {
                    &&& *final(self) == *old(self)
                    &&& e == Error::IndexOutOfCapacity
                    &&& index >= IDT_CAPACITY
                },
            },
            r is Ok <==> index < IDT_CAPACITY,
    {
        if index >= IDT_CAPACITY {
            return Err(Error::IndexOutOfCapacity);
        }
        self.descriptors[index] = descriptor;
        Ok(())
    }

    /// The descriptor currently bound to a vector.
    pub fn descriptor_at(&self, index: usize) -> (r: IDTDescriptor)
        requires
            self.wf(),
            index < IDT_CAPACITY,
        ensures
            r == self.spec_descriptors()[index as int],
    {
        self.descriptors[index]
    }

    /// The handler address a vector currently routes to.
    pub fn handler_address(&self, index: usize) -> (r: u64)
        requires
            self.wf(),
            index < IDT_CAPACITY,
        ensures
            r == spec_isr_address(self.spec_descriptors()[index as int]),
    {
        let descriptor = self.descriptors[index];
        descriptor.isr_address()
    }

    /// The pointer structure the `lidt` instruction consumes: the table's
    /// base address and its full 256-entry size in bytes minus one.
    ///
    /// The base address of the descriptor array is a linear address the
    /// caller determines when it places the encoded table in memory.
    pub fn as_ptr(&self, base: u64) -> (r: DescriptorTablePointer)
        ensures
            r.base == base,
            r.size == IDT_CAPACITY * IDT_ENTRY_SIZE - 1,
    {
        DescriptorTablePointer { base, size: (IDT_CAPACITY * IDT_ENTRY_SIZE - 1) as u16 }
    }
}

} // verus!
