//! Error taxonomy of the boot library.
//!
//! Every fallible operation reports one of these variants to the orchestrator,
//! whose only recovery strategy this early in boot is to print a diagnostic and
//! halt.  The variants split into ELF parse errors, resource exhaustion, and
//! invariant violations (freeing a frame that is not allocated, inserting a
//! descriptor outside a table's declared capacity).

use vstd::prelude::*;

verus! {

/// Typed failure reported by the frame allocator, the ELF loader and the
/// descriptor-table builders.
#[derive(Clone, Copy, PartialEq, Eq, Structural, Debug)]
pub enum Error {
    /// The byte buffer is too short to hold a complete ELF header.
    TruncatedHeader,
    /// The buffer does not start with the ELF magic number.
    BadMagic,
    /// The ELF class field does not request a 64-bit image.
    UnsupportedClass,
    /// The ELF data field does not request little-endian encoding.
    UnsupportedEndianness,
    /// The program-header table lies outside the buffer or uses an
    /// unsupported entry size.
    BadProgramHeaderTable,
    /// A segment's file-backed bytes extend past the end of the buffer.
    SegmentOutOfBounds,
    /// A segment claims more file-backed bytes than its in-memory size.
    SegmentSizeMismatch,
    /// No run of free frames is long enough to satisfy the request.
    OutOfFrames,
    /// The address handed to the allocator is not page-aligned.
    UnalignedAddress,
    /// The address range is not covered by the allocator's frame table.
    AddressOutOfRange,
    /// A frame inside the range to free is not currently allocated.
    FrameNotAllocated,
    /// A frame inside the range to claim is already allocated.
    FrameAlreadyAllocated,
    /// The descriptor index lies outside the table's fixed capacity.
    IndexOutOfCapacity,
    /// Index 0 of the global descriptor table is reserved for the null
    /// descriptor and cannot be overwritten.
    NullIndex,
}

} // verus!
