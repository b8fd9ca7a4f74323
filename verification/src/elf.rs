//! ELF image parsing: header validation and program-header enumeration.
//!
//! The loader consumes 64-bit little-endian ELF images.  Parsing works on a
//! plain byte buffer; every field read is specified against the
//! little-endian value of the underlying bytes.

use vstd::prelude::*;

use crate::error::Error;

verus! {

/// Program-header type tag of a loadable segment.
pub const PT_LOAD: u32 = 1;

/// Little-endian 16-bit value of the two bytes at `off`.
pub open spec fn le16(s: Seq<u8>, off: int) -> int {
    s[off] + 0x100 * s[off + 1]
}

/// Little-endian 32-bit value of the four bytes at `off`.
pub open spec fn le32(s: Seq<u8>, off: int) -> int {
    le16(s, off) + 0x1_0000 * le16(s, off + 2)
}

/// Little-endian 64-bit value of the eight bytes at `off`.
pub open spec fn le64(s: Seq<u8>, off: int) -> int {
    le32(s, off) + 0x1_0000_0000 * le32(s, off + 4)
}

/// Reads the little-endian 16-bit value at `offset`.
fn read_u16(bytes: &[u8], offset: usize) -> (r: u16)
    requires
        offset + 2 <= bytes@.len(),
    ensures
        r == le16(bytes@, offset as int),
{
    let b0: u8 = bytes[offset];
    let b1: u8 = bytes[offset + 1];
    proof {
        assert(((b0 as u16) | ((b1 as u16) << 8)) == b0 + 0x100 * b1) by (bit_vector);
    }
    (b0 as u16) | ((b1 as u16) << 8)
}

/// Reads the little-endian 32-bit value at `offset`.
fn read_u32(bytes: &[u8], offset: usize) -> (r: u32)
    requires
        offset + 4 <= bytes@.len(),
    ensures
        r == le32(bytes@, offset as int),
{
    proof {
        vstd::slice::axiom_spec_len(bytes);
    }
    let lo: u16 = read_u16(bytes, offset);
    let hi: u16 = read_u16(bytes, offset + 2);
    proof {
        assert(((lo as u32) | ((hi as u32) << 16)) == lo + 0x1_0000 * hi) by (bit_vector);
    }
    (lo as u32) | ((hi as u32) << 16)
}

/// Reads the little-endian 64-bit value at `offset`.
fn read_u64(bytes: &[u8], offset: usize) -> (r: u64)
    requires
        offset + 8 <= bytes@.len(),
    ensures
        r == le64(bytes@, offset as int),
{
    proof {
        vstd::slice::axiom_spec_len(bytes);
    }
    let lo: u32 = read_u32(bytes, offset);
    let hi: u32 = read_u32(bytes, offset + 4);
    proof {
        assert(((lo as u64) | ((hi as u64) << 32)) == lo + 0x1_0000_0000 * hi) by (bit_vector);
    }
    (lo as u64) | ((hi as u64) << 32)
}

/// The buffer starts with the four ELF magic bytes.
pub open spec fn magic_ok(s: Seq<u8>) -> bool {
    &&& s[0] == 0x7fu8
    &&& s[1] == 0x45u8
    &&& s[2] == 0x4cu8
    &&& s[3] == 0x46u8
}

/// A complete, supported ELF header: long enough, magic present, 64-bit
/// class, little-endian data encoding.
pub open spec fn header_valid(s: Seq<u8>) -> bool {
    &&& s.len() >= 64
    &&& magic_ok(s)
    &&& s[4] == 2u8
    &&& s[5] == 1u8
}

/// The fields of the ELF header that drive loading.
#[derive(Clone, Copy, PartialEq, Eq, Structural, Debug)]
pub struct ElfHeader {
    /// Virtual address of the image's entry point.
    pub entry: u64,
    /// File offset of the program-header table.
    pub phoff: u64,
    /// Size in bytes of one program-header entry.
    pub phentsize: u16,
    /// Number of program-header entries.
    pub phnum: u16,
}

/// One program-header entry: the extent of a segment in the file and in
/// memory.
#[derive(Clone, Copy, PartialEq, Eq, Structural, Debug)]
pub struct ProgramHeader {
    /// Segment type tag; only [`PT_LOAD`] segments are materialized.
    pub p_type: u32,
    /// Segment permission flags.
    pub p_flags: u32,
    /// File offset of the segment's bytes.
    pub p_offset: u64,
    /// Virtual address the segment loads at.
    pub p_vaddr: u64,
    /// Physical address of the segment; identity-mapped at boot.
    pub p_paddr: u64,
    /// Number of file-backed bytes.
    pub p_filesz: u64,
    /// Number of bytes the segment occupies in memory.
    pub p_memsz: u64,
    /// Required alignment of the segment.
    pub p_align: u64,
}

/// The program header encoded at offset `off`.
pub open spec fn spec_phdr(s: Seq<u8>, off: int) -> ProgramHeader {
    ProgramHeader {
        p_type: le32(s, off) as u32,
        p_flags: le32(s, off + 4) as u32,
        p_offset: le64(s, off + 8) as u64,
        p_vaddr: le64(s, off + 16) as u64,
        p_paddr: le64(s, off + 24) as u64,
        p_filesz: le64(s, off + 32) as u64,
        p_memsz: le64(s, off + 40) as u64,
        p_align: le64(s, off + 48) as u64,
    }
}

/// A usable program-header table: valid header, 64-bit entry size, and a
/// table that lies entirely within the buffer.
pub open spec fn phdr_table_valid(s: Seq<u8>) -> bool {
    &&& header_valid(s)
    &&& le16(s, 54) == 56
    &&& le64(s, 32) + 56 * le16(s, 56) <= s.len()
}

/// The sequence of program headers the buffer encodes.
pub open spec fn spec_phdr_seq(s: Seq<u8>) -> Seq<ProgramHeader> {
    Seq::new(le16(s, 56) as nat, |i: int| spec_phdr(s, le64(s, 32) + 56 * i))
}

/// Which parse error a buffer with an unusable header earns: the checks run
/// in order — length, magic, class, data encoding.
pub open spec fn spec_header_error(s: Seq<u8>) -> Error {
    if s.len() < 64 {
        Error::TruncatedHeader
    } else if !magic_ok(s) {
        Error::BadMagic
    } else if s[4] != 2u8 {
        Error::UnsupportedClass
    } else {
        Error::UnsupportedEndianness
    }
}

/// Parse and validate the ELF header, returning its loader-relevant fields.
pub fn parse_header(bytes: &[u8]) -> (r: Result<ElfHeader, Error>)
    ensures
        match r {
            Ok(h) => {
                &&& header_valid(bytes@)
                &&& h.entry == le64(bytes@, 24)
                &&& h.phoff == le64(bytes@, 32)
                &&& h.phentsize == le16(bytes@, 54)
                &&& h.phnum == le16(bytes@, 56)
            },
            Err(e) => !header_valid(bytes@) && e == spec_header_error(bytes@),
        },
{
    if bytes.len() < 64 {
        return Err(Error::TruncatedHeader);
    }
    if !(bytes[0] == 0x7f && bytes[1] == 0x45 && bytes[2] == 0x4c && bytes[3] == 0x46) {
        return Err(Error::BadMagic);
    }
    if bytes[4] != 2 {
        return Err(Error::UnsupportedClass);
    }
    if bytes[5] != 1 {
        return Err(Error::UnsupportedEndianness);
    }
    Ok(
        ElfHeader {
            entry: read_u64(bytes, 24),
            phoff: read_u64(bytes, 32),
            phentsize: read_u16(bytes, 54),
            phnum: read_u16(bytes, 56),
        },
    )
}

/// Validate that the buffer holds a supported ELF header.
///
/// Succeeds exactly on buffers whose header is complete, carries the magic
/// number, and requests a 64-bit little-endian image.
pub fn parse_file(bytes: &[u8]) -> (r: Result<(), Error>)
    ensures
        r is Ok <==> header_valid(bytes@),
        r matches Err(e) ==> e == spec_header_error(bytes@),
{
    match parse_header(bytes) {
        Ok(_) => Ok(()),
        Err(e) => Err(e),
    }
}

/// Parse the program-header table.
///
/// Succeeds exactly when the header is valid, the entry size is the 64-bit
/// size, and the whole table lies within the buffer; the result then holds
/// every program header in table order.
pub fn parse_program_headers(bytes: &[u8]) -> (r: Result<Vec<ProgramHeader>, Error>)
    ensures
        match r {
            Ok(v) => {
                &&& phdr_table_valid(bytes@)
                &&& v@ == spec_phdr_seq(bytes@)
            },
            Err(e) => {
                &&& !phdr_table_valid(bytes@)
                &&& header_valid(bytes@) ==> e == Error::BadProgramHeaderTable
                &&& !header_valid(bytes@) ==> e == spec_header_error(bytes@)
            },
        },
{
    let header = match parse_header(bytes) {
        Ok(h) => h,
        Err(e) => {
            return Err(e);
        },
    };
    if header.phentsize != 56 {
        return Err(Error::BadProgramHeaderTable);
    }
    let len64: u64 = bytes.len() as u64;
    let need: u64 = 56 * (header.phnum as u64);
    if header.phoff > len64 || need > len64 - header.phoff {
        return Err(Error::BadProgramHeaderTable);
    }
    let phoff: usize = header.phoff as usize;
    let phnum: usize = header.phnum as usize;
    let mut headers: Vec<ProgramHeader> = Vec::new();
    let mut i: usize = 0;
    #[verifier::loop_isolation(false)]
    while i < phnum
        invariant
            i <= phnum,
            headers@.len() == i,
            forall|k: int|
                0 <= k < i ==> headers@[k] == spec_phdr(bytes@, header.phoff + 56 * k),
        decreases phnum - i,
    {
        let off: usize = phoff + 56 * i;
        let entry = ProgramHeader {
            p_type: read_u32(bytes, off),
            p_flags: read_u32(bytes, off + 4),
            p_offset: read_u64(bytes, off + 8),
            p_vaddr: read_u64(bytes, off + 16),
            p_paddr: read_u64(bytes, off + 24),
            p_filesz: read_u64(bytes, off + 32),
            p_memsz: read_u64(bytes, off + 40),
            p_align: read_u64(bytes, off + 48),
        };
        headers.push(entry);
        i = i + 1;
    }
    proof {
        assert(headers@ =~= spec_phdr_seq(bytes@));
    }
    Ok(headers)
}

} // verus!
