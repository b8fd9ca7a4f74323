//! ELF segment loader: from an image buffer to page-aligned memory contents.
//!
//! For every loadable program-header entry the loader computes the
//! page-aligned extent of the segment, claims exactly those frames from the
//! frame allocator (the kernel's link addresses are fixed, so the address is
//! not negotiable), and materializes the segment: file-backed bytes at the
//! load address's intra-page offset, zero fill elsewhere.  Writing the
//! materialized bytes to physical memory is the caller's final, unverifiable
//! step.

use vstd::prelude::*;

use crate::bitmap::is_free_run;
use crate::bitmap::set_run;
use crate::elf::PT_LOAD;
use crate::elf::ProgramHeader;
use crate::elf::header_valid;
use crate::elf::le64;
use crate::elf::parse_header;
use crate::elf::parse_program_headers;
use crate::elf::phdr_table_valid;
use crate::elf::spec_header_error;
use crate::elf::spec_phdr_seq;
use crate::error::Error;
use crate::frame::FrameAllocator;
use vstd::arithmetic::div_mod::lemma_mod_multiples_basic;

verus! {

/// Page-aligned base address of a segment: the load address rounded down to
/// a whole page.
pub open spec fn spec_aligned_base(vaddr: int) -> int {
    vaddr - vaddr % 4096
}

/// Number of pages covering a segment: the load address's intra-page offset
/// plus the in-memory size, rounded up to whole pages.
pub open spec fn spec_pages_needed(vaddr: int, memsz: int) -> int {
    (vaddr % 4096 + memsz + 4095) / 4096
}

/// Whether one segment can be materialized from the buffer: no more
/// file-backed bytes than its in-memory size, file-backed bytes within the
/// buffer, and a page run small enough to buffer on this machine.
pub open spec fn segment_loadable(s: Seq<u8>, ph: ProgramHeader) -> bool {
    &&& ph.p_filesz <= ph.p_memsz
    &&& ph.p_offset + ph.p_filesz <= s.len()
    &&& ph.p_vaddr as int % 4096 + ph.p_memsz + 4095 <= usize::MAX
}

/// Contents of the page run that materializes one segment: the file-backed
/// bytes at the load address's intra-page offset, zero everywhere else —
/// including the trailing `p_memsz - p_filesz` uninitialized bytes.
pub open spec fn spec_segment_bytes(s: Seq<u8>, ph: ProgramHeader) -> Seq<u8> {
    let pad = ph.p_vaddr as int % 4096;
    Seq::new(
        (spec_pages_needed(ph.p_vaddr as int, ph.p_memsz as int) * 4096) as nat,
        |j: int|
            if pad <= j < pad + ph.p_filesz {
                s[ph.p_offset + (j - pad)]
            } else {
                0u8
            },
    )
}

/// What loading the program headers in order does to an allocator bitmap
/// whose frames are 4096 bytes and whose managed frames number `frames`:
/// either the first error the sequential process hits, with the bitmap at
/// that point, or no error and the bitmap with every loadable segment's
/// page run marked allocated.
pub open spec fn spec_load_outcome(
    bits: Seq<bool>,
    start: int,
    frames: int,
    s: Seq<u8>,
    phdrs: Seq<ProgramHeader>,
) -> (Option<Error>, Seq<bool>)
    decreases phdrs.len(),
{
    if phdrs.len() == 0 {
        (None::<Error>, bits)
    } else {
        let ph = phdrs[0];
        let rest = phdrs.drop_first();
        if ph.p_type != PT_LOAD || ph.p_memsz == 0 {
            spec_load_outcome(bits, start, frames, s, rest)
        } else if ph.p_filesz > ph.p_memsz {
            (Some(Error::SegmentSizeMismatch), bits)
        } else if ph.p_offset + ph.p_filesz > s.len() || ph.p_vaddr as int % 4096 + ph.p_memsz
            + 4095 > usize::MAX {
            (Some(Error::SegmentOutOfBounds), bits)
        } else {
            let base = spec_aligned_base(ph.p_vaddr as int);
            let pages = spec_pages_needed(ph.p_vaddr as int, ph.p_memsz as int);
            let index = (base - start) / 4096;
            if base < start || index + pages > frames {
                (Some(Error::AddressOutOfRange), bits)
            } else if !is_free_run(bits, index, pages) {
                (Some(Error::FrameAlreadyAllocated), bits)
            } else {
                spec_load_outcome(set_run(bits, index, pages), start, frames, s, rest)
            }
        }
    }
}

/// The loaded segments the program headers produce, in order: the
/// page-aligned base address and the materialized page contents of every
/// loadable segment.
pub open spec fn spec_load_plan(s: Seq<u8>, phdrs: Seq<ProgramHeader>) -> Seq<(int, Seq<u8>)>
    decreases phdrs.len(),
{
    if phdrs.len() == 0 {
        Seq::empty()
    } else {
        let ph = phdrs[0];
        let rest = phdrs.drop_first();
        if ph.p_type == PT_LOAD && ph.p_memsz > 0 {
            seq![(spec_aligned_base(ph.p_vaddr as int), spec_segment_bytes(s, ph))]
                + spec_load_plan(s, rest)
        } else {
            spec_load_plan(s, rest)
        }
    }
}

/// A loadable segment materialized in buffer memory, awaiting the copy to
/// its physical load address.
pub struct LoadedSegment {
    /// Page-aligned physical address the bytes belong at.
    pub address: u64,
    /// Contents of the whole page run.
    pub bytes: Vec<u8>,
}

/// The address and contents of a materialized segment.
pub open spec fn segment_model(seg: LoadedSegment) -> (int, Seq<u8>) {
    (seg.address as int, seg.bytes@)
}

/// The addresses and contents of a run of materialized segments.
pub open spec fn segments_model(v: Seq<LoadedSegment>) -> Seq<(int, Seq<u8>)> {
    v.map_values(|seg: LoadedSegment| segment_model(seg))
}

/// The result of loading a kernel image: the entry-point address and the
/// materialized loadable segments in program-header order.
pub struct LoadedImage {
    /// Address of the kernel's entry point, from the ELF header.
    pub entry: u64,
    /// The materialized segments.
    pub segments: Vec<LoadedSegment>,
}

/// Materialize one segment: a buffer of whole pages holding the segment's
/// file-backed bytes at the load address's intra-page offset, zero-filled
/// elsewhere.
#[verifier::loop_isolation(false)]
pub fn materialize_segment(file: &[u8], ph: &ProgramHeader) -> (r: Result<Vec<u8>, Error>)
    ensures
        match r {
            Ok(buf) => segment_loadable(file@, *ph) && buf@ == spec_segment_bytes(file@, *ph),
            Err(e) => {
                &&& !segment_loadable(file@, *ph)
                &&& (e == Error::SegmentSizeMismatch <==> ph.p_filesz > ph.p_memsz)
                &&& (e == Error::SegmentOutOfBounds <==> ph.p_filesz <= ph.p_memsz && !(
                ph.p_offset + ph.p_filesz <= file@.len() && ph.p_vaddr as int % 4096 + ph.p_memsz
                    + 4095 <= usize::MAX))
            },
        },
{
    let len64: u64 = file.len() as u64;
    if ph.p_filesz > ph.p_memsz {
        return Err(Error::SegmentSizeMismatch);
    }
    if ph.p_offset > len64 || ph.p_filesz > len64 - ph.p_offset {
        return Err(Error::SegmentOutOfBounds);
    }
    let pad64: u64 = ph.p_vaddr % 4096;
    if ph.p_memsz > (usize::MAX as u64) - 4095 - pad64 {
        return Err(Error::SegmentOutOfBounds);
    }
    let pages64: u64 = (pad64 + ph.p_memsz + 4095) / 4096;
    proof {
        let x = pad64 + ph.p_memsz + 4095;
        assert(pages64 * 4096 <= x && x <= pages64 * 4096 + 4095);
    }
    let total64: u64 = pages64 * 4096;
    let total: usize = total64 as usize;
    let pad: usize = pad64 as usize;
    let filesz: usize = ph.p_filesz as usize;
    let offset: usize = ph.p_offset as usize;

    let mut buf: Vec<u8> = Vec::new();
    let mut n: usize = 0;
    while n < total
        invariant
            n <= total,
            buf@.len() == n,
            forall|j: int| 0 <= j < n ==> buf@[j] == 0u8,
        decreases total - n,
    {
        buf.push(0u8);
        n = n + 1;
    }

    let mut i: usize = 0;
    while i < filesz
        invariant
            i <= filesz,
            buf@.len() == total,
            forall|k: int| 0 <= k < i ==> (#[trigger] buf@[pad + k]) == file@[offset + k],
            forall|j: int| 0 <= j < total && !(pad <= j < pad + i) ==> buf@[j] == 0u8,
        decreases filesz - i,
    {
        buf[pad + i] = file[offset + i];
        i = i + 1;
    }
    proof {
        let model = spec_segment_bytes(file@, *ph);
        assert forall|j: int| 0 <= j < buf@.len() implies buf@[j] == model[j] by {
            if pad <= j < pad + filesz {
                assert(buf@[pad + (j - pad)] == file@[offset + (j - pad)]);
            }
        }
        assert(buf@ =~= model);
    }
    Ok(buf)
}

/// What one program header does to the load: `spec_load_outcome` of the
/// header alone first takes the branch the whole sequence would take.
proof fn lemma_load_outcome_step(
    bits: Seq<bool>,
    start: int,
    frames: int,
    s: Seq<u8>,
    phdrs: Seq<ProgramHeader>,
)
    requires
        phdrs.len() > 0,
    ensures
        ({
            let step = spec_load_outcome(bits, start, frames, s, seq![phdrs[0]]);
            match step.0 {
                Some(e) => spec_load_outcome(bits, start, frames, s, phdrs) == (
                    Some(e),
                    step.1,
                ),
                None => spec_load_outcome(bits, start, frames, s, phdrs) == spec_load_outcome(
                    step.1,
                    start,
                    frames,
                    s,
                    phdrs.drop_first(),
                ),
            }
        }),
{
    reveal_with_fuel(spec_load_outcome, 3);
    assert(seq![phdrs[0]].drop_first() =~= Seq::<ProgramHeader>::empty());
    assert(seq![phdrs[0]][0] == phdrs[0]);
}

/// Process one program header: skip a non-loadable entry, or claim the
/// segment's page-aligned extent from the allocator and materialize its
/// bytes.
#[verifier::rlimit(100)]
fn load_one_segment(
    file_buffer: &[u8],
    allocator: &mut FrameAllocator,
    ph: &ProgramHeader,
) -> (r: Result<Option<LoadedSegment>, Error>)
    requires
        old(allocator).wf(),
        old(allocator).page_size == 4096,
    ensures
        final(allocator).wf(),
        final(allocator).start_address == old(allocator).start_address,
        final(allocator).stop_address == old(allocator).stop_address,
        final(allocator).page_size == old(allocator).page_size,
        ({
            let s = file_buffer@;
            let step = spec_load_outcome(
                old(allocator).bits(),
                old(allocator).start_address as int,
                old(allocator).usable_frames(),
                s,
                seq![*ph],
            );
            match r {
                Ok(None) => {
                    &&& ph.p_type != PT_LOAD || ph.p_memsz == 0
                    &&& final(allocator).bits() == old(allocator).bits()
                },
                Ok(Some(segment)) => {
                    &&& ph.p_type == PT_LOAD && ph.p_memsz > 0
                    &&& step.0 is None
                    &&& final(allocator).bits() == step.1
                    &&& segment.address == spec_aligned_base(ph.p_vaddr as int)
                    &&& segment.bytes@ == spec_segment_bytes(s, *ph)
                },
                Err(e) => step.0 == Some(e) && final(allocator).bits() == step.1,
            }
        }),
{
    proof {
        reveal_with_fuel(spec_load_outcome, 3);
        assert(seq![*ph][0] == *ph);
        assert(seq![*ph].drop_first() =~= Seq::<ProgramHeader>::empty());
    }
    if !(ph.p_type == PT_LOAD && ph.p_memsz > 0) {
        return Ok(None);
    }
    if ph.p_filesz > ph.p_memsz {
        return Err(Error::SegmentSizeMismatch);
    }
    let len64: u64 = file_buffer.len() as u64;
    if ph.p_offset > len64 || ph.p_filesz > len64 - ph.p_offset {
        return Err(Error::SegmentOutOfBounds);
    }
    let pad64: u64 = ph.p_vaddr % 4096;
    if ph.p_memsz > (usize::MAX as u64) - 4095 - pad64 {
        return Err(Error::SegmentOutOfBounds);
    }
    let base: u64 = ph.p_vaddr - pad64;
    let pages64: u64 = (pad64 + ph.p_memsz + 4095) / 4096;
    proof {
        let v = ph.p_vaddr as int;
        assert(base == spec_aligned_base(v));
        lemma_mod_multiples_basic(v / 4096, 4096);
        assert(base % 4096 == 0);
        let x = pad64 + ph.p_memsz + 4095;
        assert(pages64 * 4096 <= x);
    }
    let pages: usize = pages64 as usize;
    match allocator.alloc_at(base, pages) {
        Err(e) => {
            return Err(e);
        },
        Ok(_) => {},
    }
    match materialize_segment(file_buffer, ph) {
        Err(e) => {
            proof {
                assert(false);
            }
            Err(e)
        },
        Ok(bytes) => Ok(Some(LoadedSegment { address: base, bytes })),
    }
}

/// Load a kernel image: validate the ELF header, walk the program headers,
/// claim each loadable segment's page-aligned extent at its exact address
/// from the frame allocator, and materialize the segment bytes.
///
/// On success the returned image holds the entry-point address and one
/// materialized segment per loadable program header, in order; the
/// allocator's bitmap has exactly those page runs marked.  On any failure
/// the boot cannot continue, and the allocator is left at the failure point.
#[verifier::loop_isolation(false)]
#[verifier::rlimit(100)]
pub fn parse_elf_file(file_buffer: &[u8], allocator: &mut FrameAllocator) -> (r: Result<
    LoadedImage,
    Error,
>)
    requires
        old(allocator).wf(),
        old(allocator).page_size == 4096,
    ensures
        final(allocator).wf(),
        final(allocator).start_address == old(allocator).start_address,
        final(allocator).stop_address == old(allocator).stop_address,
        final(allocator).page_size == old(allocator).page_size,
        ({
            let s = file_buffer@;
            let outcome = spec_load_outcome(
                old(allocator).bits(),
                old(allocator).start_address as int,
                old(allocator).usable_frames(),
                s,
                spec_phdr_seq(s),
            );
            match r {
                Ok(img) => {
                    &&& phdr_table_valid(s)
                    &&& outcome.0 is None
                    &&& final(allocator).bits() == outcome.1
                    &&& img.entry == le64(s, 24)
                    &&& segments_model(img.segments@) == spec_load_plan(s, spec_phdr_seq(s))
                },
                Err(e) => {
                    &&& !header_valid(s) ==> e == spec_header_error(s) && final(allocator).bits()
                        == old(allocator).bits()
                    &&& header_valid(s) && !phdr_table_valid(s) ==> e
                        == Error::BadProgramHeaderTable && final(allocator).bits() == old(
                        allocator,
                    ).bits()
                    &&& phdr_table_valid(s) ==> outcome == (Some(e), final(allocator).bits())
                },
            }
        }),
{
    let header = match parse_header(file_buffer) {
        Ok(h) => h,
        Err(e) => {
            return Err(e);
        },
    };
    let phdrs = match parse_program_headers(file_buffer) {
        Ok(v) => v,
        Err(e) => {
            return Err(e);
        },
    };
    let ghost s = file_buffer@;
    let ghost pseq = spec_phdr_seq(s);
    let ghost bits0 = allocator.bits();
    let ghost start = allocator.start_address as int;
    let ghost frames = allocator.usable_frames();

    let mut segments: Vec<LoadedSegment> = Vec::new();
    proof {
        assert(pseq.skip(0) =~= pseq);
        assert(segments_model(segments@) =~= Seq::<(int, Seq<u8>)>::empty());
        assert(segments_model(segments@) + spec_load_plan(s, pseq) =~= spec_load_plan(s, pseq));
    }
    let phnum: usize = phdrs.len();
    let mut i: usize = 0;
    while i < phnum
        invariant
            i <= phnum,
            phdrs@ == pseq,
            phnum == pseq.len(),
            allocator.wf(),
            allocator.start_address == old(allocator).start_address,
            allocator.stop_address == old(allocator).stop_address,
            allocator.page_size == old(allocator).page_size,
            spec_load_outcome(bits0, start, frames, s, pseq) == spec_load_outcome(
                allocator.bits(),
                start,
                frames,
                s,
                pseq.skip(i as int),
            ),
            segments_model(segments@) + spec_load_plan(s, pseq.skip(i as int)) == spec_load_plan(
                s,
                pseq,
            ),
        decreases phnum - i,
    {
        let ph: ProgramHeader = phdrs[i];
        proof {
            assert(pseq.skip(i as int)[0] == pseq[i as int]);
            assert(pseq.skip(i as int).drop_first() =~= pseq.skip(i as int + 1));
            lemma_load_outcome_step(allocator.bits(), start, frames, s, pseq.skip(i as int));
        }
        match load_one_segment(file_buffer, allocator, &ph) {
            Err(e) => {
                return Err(e);
            },
            Ok(None) => {},
            Ok(Some(segment)) => {
                let ghost prior_model = segments_model(segments@);
                segments.push(segment);
                proof {
                    assert(segments_model(segments@) =~= prior_model.push(
                        (spec_aligned_base(ph.p_vaddr as int), spec_segment_bytes(s, ph)),
                    ));
                    assert(segments_model(segments@) + spec_load_plan(s, pseq.skip(i as int + 1))
                        =~= prior_model + spec_load_plan(s, pseq.skip(i as int)));
                }
            },
        }
        i = i + 1;
    }
    proof {
        assert(pseq.skip(phnum as int) =~= Seq::<ProgramHeader>::empty());
        assert(segments_model(segments@) + spec_load_plan(s, pseq.skip(phnum as int))
            =~= segments_model(segments@));
    }
    Ok(LoadedImage { entry: header.entry, segments })
}

} // verus!
