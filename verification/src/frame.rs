//! Physical-frame allocator built from the firmware memory map.
//!
//! The allocator owns a [`FrameTable`] bitmap with one bit per page frame,
//! numbered from `start_address` upward.  Allocation scans the bitmap for the
//! lowest-addressed run of free frames (first fit), reservation marks the
//! frames of firmware regions that must stay untouched, and deallocation
//! verifies every frame it clears was in fact allocated.

use vstd::prelude::*;

use crate::bitmap::FrameTable;
use crate::bitmap::count_allocated;
use crate::bitmap::clear_run;
use crate::bitmap::is_allocated_run;
use crate::bitmap::is_free_run;
use crate::bitmap::lemma_count_all_clear;
use crate::bitmap::lemma_count_bounds;
use crate::bitmap::lemma_count_set_run;
use crate::bitmap::lemma_count_take_all;
use crate::bitmap::lemma_count_take_step;
use crate::bitmap::lemma_zero_byte_clear;
use crate::bitmap::set_run;
use crate::error::Error;
use crate::memory_map::MemoryDescriptor;
use crate::memory_map::lemma_contiguous_extent;
use crate::memory_map::lemma_reserved_pages_take_step;
use crate::memory_map::lemma_total_pages_bounds;
use crate::memory_map::lemma_total_pages_take_all;
use crate::memory_map::lemma_total_pages_take_step;
use crate::memory_map::map_wf;
use crate::memory_map::reserved_pages;
use crate::memory_map::spec_reserved_frame;
use crate::memory_map::lemma_reserved_frame_step;
use crate::memory_map::total_pages;
use vstd::arithmetic::div_mod::lemma_mod_multiples_vanish;

verus! {

/// The first index at which a run of `count` free frames starts, scanning
/// from `from` upward; `None` when no such run exists.
pub open spec fn first_fit_from(bits: Seq<bool>, count: int, from: int) -> Option<int>
    decreases bits.len() - from,
{
    if from < 0 || from + count > bits.len() {
        None
    } else if is_free_run(bits, from, count) {
        Some(from)
    } else {
        first_fit_from(bits, count, from + 1)
    }
}

/// The lowest index at which a run of `count` free frames starts.
pub open spec fn spec_first_fit(bits: Seq<bool>, count: int) -> Option<int> {
    first_fit_from(bits, count, 0)
}

/// What `first_fit_from` returns: the found index carries a free run and no
/// earlier index past `from` does; `None` means no index past `from` does.
pub proof fn lemma_first_fit_from_props(bits: Seq<bool>, count: int, from: int)
    requires
        0 <= from,
        count >= 1,
    ensures
        match first_fit_from(bits, count, from) {
            Some(m) => from <= m && is_free_run(bits, m, count) && forall|s: int|
                from <= s < m ==> !is_free_run(bits, s, count),
            None => forall|s: int| from <= s ==> !is_free_run(bits, s, count),
        },
    decreases bits.len() - from,
{
    if from + count > bits.len() {
        assert forall|s: int| from <= s implies !is_free_run(bits, s, count) by {
            assert(s + count > bits.len());
        }
    } else if is_free_run(bits, from, count) {
    } else {
        lemma_first_fit_from_props(bits, count, from + 1);
    }
}

/// Number of frames needed for a request of `size` bytes: the size rounded
/// up to whole frames, and at least one frame.
pub open spec fn spec_page_count(size: int, page_size: int) -> int {
    if size == 0 {
        1
    } else {
        size / page_size + if size % page_size == 0 {
            0int
        } else {
            1int
        }
    }
}

/// Bitmap-backed allocator for physical page frames.
///
/// `start_address` is the first managed physical address; frame `i` of the
/// bitmap covers bytes `start_address + i * page_size` up to the next frame.
/// `stop_address` is the first byte past the memory the firmware map
/// describes.
pub struct FrameAllocator {
    /// Physical address of frame 0.
    pub start_address: u64,
    /// First physical address past the managed memory.
    pub stop_address: u64,
    /// Size of one frame in bytes.
    pub page_size: u16,
    /// Occupancy bitmap, one bit per frame.
    pub frame_table: FrameTable,
}

impl FrameAllocator {
    /// The occupancy bits, frame `i` at index `i`.
    pub open spec fn bits(self) -> Seq<bool> {
        self.frame_table@
    }

    /// Number of frames the allocator manages: those between the start and
    /// stop addresses.  The bitmap rounds up to whole bytes, so its trailing
    /// padding bits describe no frame and take no part in allocation.
    pub open spec fn usable_frames(self) -> int {
        (self.stop_address - self.start_address) as int / (self.page_size as int)
    }

    /// The occupancy bits of the managed frames alone, without the bitmap's
    /// trailing padding bits.
    pub open spec fn usable_bits(self) -> Seq<bool> {
        self.bits().take(self.usable_frames())
    }

    /// Well-formedness: a positive, aligned frame size, a bitmap that covers
    /// every managed frame, and address arithmetic that cannot overflow the
    /// machine.
    pub open spec fn wf(self) -> bool {
        &&& self.page_size > 0
        &&& self.start_address % (self.page_size as u64) == 0
        &&& self.start_address <= self.stop_address
        &&& self.usable_frames() <= usize::MAX
        &&& self.usable_frames() <= self.bits().len()
        &&& 8 * self.frame_table.frame_table@.len() <= usize::MAX
        &&& self.start_address + self.bits().len() * self.page_size <= u64::MAX
    }

    /// Frame number of the frame starting at `addr`.
    pub open spec fn frame_index_of(self, addr: u64) -> int {
        (addr - self.start_address) / (self.page_size as int)
    }

    /// Physical address of frame `index`.
    pub open spec fn frame_address(self, index: int) -> int {
        self.start_address + index * self.page_size
    }

    /// The address a request of `size` bytes would receive from the current
    /// bitmap state, if any: first fit over the managed frames, lowest
    /// address wins.
    pub open spec fn spec_alloc_address(self, size: int) -> Option<int> {
        match spec_first_fit(self.usable_bits(), spec_page_count(size, self.page_size as int)) {
            Some(i) => Some(self.frame_address(i)),
            None => None,
        }
    }

    /// The allocator's bitmap describes the map's regions: region `i` starts
    /// `total_pages` of its predecessors past frame 0 and its frames lie
    /// within the bitmap.
    pub open spec fn covers(self, map: Seq<MemoryDescriptor>) -> bool {
        forall|i: int|
            0 <= i < map.len() ==> {
                &&& (#[trigger] map[i]).phys_start >= self.start_address
                &&& map[i].phys_start == self.start_address + total_pages(map.take(i))
                    * self.page_size
                &&& total_pages(map.take(i)) + map[i].page_count <= self.bits().len()
            }
    }

    /// Build an allocator from the firmware memory map: size the bitmap from
    /// the map's total page count, mark every frame free, and span the
    /// addresses from the first region's start to the last region's end.
    ///
    /// Reserved regions are not yet marked; the caller invokes
    /// [`Self::reserve_memory_section`] once per non-reusable descriptor.
    #[verifier::rlimit(100)]
    pub fn new(memory_map: &Vec<MemoryDescriptor>, page_size: u16) -> (r: Self)
        requires
            map_wf(memory_map@, page_size),
        ensures
            r.wf(),
            r.page_size == page_size,
            r.start_address == memory_map@[0].phys_start,
            r.stop_address == memory_map@.last().spec_end(page_size),
            total_pages(memory_map@) <= r.bits().len() <= total_pages(memory_map@) + 7,
            forall|j: int| 0 <= j < r.bits().len() ==> !r.bits()[j],
            r.covers(memory_map@),
    {
        let ghost map = memory_map@;
        let map_len: usize = memory_map.len();

        let mut total: u64 = 0;
        let mut i: usize = 0;
        while i < map_len
            invariant
                i <= map_len,
                map_len == map.len(),
                map == memory_map@,
                map_wf(map, page_size),
                total == total_pages(map.take(i as int)),
            decreases map_len - i,
        {
            proof {
                lemma_total_pages_take_step(map, i as int);
                lemma_total_pages_bounds(map, i as int + 1, map.len() as int);
                lemma_total_pages_take_all(map);
            }
            total = total + memory_map[i].page_count;
            i = i + 1;
        }
        proof {
            lemma_total_pages_take_all(map);
        }

        let table_size: usize = (total / 8 + if total % 8 != 0 {
            1
        } else {
            0
        }) as usize;

        let mut table_bytes: Vec<u8> = Vec::new();
        let mut n: usize = 0;
        while n < table_size
            invariant
                n <= table_size,
                table_bytes@.len() == n,
                forall|b: int| 0 <= b < n ==> table_bytes@[b] == 0u8,
            decreases table_size - n,
        {
            table_bytes.push(0u8);
            n = n + 1;
        }

        let first = memory_map[0];
        let last = memory_map[map_len - 1];
        let stop_address: u64 = last.phys_start + last.page_count * (page_size as u64);
        let r = FrameAllocator {
            start_address: first.phys_start,
            stop_address,
            page_size,
            frame_table: FrameTable { frame_table: table_bytes },
        };
        proof {
            let t = total as int;
            let ps = page_size as int;
            let len = map.len() as int;
            lemma_contiguous_extent(map, page_size, len - 1);
            lemma_total_pages_take_step(map, len - 1);
            lemma_total_pages_take_all(map);
            assert(r.stop_address == r.start_address + t * ps);
            assert(t * ps >= 0) by (nonlinear_arith)
                requires
                    t >= 0,
                    ps > 0,
            ;
            assert((t * ps) / ps == t) by (nonlinear_arith)
                requires
                    ps > 0,
                    t >= 0,
            ;
            // The bitmap rounds the page total up to whole bytes.
            assert(t == 8 * (t / 8) + t % 8);
            assert(r.bits().len() == 8 * (table_size as int));
            assert(t <= 8 * (table_size as int) <= t + 7);
            // Address arithmetic stays within the machine word.
            assert((t + 7) * ps == t * ps + 7 * ps) by (nonlinear_arith);
            assert(r.start_address + r.bits().len() * ps <= r.start_address + (t + 7) * ps)
                by (nonlinear_arith)
                requires
                    r.bits().len() <= t + 7,
                    ps > 0,
                    r.start_address >= 0,
            ;
            if t > 0 {
                assert(8 * (table_size as int) <= t + 7 <= 8 * t <= usize::MAX);
            }
            // Every frame starts free.
            assert forall|j: int| 0 <= j < r.bits().len() implies !r.bits()[j] by {
                lemma_zero_byte_clear((j % 8) as u8);
            }
            // The bitmap covers each region of the map.
            assert forall|k: int| 0 <= k < map.len() implies {
                &&& (#[trigger] map[k]).phys_start >= r.start_address
                &&& map[k].phys_start == r.start_address + total_pages(map.take(k)) * ps
                &&& total_pages(map.take(k)) + map[k].page_count <= r.bits().len()
            } by {
                lemma_contiguous_extent(map, page_size, k);
                lemma_total_pages_take_step(map, k);
                lemma_total_pages_bounds(map, 0, k);
                lemma_total_pages_bounds(map, k + 1, len);
                assert(total_pages(map.take(k)) * ps >= 0) by (nonlinear_arith)
                    requires
                        total_pages(map.take(k)) >= 0,
                        ps > 0,
                ;
            }
        }
        r
    }

    /// Lowest frame index where `page_count` consecutive free frames start.
    ///
    /// Scans the bitmap left to right and keeps the length of the current
    /// free run; the first run to reach `page_count` wins.
    #[verifier::loop_isolation(false)]
    pub fn find_first_frame_index(&self, page_count: usize) -> (r: Option<usize>)
        requires
            self.wf(),
            page_count >= 1,
        ensures
            match r {
                Some(index) => spec_first_fit(self.usable_bits(), page_count as int) == Some(
                    index as int,
                ),
                None => spec_first_fit(self.usable_bits(), page_count as int) is None,
            },
    {
        let ghost ubits = self.usable_bits();
        let usable: usize = self.available_frames();
        let mut i: usize = 0;
        let mut run: usize = 0;
        while i < usable
            invariant
                i <= usable,
                run <= i,
                run < page_count,
                forall|j: int| i - run <= j < i ==> !ubits[j],
                run < i ==> ubits[i - run - 1],
                forall|s: int|
                    0 <= s && s + page_count <= i ==> !is_free_run(ubits, s, page_count as int),
            decreases usable - i,
        {
            let byte: u8 = self.frame_table.frame_table[i / 8];
            let allocated: bool = (byte >> ((i % 8) as u8)) & 1 == 1;
            assert(allocated == ubits[i as int]);
            if allocated {
                assert forall|s: int|
                    0 <= s && s + page_count <= i + 1 implies !is_free_run(
                    ubits,
                    s,
                    page_count as int,
                ) by {
                    if s + page_count == i + 1 {
                        assert(ubits[i as int]);
                    }
                }
                run = 0;
            } else {
                run = run + 1;
                if run >= page_count {
                    let found: usize = i + 1 - page_count;
                    proof {
                        assert(is_free_run(ubits, found as int, page_count as int));
                        lemma_first_fit_from_props(ubits, page_count as int, 0);
                        match spec_first_fit(ubits, page_count as int) {
                            Some(m) => {
                                if m < found {
                                    assert(!is_free_run(ubits, m, page_count as int));
                                } else if m > found {
                                    assert(!is_free_run(ubits, found as int, page_count as int));
                                }
                            },
                            None => {
                                assert(!is_free_run(ubits, found as int, page_count as int));
                            },
                        }
                    }
                    return Some(found);
                }
                assert forall|s: int|
                    0 <= s && s + page_count <= i + 1 implies !is_free_run(
                    ubits,
                    s,
                    page_count as int,
                ) by {
                    if s + page_count == i + 1 {
                        // The run would have to reach past the bit just
                        // before the current free suffix, which is allocated.
                        assert(s <= i - run);
                        if run - 1 < i {
                            assert(ubits[i - run]);
                            assert(s <= i - run < s + page_count);
                        } else {
                            assert(s < 0);
                        }
                    }
                }
            }
            i = i + 1;
        }
        proof {
            lemma_first_fit_from_props(ubits, page_count as int, 0);
            if spec_first_fit(ubits, page_count as int) is Some {
                let m = spec_first_fit(ubits, page_count as int)->Some_0;
                assert(is_free_run(ubits, m, page_count as int));
                assert(!is_free_run(ubits, m, page_count as int));
            }
        }
        None
    }

    /// Frames needed for a request of `size` bytes, at least one.
    fn page_count_for(&self, size: usize) -> (r: usize)
        requires
            self.page_size > 0,
        ensures
            r == spec_page_count(size as int, self.page_size as int),
            r >= 1,
    {
        let ps: usize = self.page_size as usize;
        if size == 0 {
            1
        } else {
            let q: usize = size / ps;
            let rem: usize = size % ps;
            if rem == 0 {
                proof {
                    assert(q >= 1) by (nonlinear_arith)
                        requires
                            size >= 1,
                            ps >= 1,
                            q == size / ps,
                            size % ps == 0,
                    ;
                }
                q
            } else {
                proof {
                    assert(ps >= 2 && q <= size / 2) by (nonlinear_arith)
                        requires
                            ps >= 1,
                            q == size / ps,
                            size % ps != 0,
                    ;
                }
                q + 1
            }
        }
    }

    /// Mark a run of currently free frames allocated, one toggle per frame.
    #[verifier::loop_isolation(false)]
    fn mark_run_allocated(&mut self, index: usize, count: usize)
        requires
            old(self).bits().len() <= usize::MAX,
            index + count <= old(self).bits().len(),
            is_free_run(old(self).bits(), index as int, count as int),
        ensures
            final(self).start_address == old(self).start_address,
            final(self).stop_address == old(self).stop_address,
            final(self).page_size == old(self).page_size,
            final(self).frame_table.frame_table@.len() == old(self).frame_table.frame_table@.len(),
            final(self).bits() == set_run(old(self).bits(), index as int, count as int),
    {
        let mut j: usize = 0;
        while j < count
            invariant
                j <= count,
                self.start_address == old(self).start_address,
                self.stop_address == old(self).stop_address,
                self.page_size == old(self).page_size,
                self.frame_table.frame_table@.len() == old(self).frame_table.frame_table@.len(),
                self.frame_table@ == set_run(old(self).bits(), index as int, j as int),
            decreases count - j,
        {
            self.frame_table.toggle_frame_alloc_status(index + j);
            proof {
                assert(self.frame_table@ =~= set_run(
                    old(self).bits(),
                    index as int,
                    j as int + 1,
                ));
            }
            j = j + 1;
        }
        proof {
            assert(self.frame_table@ =~= set_run(old(self).bits(), index as int, count as int));
        }
    }

    /// Mark a run of currently allocated frames free, one toggle per frame.
    #[verifier::loop_isolation(false)]
    fn mark_run_free(&mut self, index: usize, count: usize)
        requires
            old(self).bits().len() <= usize::MAX,
            index + count <= old(self).bits().len(),
            is_allocated_run(old(self).bits(), index as int, count as int),
        ensures
            final(self).start_address == old(self).start_address,
            final(self).stop_address == old(self).stop_address,
            final(self).page_size == old(self).page_size,
            final(self).frame_table.frame_table@.len() == old(self).frame_table.frame_table@.len(),
            final(self).bits() == clear_run(old(self).bits(), index as int, count as int),
    {
        let mut j: usize = 0;
        while j < count
            invariant
                j <= count,
                self.start_address == old(self).start_address,
                self.stop_address == old(self).stop_address,
                self.page_size == old(self).page_size,
                self.frame_table.frame_table@.len() == old(self).frame_table.frame_table@.len(),
                self.frame_table@ == clear_run(old(self).bits(), index as int, j as int),
            decreases count - j,
        {
            self.frame_table.toggle_frame_alloc_status(index + j);
            proof {
                assert(self.frame_table@ =~= clear_run(
                    old(self).bits(),
                    index as int,
                    j as int + 1,
                ));
            }
            j = j + 1;
        }
        proof {
            assert(self.frame_table@ =~= clear_run(old(self).bits(), index as int, count as int));
        }
    }

    /// Mark the frames of one firmware region allocated.
    ///
    /// The caller invokes this once per descriptor whose region type is not
    /// reusable; reserving frames that are not currently free is a
    /// programming error, so the contract demands a free run.
    pub fn reserve_memory_section(&mut self, descriptor: &MemoryDescriptor)
        requires
            old(self).wf(),
            descriptor.phys_start >= old(self).start_address,
            (descriptor.phys_start - old(self).start_address) % (old(self).page_size as int) == 0,
            old(self).frame_index_of(descriptor.phys_start) + descriptor.page_count <= old(
                self,
            ).bits().len(),
            is_free_run(
                old(self).bits(),
                old(self).frame_index_of(descriptor.phys_start),
                descriptor.page_count as int,
            ),
        ensures
            final(self).wf(),
            final(self).start_address == old(self).start_address,
            final(self).stop_address == old(self).stop_address,
            final(self).page_size == old(self).page_size,
            final(self).bits() == set_run(
                old(self).bits(),
                old(self).frame_index_of(descriptor.phys_start),
                descriptor.page_count as int,
            ),
    {
        let index64: u64 = (descriptor.phys_start - self.start_address) / (self.page_size as u64);
        let index: usize = index64 as usize;
        let pages: usize = descriptor.page_count as usize;
        self.mark_run_allocated(index, pages);
    }

    /// Allocate the lowest-addressed run of free frames large enough for a
    /// request of `size` bytes (first fit) and return its physical address.
    ///
    /// The returned address is page-aligned; on exhaustion the bitmap is
    /// left unchanged and the caller halts the boot.
    pub fn allocate(&mut self, size: usize) -> (r: Result<u64, Error>)
        requires
            old(self).wf(),
        ensures
            final(self).wf(),
            final(self).start_address == old(self).start_address,
            final(self).stop_address == old(self).stop_address,
            final(self).page_size == old(self).page_size,
            ({
                let count = spec_page_count(size as int, old(self).page_size as int);
                match r {
                    Ok(address) => {
                        &&& old(self).spec_alloc_address(size as int) == Some(address as int)
                        &&& match spec_first_fit(old(self).usable_bits(), count) {
                            Some(index) => {
                                &&& address == old(self).frame_address(index)
                                &&& is_free_run(old(self).usable_bits(), index, count)
                                &&& final(self).bits() == set_run(old(self).bits(), index, count)
                            },
                            None => false,
                        }
                        &&& address % (old(self).page_size as u64) == 0
                        &&& old(self).start_address <= address
                        &&& address + count * old(self).page_size <= old(self).stop_address
                    },
                    Err(e) => {
                        &&& e == Error::OutOfFrames
                        &&& old(self).spec_alloc_address(size as int) is None
                        &&& final(self).bits() == old(self).bits()
                    },
                }
            }),
    {
        let pages: usize = self.page_count_for(size);
        match self.find_first_frame_index(pages) {
            None => Err(Error::OutOfFrames),
            Some(index) => {
                proof {
                    lemma_first_fit_from_props(self.usable_bits(), pages as int, 0);
                    // A run free among the managed frames is free in the
                    // full bitmap as well.
                    assert forall|j: int| index <= j < index + pages implies !self.bits()[j] by {
                        assert(!self.usable_bits()[j]);
                    }
                    assert(is_free_run(self.bits(), index as int, pages as int));
                }
                self.mark_run_allocated(index, pages);
                proof {
                    let start = old(self).start_address as int;
                    let ps = old(self).page_size as int;
                    let len = old(self).bits().len() as int;
                    assert((index as int) * ps <= len * ps) by (nonlinear_arith)
                        requires
                            0 <= index as int <= len,
                            ps > 0,
                    ;
                    lemma_mod_multiples_vanish(index as int, start, ps);
                    assert((start + (index as int) * ps) % ps == 0);
                    assert((index as int) * ps >= 0) by (nonlinear_arith)
                        requires
                            index as int >= 0,
                            ps > 0,
                    ;
                    // The whole run lies below the stop address.
                    let usable = old(self).usable_frames();
                    let count = spec_page_count(size as int, ps);
                    assert((index + count) * ps <= usable * ps) by (nonlinear_arith)
                        requires
                            index + count <= usable,
                            ps > 0,
                    ;
                    let span = old(self).stop_address - old(self).start_address;
                    assert(usable * ps <= span) by (nonlinear_arith)
                        requires
                            usable == span as int / ps,
                            span >= 0,
                            ps > 0,
                    ;
                    assert((index + count) * ps == index * ps + count * ps) by (nonlinear_arith);
                }
                let address: u64 = self.start_address + (index as u64) * (self.page_size as u64);
                Ok(address)
            },
        }
    }

    /// Allocate `page_count` frames at exactly the given physical address.
    ///
    /// The ELF loader uses this for segments whose load addresses are fixed
    /// by the kernel's link addresses: the allocator either honors the exact
    /// address or reports why it cannot.
    pub fn alloc_at(&mut self, address: u64, page_count: usize) -> (r: Result<(), Error>)
        requires
            old(self).wf(),
        ensures
            final(self).wf(),
            final(self).start_address == old(self).start_address,
            final(self).stop_address == old(self).stop_address,
            final(self).page_size == old(self).page_size,
            ({
                let aligned = address % (old(self).page_size as u64) == 0;
                let index = old(self).frame_index_of(address);
                let in_range = address >= old(self).start_address && index + page_count <= old(
                    self,
                ).usable_frames();
                let was_free = is_free_run(old(self).bits(), index, page_count as int);
                match r {
                    Ok(_) => aligned && in_range && was_free && final(self).bits() == set_run(
                        old(self).bits(),
                        index,
                        page_count as int,
                    ),
                    Err(e) => {
                        &&& final(self).bits() == old(self).bits()
                        &&& (e == Error::UnalignedAddress <==> !aligned)
                        &&& (e == Error::AddressOutOfRange <==> aligned && !in_range)
                        &&& (e == Error::FrameAlreadyAllocated <==> aligned && in_range
                            && !was_free)
                        &&& (e == Error::UnalignedAddress || e == Error::AddressOutOfRange || e
                            == Error::FrameAlreadyAllocated)
                    },
                }
            }),
    {
        let ps64: u64 = self.page_size as u64;
        if address % ps64 != 0 {
            return Err(Error::UnalignedAddress);
        }
        if address < self.start_address {
            return Err(Error::AddressOutOfRange);
        }
        let index64: u64 = (address - self.start_address) / ps64;
        let usable64: u64 = self.available_frames() as u64;
        if index64 > usable64 || (page_count as u64) > usable64 - index64 {
            return Err(Error::AddressOutOfRange);
        }
        let index: usize = index64 as usize;
        let mut j: usize = 0;
        #[verifier::loop_isolation(false)]
        while j < page_count
            invariant
                j <= page_count,
                forall|t: int| 0 <= t < j ==> !(#[trigger] self.bits()[index + t]),
            decreases page_count - j,
        {
            let byte: u8 = self.frame_table.frame_table[(index + j) / 8];
            let allocated: bool = (byte >> (((index + j) % 8) as u8)) & 1 == 1;
            if allocated {
                proof {
                    assert(self.bits()[index + j as int]);
                }
                return Err(Error::FrameAlreadyAllocated);
            }
            j = j + 1;
        }
        proof {
            assert forall|p: int| index <= p < index + page_count implies !self.bits()[p] by {
                assert(!self.bits()[index + (p - index)]);
            }
            assert(is_free_run(self.bits(), index as int, page_count as int));
        }
        self.mark_run_allocated(index, page_count);
        Ok(())
    }

    /// Free the frames of a prior allocation: the address must be the
    /// page-aligned address a prior allocation returned, with the original
    /// request size.
    ///
    /// Every covered frame is verified to be allocated before anything is
    /// cleared; on any error the bitmap is left unchanged.
    pub fn dealloc(&mut self, address: u64, size: usize) -> (r: Result<(), Error>)
        requires
            old(self).wf(),
        ensures
            final(self).wf(),
            final(self).start_address == old(self).start_address,
            final(self).stop_address == old(self).stop_address,
            final(self).page_size == old(self).page_size,
            ({
                let count = spec_page_count(size as int, old(self).page_size as int);
                let aligned = address % (old(self).page_size as u64) == 0;
                let index = old(self).frame_index_of(address);
                let in_range = address >= old(self).start_address && index + count <= old(
                    self,
                ).usable_frames();
                let was_allocated = is_allocated_run(old(self).bits(), index, count);
                match r {
                    Ok(_) => aligned && in_range && was_allocated && final(self).bits()
                        == clear_run(old(self).bits(), index, count),
                    Err(e) => {
                        &&& final(self).bits() == old(self).bits()
                        &&& (e == Error::UnalignedAddress <==> !aligned)
                        &&& (e == Error::AddressOutOfRange <==> aligned && !in_range)
                        &&& (e == Error::FrameNotAllocated <==> aligned && in_range
                            && !was_allocated)
                        &&& (e == Error::UnalignedAddress || e == Error::AddressOutOfRange || e
                            == Error::FrameNotAllocated)
                    },
                }
            }),
    {
        let ps64: u64 = self.page_size as u64;
        let pages: usize = self.page_count_for(size);
        if address % ps64 != 0 {
            return Err(Error::UnalignedAddress);
        }
        if address < self.start_address {
            return Err(Error::AddressOutOfRange);
        }
        let index64: u64 = (address - self.start_address) / ps64;
        let usable64: u64 = self.available_frames() as u64;
        if index64 > usable64 || (pages as u64) > usable64 - index64 {
            return Err(Error::AddressOutOfRange);
        }
        let index: usize = index64 as usize;
        let mut j: usize = 0;
        #[verifier::loop_isolation(false)]
        while j < pages
            invariant
                j <= pages,
                forall|t: int| 0 <= t < j ==> (#[trigger] self.bits()[index + t]),
            decreases pages - j,
        {
            let byte: u8 = self.frame_table.frame_table[(index + j) / 8];
            let allocated: bool = (byte >> (((index + j) % 8) as u8)) & 1 == 1;
            if !allocated {
                proof {
                    assert(!self.bits()[index + j as int]);
                }
                return Err(Error::FrameNotAllocated);
            }
            j = j + 1;
        }
        proof {
            assert forall|p: int| index <= p < index + pages implies self.bits()[p] by {
                assert(self.bits()[index + (p - index)]);
            }
            assert(is_allocated_run(self.bits(), index as int, pages as int));
        }
        self.mark_run_free(index, pages);
        Ok(())
    }

    /// Reserve every non-reusable region of the memory map on a freshly
    /// built allocator, one region at a time.
    ///
    /// Afterward the allocated-frame count equals exactly the page total of
    /// the non-reusable descriptors: reservation covers those regions and
    /// nothing else.
    #[verifier::rlimit(100)]
    pub fn reserve_firmware_regions(&mut self, memory_map: &Vec<MemoryDescriptor>)
        requires
            old(self).wf(),
            map_wf(memory_map@, old(self).page_size),
            total_pages(memory_map@) <= old(self).bits().len(),
            forall|j: int| 0 <= j < old(self).bits().len() ==> !old(self).bits()[j],
        ensures
            final(self).wf(),
            final(self).start_address == old(self).start_address,
            final(self).stop_address == old(self).stop_address,
            final(self).page_size == old(self).page_size,
            count_allocated(final(self).bits()) == reserved_pages(memory_map@),
            forall|j: int|
                0 <= j < final(self).bits().len() ==> #[trigger] final(self).bits()[j]
                    == spec_reserved_frame(memory_map@, j),
    {
        let ghost map = memory_map@;
        let map_len: usize = memory_map.len();
        proof {
            lemma_count_all_clear(old(self).bits());
            assert forall|d: int| 0 <= d < map.len() implies is_free_run(
                old(self).bits(),
                total_pages(map.take(d)),
                map[d].page_count as int,
            ) by {
                lemma_total_pages_bounds(map, 0, d);
                lemma_total_pages_bounds(map, d + 1, map.len() as int);
                lemma_total_pages_take_step(map, d);
                lemma_total_pages_take_all(map);
            }
        }
        let mut i: usize = 0;
        let mut frame_index: usize = 0;
        while i < map_len
            invariant
                i <= map_len,
                map == memory_map@,
                map_len == map.len(),
                total_pages(map) <= usize::MAX,
                total_pages(map) <= self.bits().len(),
                self.wf(),
                self.start_address == old(self).start_address,
                self.stop_address == old(self).stop_address,
                self.page_size == old(self).page_size,
                self.bits().len() == old(self).bits().len(),
                frame_index == total_pages(map.take(i as int)),
                count_allocated(self.bits()) == reserved_pages(map.take(i as int)),
                forall|j: int|
                    0 <= j < self.bits().len() ==> #[trigger] self.bits()[j]
                        == spec_reserved_frame(map.take(i as int), j),
                forall|d: int|
                    i <= d < map.len() ==> is_free_run(
                        self.bits(),
                        total_pages(map.take(d)),
                        (#[trigger] map[d]).page_count as int,
                    ),
            decreases map_len - i,
        {
            let descriptor: MemoryDescriptor = memory_map[i];
            let ghost prior = self.bits();
            let ghost t = total_pages(map.take(i as int));
            let ghost count = descriptor.page_count as int;
            proof {
                lemma_reserved_pages_take_step(map, i as int);
                lemma_total_pages_take_step(map, i as int);
                lemma_total_pages_bounds(map, 0, i as int);
                lemma_total_pages_bounds(map, i as int + 1, map.len() as int);
                lemma_total_pages_take_all(map);
            }
            let pages: usize = descriptor.page_count as usize;
            if !descriptor.region_type.is_reusable() {
                self.mark_run_allocated(frame_index, pages);
                proof {
                    lemma_count_set_run(prior, t, count);
                    assert forall|d: int| i + 1 <= d < map.len() implies is_free_run(
                        self.bits(),
                        total_pages(map.take(d)),
                        (#[trigger] map[d]).page_count as int,
                    ) by {
                        lemma_total_pages_bounds(map, i as int + 1, d);
                        lemma_set_run_preserves_free(
                            prior,
                            t,
                            count,
                            total_pages(map.take(d)),
                            map[d].page_count as int,
                        );
                    }
                }
            }
            proof {
                assert forall|j: int| 0 <= j < self.bits().len() implies #[trigger] self.bits()[j]
                    == spec_reserved_frame(map.take(i as int + 1), j) by {
                    lemma_reserved_frame_step(map, i as int, j);
                }
            }
            frame_index = frame_index + pages;
            i = i + 1;
        }
        proof {
            lemma_total_pages_take_all(map);
            assert(map.take(map.len() as int) =~= map);
        }
    }

    /// Number of frames between the managed start and stop addresses.
    pub fn available_frames(&self) -> (r: usize)
        requires
            self.wf(),
        ensures
            r == self.usable_frames(),
    {
        ((self.stop_address - self.start_address) / (self.page_size as u64)) as usize
    }

    /// Number of allocated frames: the population count of the bitmap.
    #[verifier::loop_isolation(false)]
    pub fn allocated_frames(&self) -> (r: usize)
        requires
            self.wf(),
        ensures
            r == count_allocated(self.bits()),
    {
        let total_bits: usize = 8 * self.frame_table.frame_table.len();
        let mut count: usize = 0;
        let mut i: usize = 0;
        while i < total_bits
            invariant
                i <= total_bits,
                count == count_allocated(self.bits().take(i as int)),
                count <= i,
            decreases total_bits - i,
        {
            let byte: u8 = self.frame_table.frame_table[i / 8];
            let allocated: bool = (byte >> ((i % 8) as u8)) & 1 == 1;
            proof {
                assert(allocated == self.bits()[i as int]);
                lemma_count_take_step(self.bits(), i as int);
                lemma_count_bounds(self.bits().take(i as int + 1));
            }
            if allocated {
                count = count + 1;
            }
            i = i + 1;
        }
        proof {
            lemma_count_take_all(self.bits());
        }
        count
    }

    /// Number of frames still free: the available count less the allocated
    /// count, saturating at zero when reservations outnumber the managed
    /// range.
    pub fn remaining_frames(&self) -> (r: usize)
        requires
            self.wf(),
        ensures
            ({
                let available = self.usable_frames();
                let allocated = count_allocated(self.bits());
                r == if allocated <= available {
                    available - allocated
                } else {
                    0int
                }
            }),
    {
        let available = self.available_frames();
        let allocated = self.allocated_frames();
        if allocated <= available {
            available - allocated
        } else {
            0
        }
    }
}

/// Marking one run allocated leaves a free run past its end free.
proof fn lemma_set_run_preserves_free(
    bits: Seq<bool>,
    start: int,
    count: int,
    other_start: int,
    other_count: int,
)
    requires
        is_free_run(bits, other_start, other_count),
        start + count <= other_start,
    ensures
        is_free_run(set_run(bits, start, count), other_start, other_count),
{
    assert forall|p: int| other_start <= p < other_start + other_count implies !set_run(
        bits,
        start,
        count,
    )[p] by {
        assert(!bits[p]);
    }
}

/// **Bitmap round trip.**  Marking a free run allocated and then clearing
/// exactly that run restores the bitmap bit for bit.  Together with the
/// contracts of [`FrameAllocator::allocate`] and [`FrameAllocator::dealloc`]
/// — which set and clear exactly the run of the request — this means a
/// balanced sequence of allocations and matching deallocations returns the
/// allocated set to the initial reserved set.
pub proof fn lemma_alloc_dealloc_round_trip(bits: Seq<bool>, start: int, count: int)
    requires
        is_free_run(bits, start, count),
    ensures
        is_allocated_run(set_run(bits, start, count), start, count),
        clear_run(set_run(bits, start, count), start, count) == bits,
{
    assert(clear_run(set_run(bits, start, count), start, count) =~= bits);
}

/// Marking and clearing runs that do not overlap commutes, so deallocations
/// of disjoint allocations may come back in any order.
pub proof fn lemma_disjoint_run_ops_commute(
    bits: Seq<bool>,
    s1: int,
    c1: int,
    s2: int,
    c2: int,
)
    requires
        s1 + c1 <= s2 || s2 + c2 <= s1,
    ensures
        clear_run(set_run(bits, s2, c2), s1, c1) == set_run(clear_run(bits, s1, c1), s2, c2),
{
    assert(clear_run(set_run(bits, s2, c2), s1, c1) =~= set_run(clear_run(bits, s1, c1), s2, c2));
}

/// Whether frame `j` lies inside one of the listed runs.
pub open spec fn in_some_run(runs: Seq<(int, int)>, j: int) -> bool {
    exists|k: int| 0 <= k < runs.len() && (#[trigger] runs[k]).0 <= j < runs[k].0 + runs[k].1
}

/// The bitmap with every listed run marked allocated, in list order.
pub open spec fn set_runs(bits: Seq<bool>, runs: Seq<(int, int)>) -> Seq<bool>
    decreases runs.len(),
{
    if runs.len() == 0 {
        bits
    } else {
        set_run(set_runs(bits, runs.drop_last()), runs.last().0, runs.last().1)
    }
}

/// The bitmap with every listed run marked free, in list order.
pub open spec fn clear_runs(bits: Seq<bool>, runs: Seq<(int, int)>) -> Seq<bool>
    decreases runs.len(),
{
    if runs.len() == 0 {
        bits
    } else {
        clear_run(clear_runs(bits, runs.drop_last()), runs.last().0, runs.last().1)
    }
}

/// Marking or clearing runs never changes the bitmap's length.
proof fn lemma_runs_len(bits: Seq<bool>, runs: Seq<(int, int)>)
    ensures
        set_runs(bits, runs).len() == bits.len(),
        clear_runs(bits, runs).len() == bits.len(),
    decreases runs.len(),
{
    if runs.len() > 0 {
        lemma_runs_len(bits, runs.drop_last());
    }
}

/// Marking a list of runs allocated sets exactly the frames the runs cover.
proof fn lemma_set_runs_pointwise(bits: Seq<bool>, runs: Seq<(int, int)>, j: int)
    requires
        0 <= j < bits.len(),
    ensures
        set_runs(bits, runs).len() == bits.len(),
        set_runs(bits, runs)[j] == (bits[j] || in_some_run(runs, j)),
    decreases runs.len(),
{
    if runs.len() > 0 {
        lemma_set_runs_pointwise(bits, runs.drop_last(), j);
        let last = runs.last();
        let prefix = runs.drop_last();
        if last.0 <= j < last.0 + last.1 {
            assert(in_some_run(runs, j));
        } else if in_some_run(prefix, j) {
            let k = choose|k: int|
                0 <= k < prefix.len() && (#[trigger] prefix[k]).0 <= j < prefix[k].0
                    + prefix[k].1;
            assert(runs[k] == prefix[k]);
            assert(in_some_run(runs, j));
        } else if in_some_run(runs, j) {
            let k = choose|k: int|
                0 <= k < runs.len() && (#[trigger] runs[k]).0 <= j < runs[k].0 + runs[k].1;
            assert(k < runs.len() - 1 && prefix[k] == runs[k]);
            assert(in_some_run(prefix, j));
        }
    }
}

/// Clearing a list of runs frees exactly the frames the runs cover.
proof fn lemma_clear_runs_pointwise(bits: Seq<bool>, runs: Seq<(int, int)>, j: int)
    requires
        0 <= j < bits.len(),
    ensures
        clear_runs(bits, runs).len() == bits.len(),
        clear_runs(bits, runs)[j] == (bits[j] && !in_some_run(runs, j)),
    decreases runs.len(),
{
    if runs.len() > 0 {
        lemma_clear_runs_pointwise(bits, runs.drop_last(), j);
        let last = runs.last();
        let prefix = runs.drop_last();
        if last.0 <= j < last.0 + last.1 {
            assert(in_some_run(runs, j));
        } else if in_some_run(prefix, j) {
            let k = choose|k: int|
                0 <= k < prefix.len() && (#[trigger] prefix[k]).0 <= j < prefix[k].0
                    + prefix[k].1;
            assert(runs[k] == prefix[k]);
            assert(in_some_run(runs, j));
        } else if in_some_run(runs, j) {
            let k = choose|k: int|
                0 <= k < runs.len() && (#[trigger] runs[k]).0 <= j < runs[k].0 + runs[k].1;
            assert(k < runs.len() - 1 && prefix[k] == runs[k]);
            assert(in_some_run(prefix, j));
        }
    }
}

/// **Bitmap round trip**, sequence form.  For any list of allocations —
/// runs that were free in the starting bitmap, as every run returned by
/// [`FrameAllocator::allocate`] is — marking them all allocated and then
/// freeing them all returns the bitmap to the starting state, whatever the
/// order of the frees: the allocated set is again exactly the initial
/// reserved set.
pub proof fn lemma_balanced_sequence_round_trip(bits: Seq<bool>, runs: Seq<(int, int)>)
    requires
        forall|k: int|
            0 <= k < runs.len() ==> is_free_run(bits, (#[trigger] runs[k]).0, runs[k].1),
    ensures
        clear_runs(set_runs(bits, runs), runs) == bits,
{
    assert forall|j: int| 0 <= j < bits.len() implies clear_runs(set_runs(bits, runs), runs)[j]
        == bits[j] by {
        lemma_set_runs_pointwise(bits, runs, j);
        lemma_clear_runs_pointwise(set_runs(bits, runs), runs, j);
        if in_some_run(runs, j) {
            let k = choose|k: int|
                0 <= k < runs.len() && (#[trigger] runs[k]).0 <= j < runs[k].0 + runs[k].1;
            assert(is_free_run(bits, runs[k].0, runs[k].1));
            assert(!bits[j]);
        }
    }
    lemma_runs_len(bits, runs);
    lemma_runs_len(set_runs(bits, runs), runs);
    assert(clear_runs(set_runs(bits, runs), runs) =~= bits);
}

/// **First-fit determinism.**  The address an allocation request receives is
/// a function of the bitmap state and the request size alone: two allocators
/// in identical states answer identical requests identically.
pub proof fn lemma_first_fit_deterministic(a: FrameAllocator, b: FrameAllocator, size: int)
    requires
        a.bits() == b.bits(),
        a.start_address == b.start_address,
        a.stop_address == b.stop_address,
        a.page_size == b.page_size,
    ensures
        a.spec_alloc_address(size) == b.spec_alloc_address(size),
{
}

} // verus!
