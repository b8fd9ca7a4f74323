//! Bit-per-frame occupancy table.
//!
//! A contiguous byte buffer acts as a bitmap: bit `i` describes page frame
//! `i` relative to the allocator's frame-numbering origin, with a set bit
//! meaning "allocated or reserved" and a clear bit meaning "free".  The view
//! of the table is the flat sequence of its bits.

use vstd::prelude::*;

verus! {

/// Bit `k` of byte `b`, with bit 0 the least significant.
pub open spec fn byte_bit(b: u8, k: int) -> bool {
    (b >> (k as u8)) & 1 == 1
}

/// The frame bitmap: one bit per page frame, packed eight frames per byte.
pub struct FrameTable {
    /// The raw occupancy bytes.
    pub frame_table: Vec<u8>,
}

impl View for FrameTable {
    type V = Seq<bool>;

    open spec fn view(&self) -> Seq<bool> {
        Seq::new(8 * self.frame_table@.len(), |i: int| byte_bit(self.frame_table@[i / 8], i % 8))
    }
}

/// Flipping bit `k` of a byte inverts exactly that bit and keeps the others.
proof fn lemma_byte_toggle(b: u8, k: u8, j: u8)
    by (bit_vector)
    requires
        k < 8,
        j < 8,
    ensures
        j == k ==> (((b ^ (1u8 << k)) >> j) & 1 == 1) == !((b >> j) & 1 == 1),
        j != k ==> ((b ^ (1u8 << k)) >> j) & 1 == (b >> j) & 1,
{
}

/// Every bit of a zero byte is clear.
pub proof fn lemma_zero_byte_clear(j: u8)
    by (bit_vector)
    requires
        j < 8,
    ensures
        (0u8 >> j) & 1 == 0,
{
}

impl FrameTable {
    /// Flip the occupancy bit of one frame: a free frame becomes allocated
    /// and an allocated frame becomes free.
    pub fn toggle_frame_alloc_status(&mut self, page_index: usize)
        requires
            page_index < old(self)@.len(),
        ensures
            final(self).frame_table@.len() == old(self).frame_table@.len(),
            final(self)@ == old(self)@.update(page_index as int, !old(self)@[page_index as int]),
    {
        let frame_table_index: usize = page_index / 8;
        let frame_block_index: usize = page_index % 8;
        let prior: u8 = self.frame_table[frame_table_index];
        let updated: u8 = prior ^ (1u8 << (frame_block_index as u8));
        self.frame_table[frame_table_index] = updated;
        proof {
            let i = page_index as int;
            assert forall|j: int| 0 <= j < old(self)@.len() implies final(self)@[j] == old(
                self,
            )@.update(i, !old(self)@[i])[j] by {
                lemma_byte_toggle(prior, (i % 8) as u8, (j % 8) as u8);
                if j / 8 == i / 8 {
                    assert(j == i <==> j % 8 == i % 8);
                } else {
                    assert(final(self).frame_table@[j / 8] == old(self).frame_table@[j / 8]);
                }
            }
            assert(final(self)@ =~= old(self)@.update(i, !old(self)@[i]));
        }
    }

    /// Whether the frame's occupancy bit is set.
    pub fn page_allocated(&mut self, page_index: usize) -> (r: bool)
        requires
            page_index < old(self)@.len(),
        ensures
            final(self)@ == old(self)@,
            r == old(self)@[page_index as int],
    {
        let frame_table_index: usize = page_index / 8;
        let frame_block_index: usize = page_index % 8;
        let value: u8 = self.frame_table[frame_table_index];
        (value >> (frame_block_index as u8)) & 1 == 1
    }
}

/// A run of `count` frames starting at `start`, all free.
pub open spec fn is_free_run(bits: Seq<bool>, start: int, count: int) -> bool {
    &&& 0 <= start
    &&& start + count <= bits.len()
    &&& forall|j: int| start <= j < start + count ==> !bits[j]
}

/// A run of `count` frames starting at `start`, all allocated.
pub open spec fn is_allocated_run(bits: Seq<bool>, start: int, count: int) -> bool {
    &&& 0 <= start
    &&& start + count <= bits.len()
    &&& forall|j: int| start <= j < start + count ==> bits[j]
}

/// The bitmap with the frames of the run marked allocated.
pub open spec fn set_run(bits: Seq<bool>, start: int, count: int) -> Seq<bool> {
    Seq::new(
        bits.len(),
        |j: int|
            if start <= j < start + count {
                true
            } else {
                bits[j]
            },
    )
}

/// The bitmap with the frames of the run marked free.
pub open spec fn clear_run(bits: Seq<bool>, start: int, count: int) -> Seq<bool> {
    Seq::new(
        bits.len(),
        |j: int|
            if start <= j < start + count {
                false
            } else {
                bits[j]
            },
    )
}

/// Number of allocated frames: the count of set bits.
pub open spec fn count_allocated(bits: Seq<bool>) -> int
    decreases bits.len(),
{
    if bits.len() == 0 {
        0
    } else {
        count_allocated(bits.drop_last()) + if bits.last() {
            1int
        } else {
            0int
        }
    }
}

/// The allocated count of a one-longer prefix adds the one extra bit.
pub proof fn lemma_count_take_step(bits: Seq<bool>, i: int)
    requires
        0 <= i < bits.len(),
    ensures
        count_allocated(bits.take(i + 1)) == count_allocated(bits.take(i)) + if bits[i] {
            1int
        } else {
            0int
        },
{
    assert(bits.take(i + 1).drop_last() =~= bits.take(i));
    assert(bits.take(i + 1).last() == bits[i]);
}

/// The whole bitmap is its own length-`len` prefix.
pub proof fn lemma_count_take_all(bits: Seq<bool>)
    ensures
        count_allocated(bits.take(bits.len() as int)) == count_allocated(bits),
{
    assert(bits.take(bits.len() as int) =~= bits);
}

/// The allocated count never drops below zero nor exceeds the frame count.
pub proof fn lemma_count_bounds(bits: Seq<bool>)
    ensures
        0 <= count_allocated(bits) <= bits.len(),
    decreases bits.len(),
{
    if bits.len() > 0 {
        lemma_count_bounds(bits.drop_last());
    }
}

/// Marking one clear bit raises the allocated count by one; marking a set
/// bit leaves it unchanged.
pub proof fn lemma_count_update_true(bits: Seq<bool>, j: int)
    requires
        0 <= j < bits.len(),
    ensures
        count_allocated(bits.update(j, true)) == count_allocated(bits) + if bits[j] {
            0int
        } else {
            1int
        },
    decreases bits.len(),
{
    if j == bits.len() - 1 {
        assert(bits.update(j, true).drop_last() =~= bits.drop_last());
    } else {
        assert(bits.update(j, true).drop_last() =~= bits.drop_last().update(j, true));
        assert(bits.update(j, true).last() == bits.last());
        lemma_count_update_true(bits.drop_last(), j);
    }
}

/// Marking a free run allocated raises the allocated count by the run length.
pub proof fn lemma_count_set_run(bits: Seq<bool>, start: int, count: int)
    requires
        0 <= count,
        is_free_run(bits, start, count),
    ensures
        count_allocated(set_run(bits, start, count)) == count_allocated(bits) + count,
    decreases count,
{
    if count == 0 {
        assert(set_run(bits, start, 0) =~= bits);
    } else {
        lemma_count_set_run(bits, start, count - 1);
        assert(set_run(bits, start, count) =~= set_run(bits, start, count - 1).update(
            start + count - 1,
            true,
        ));
        lemma_count_update_true(set_run(bits, start, count - 1), start + count - 1);
    }
}

/// A bitmap with no set bit has an allocated count of zero.
pub proof fn lemma_count_all_clear(bits: Seq<bool>)
    requires
        forall|j: int| 0 <= j < bits.len() ==> !bits[j],
    ensures
        count_allocated(bits) == 0,
    decreases bits.len(),
{
    if bits.len() > 0 {
        lemma_count_all_clear(bits.drop_last());
    }
}

} // verus!
