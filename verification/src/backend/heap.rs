//! The synthetic guest heap: a bump allocator with guard bytes behind every
//! block, serving guest `malloc`, `calloc`, `realloc` and `free`.
use vstd::prelude::*;
use crate::error::{CoreError, CoreResult};
use crate::memory::lemma_align_down_law;
use crate::text::{dec_seq, hex_prefixed, push_dec, push_hex_prefixed};
use super::{
    span_mapped, write_span, MemoryArm32Backend, RegionView, SyntheticHeapAllocation,
    SyntheticHeapState,
};
use super::guest_access::{
    lemma_read_after_write, lemma_span_region_unique, lemma_subspan_mapped, lemma_write_keeps_mapped,
    lemma_write_preserves_disjoint, lemma_write_span_wf,
};
use super::span_bytes;

verus! {

/// Alignment of every synthetic heap block.
pub const SYNTHETIC_HEAP_ALIGN: u32 = 16;

/// Guard bytes reserved behind every synthetic heap block.
pub const SYNTHETIC_HEAP_GUARD_BYTES: u32 = 16;

/// Byte written into the guard area of a block that is not zero-filled.
pub const SYNTHETIC_HEAP_GUARD_FILL: u8 = 0xCD;

/// Byte written over a block when it is freed.
pub const SYNTHETIC_HEAP_FREED_FILL: u8 = 0xDD;

/// `v` rounded up to a multiple of the power of two `align` by masking, as
/// the allocator computes it (meaningful when `v + align - 1` fits in `u32`).
pub open spec fn align_up_mask(v: u32, align: u32) -> u32 {
    ((v + (align - 1)) as u32) & !((align - 1) as u32)
}

/// One well-formed block at or below the bump cursor.
pub open spec fn block_wf(a: SyntheticHeapAllocation, cursor: u32) -> bool {
    &&& a.size >= 1
    &&& a.reserved_size == a.size + SYNTHETIC_HEAP_GUARD_BYTES
    &&& a.ptr % 16 == 0
    &&& a.ptr + a.reserved_size <= cursor
}

/// Blocks in strictly increasing address order and pairwise disjoint.
pub open spec fn blocks_ordered(a: Seq<SyntheticHeapAllocation>) -> bool {
    forall|i: int, j: int| 0 <= i < j < a.len() ==> #[trigger] a[i].ptr + a[i].reserved_size <= #[trigger] a[j].ptr
}

/// Some recorded block starts at `ptr`.
pub open spec fn has_block(a: Seq<SyntheticHeapAllocation>, ptr: u32) -> bool {
    exists|i: int| 0 <= i < a.len() && (#[trigger] a[i]).ptr == ptr
}

/// The index of the block that starts at `ptr` (meaningful when there is one).
pub open spec fn block_index(a: Seq<SyntheticHeapAllocation>, ptr: u32) -> int {
    choose|i: int| 0 <= i < a.len() && (#[trigger] a[i]).ptr == ptr
}

/// Number of blocks not freed.
pub open spec fn active_count(a: Seq<SyntheticHeapAllocation>) -> nat
    decreases a.len(),
{
    if a.len() == 0 {
        0
    } else {
        active_count(a.drop_last()) + if a.last().freed {
            0nat
        } else {
            1nat
        }
    }
}

/// Bytes reserved (guards included) by the blocks not freed.
pub open spec fn active_reserved(a: Seq<SyntheticHeapAllocation>) -> nat
    decreases a.len(),
{
    if a.len() == 0 {
        0
    } else {
        active_reserved(a.drop_last()) + if a.last().freed {
            0nat
        } else {
            a.last().reserved_size as nat
        }
    }
}

/// The message of an exhausted heap.
pub open spec fn heap_exhausted_message(need: u32, cursor: u32, end: u32) -> Seq<char> {
    "synthetic heap exhausted: need "@ + dec_seq(need as nat) + " bytes in ["@ + hex_prefixed(cursor as nat, 8)
        + ", "@ + hex_prefixed(end as nat, 8) + ")"@
}

/// Where a reservation of `requested` bytes plus `guard` guard bytes, aligned
/// to `align`, lands: `Ok((start, reserved))`, or the error message.
pub open spec fn spec_reserve(cursor: u32, end: u32, requested: u32, align: u32, guard: u32) -> Result<
    (u32, u32),
    Seq<char>,
> {
    let a: u32 = if align == 0 { 1 } else { align };
    let req: u32 = if requested == 0 { 1 } else { requested };
    if cursor + (a - 1) > u32::MAX || req + guard > u32::MAX {
        Err("synthetic heap overflow"@)
    } else {
        let start = align_up_mask(cursor, a);
        let reserved = (req + guard) as u32;
        if start + reserved > u32::MAX {
            Err("synthetic heap overflow"@)
        } else if start + reserved > end {
            Err(heap_exhausted_message(reserved, cursor, end))
        } else {
            Ok((start, reserved))
        }
    }
}

/// A reservation that succeeds starts at the first address at or above the
/// cursor that is a multiple of the alignment (a power of two; zero counts
/// as one), covers the requested bytes (at least one) and the guard bytes,
/// and ends within the heap. One that fits at an already aligned cursor
/// succeeds there.
pub proof fn lemma_reserve_law(cursor: u32, end: u32, requested: u32, align: u32, guard: u32)
    requires
        align == 0 || align & (align - 1) as u32 == 0,
    ensures
        ({
            let a: int = if align == 0 { 1 } else { align as int };
            let req: int = if requested == 0 { 1 } else { requested as int };
            &&& spec_reserve(cursor, end, requested, align, guard) matches Ok((start, reserved)) ==> {
                &&& cursor <= start
                &&& start - cursor < a
                &&& (start as int) % a == 0
                &&& reserved == req + guard
                &&& start + reserved <= end
            }
            &&& (cursor as int) % a == 0 && cursor + req + guard <= end ==> spec_reserve(
                cursor,
                end,
                requested,
                align,
                guard,
            ) == Ok::<(u32, u32), Seq<char>>((cursor, (req + guard) as u32))
        }),
{
    let a: u32 = if align == 0 { 1 } else { align };
    assert(a & (a - 1) as u32 == 0) by (bit_vector)
        requires
            a == 1 || a & (a - 1) as u32 == 0,
    ;
    assert(cursor % a == 0 ==> cursor + (a - 1) <= u32::MAX) by (bit_vector)
        requires
            a > 0,
            a & (a - 1) as u32 == 0,
    ;
    if cursor + (a - 1) <= u32::MAX {
        let x = (cursor + (a - 1)) as u32;
        lemma_align_down_law(x, a);
        let start = align_up_mask(cursor, a);
        assert(start == x & !((a - 1) as u32));
        if cursor % a == 0 {
            assert(start == cursor) by (nonlinear_arith)
                requires
                    start % a == 0,
                    cursor % a == 0,
                    cursor <= start,
                    start < cursor + a,
                    a > 0,
            ;
        }
    }
}

/// Rounding up to a multiple of 16 by masking lands on the next multiple of
/// 16 at or above `v`.
pub proof fn lemma_align16(v: u32)
    requires
        v + 15 <= u32::MAX,
    ensures
        align_up_mask(v, 16) % 16 == 0,
        v <= align_up_mask(v, 16) < v + 16,
{
    let w = (v + 15) as u32;
    assert(w & !15u32 == w - w % 16) by (bit_vector);
    assert(((v + 15) as u32) == w);
}

/// The active blocks of a well-formed heap reserve no more bytes than lie
/// below the cursor.
pub proof fn lemma_active_reserved_bound(a: Seq<SyntheticHeapAllocation>, cursor: u32)
    requires
        blocks_ordered(a),
        forall|i: int| 0 <= i < a.len() ==> block_wf(#[trigger] a[i], cursor),
    ensures
        active_reserved(a) <= cursor,
        a.len() > 0 ==> active_reserved(a) <= a.last().ptr + a.last().reserved_size,
    decreases a.len(),
{
    if a.len() > 0 {
        let p = a.drop_last();
        assert(forall|i: int| 0 <= i < p.len() ==> p[i] == a[i]);
        lemma_active_reserved_bound(p, cursor);
        if p.len() > 0 {
            assert(a[p.len() - 1].ptr + a[p.len() - 1].reserved_size <= a[a.len() - 1].ptr);
        }
        assert(block_wf(a[a.len() - 1], cursor));
    }
}

/// Blocks of a well-formed heap are at least 17 bytes apart, so there are at
/// most `cursor / 17` of them.
pub proof fn lemma_block_count_bound(a: Seq<SyntheticHeapAllocation>, cursor: u32)
    requires
        blocks_ordered(a),
        forall|i: int| 0 <= i < a.len() ==> block_wf(#[trigger] a[i], cursor),
    ensures
        a.len() * 17 <= cursor,
        a.len() > 0 ==> a.len() * 17 <= a.last().ptr + a.last().reserved_size,
    decreases a.len(),
{
    if a.len() > 0 {
        let p = a.drop_last();
        assert(forall|i: int| 0 <= i < p.len() ==> p[i] == a[i]);
        lemma_block_count_bound(p, cursor);
        if p.len() > 0 {
            assert(a[p.len() - 1].ptr + a[p.len() - 1].reserved_size <= a[a.len() - 1].ptr);
        }
        assert(block_wf(a[a.len() - 1], cursor));
    }
}

impl SyntheticHeapState {
    /// An empty heap covering `[heap_base, heap_base + heap_size)`, the end
    /// saturated at `u32::MAX`.
    pub fn new(heap_base: u32, heap_size: u32) -> (h: Self)
        ensures
            h.synthetic_heap_cursor == heap_base,
            h.synthetic_heap_end == crate::memory::sat_add_u32(heap_base, heap_size),
            h.synthetic_heap_allocations@.len() == 0,
            h.synthetic_heap_allocations_total == 0,
            h.synthetic_heap_frees == 0,
            h.synthetic_heap_reallocs == 0,
            h.synthetic_heap_bytes_active == 0,
            h.synthetic_heap_bytes_peak == 0,
            h.synthetic_heap_last_alloc_ptr is None,
            h.synthetic_heap_last_alloc_size is None,
            h.synthetic_heap_last_freed_ptr is None,
            h.synthetic_heap_last_realloc_old_ptr is None,
            h.synthetic_heap_last_realloc_new_ptr is None,
            h.synthetic_heap_last_realloc_size is None,
            h.synthetic_heap_last_error is None,
            h.heap_wf(),
    {
        SyntheticHeapState {
            synthetic_heap_cursor: heap_base,
            synthetic_heap_end: heap_base.saturating_add(heap_size),
            synthetic_heap_allocations: Vec::new(),
            synthetic_heap_allocations_total: 0,
            synthetic_heap_frees: 0,
            synthetic_heap_reallocs: 0,
            synthetic_heap_bytes_active: 0,
            synthetic_heap_bytes_peak: 0,
            synthetic_heap_last_alloc_ptr: None,
            synthetic_heap_last_alloc_size: None,
            synthetic_heap_last_freed_ptr: None,
            synthetic_heap_last_realloc_old_ptr: None,
            synthetic_heap_last_realloc_new_ptr: None,
            synthetic_heap_last_realloc_size: None,
            synthetic_heap_last_error: None,
        }
    }

    /// The heap's invariant: the cursor stays within the heap, every block is
    /// aligned, carries its guard bytes and lies below the cursor, and blocks
    /// are recorded in increasing, non-overlapping address order.
    pub open spec fn heap_wf(&self) -> bool {
        let a = self.synthetic_heap_allocations@;
        &&& self.synthetic_heap_cursor <= self.synthetic_heap_end
        &&& forall|i: int| 0 <= i < a.len() ==> block_wf(#[trigger] a[i], self.synthetic_heap_cursor)
        &&& blocks_ordered(a)
    }

    /// Index of the block that starts at `ptr`, if any.
    pub fn find_allocation(&self, ptr: u32) -> (r: Option<usize>)
        requires
            self.heap_wf(),
        ensures
            r is Some <==> has_block(self.synthetic_heap_allocations@, ptr),
            r matches Some(i) ==> i < self.synthetic_heap_allocations@.len() && self.synthetic_heap_allocations@[i as int].ptr
                == ptr && i == block_index(self.synthetic_heap_allocations@, ptr),
    {
        let ghost a = self.synthetic_heap_allocations@;
        let mut i: usize = 0;
        while i < self.synthetic_heap_allocations.len()
            invariant
                i <= a.len(),
                a == self.synthetic_heap_allocations@,
                forall|j: int| 0 <= j < i ==> (#[trigger] a[j]).ptr != ptr,
            decreases a.len() - i,
        {
            if self.synthetic_heap_allocations[i].ptr == ptr {
                proof {
                    let k = block_index(a, ptr);
                    if k != i as int {
                        if k < i {
                            assert(a[k].ptr + a[k].reserved_size <= a[i as int].ptr);
                        } else {
                            assert(a[i as int].ptr + a[i as int].reserved_size <= a[k].ptr);
                        }
                        assert(block_wf(a[i as int], self.synthetic_heap_cursor));
                    }
                }
                return Some(i);
            }
            i = i + 1;
        }
        None
    }

    /// Number of blocks that are not freed.
    pub fn active_synthetic_heap_allocations(&self) -> (n: u32)
        requires
            self.heap_wf(),
        ensures
            n == active_count(self.synthetic_heap_allocations@),
    {
        let ghost a = self.synthetic_heap_allocations@;
        proof {
            lemma_block_count_bound(a, self.synthetic_heap_cursor);
        }
        let mut n: u32 = 0;
        let mut i: usize = 0;
        while i < self.synthetic_heap_allocations.len()
            invariant
                i <= a.len(),
                a == self.synthetic_heap_allocations@,
                n == active_count(a.take(i as int)),
                n <= i,
                a.len() <= u32::MAX,
            decreases a.len() - i,
        {
            proof {
                assert(a.take(i + 1).drop_last() =~= a.take(i as int));
            }
            if !self.synthetic_heap_allocations[i].freed {
                n = n + 1;
            }
            i = i + 1;
        }
        proof {
            assert(a.take(a.len() as int) =~= a);
        }
        n
    }
}

/// `n` copies of the byte `b`.
pub open spec fn fill_seq(n: nat, b: u8) -> Seq<u8> {
    Seq::new(n, |i: int| b)
}

/// The address space after a block `[start, start + reserved)` holding
/// `req` requested bytes is materialised: all zeros for a zero-filled block,
/// otherwise only the guard bytes are set.
pub open spec fn alloc_fill(mem: Seq<RegionView>, start: u32, req: u32, reserved: u32, zero_fill: bool) -> Seq<
    RegionView,
> {
    if zero_fill {
        write_span(mem, start, fill_seq(reserved as nat, 0))
    } else {
        write_span(mem, (start + req) as u32, fill_seq((reserved - req) as nat, SYNTHETIC_HEAP_GUARD_FILL))
    }
}

/// The message when the reserved block lies outside mapped memory.
pub open spec fn materialize_message(start: u32) -> Seq<char> {
    "backend cannot materialize synthetic heap block at "@ + hex_prefixed(start as nat, 8)
}

/// `x + y`, saturated at `u32::MAX`.
pub open spec fn sat_add(x: u32, y: u32) -> u32 {
    if x + y > u32::MAX {
        u32::MAX
    } else {
        (x + y) as u32
    }
}

/// `x - y`, saturated at zero.
pub open spec fn sat_sub(x: u32, y: u32) -> u32 {
    if x < y {
        0
    } else {
        (x - y) as u32
    }
}

/// Everything outside the guest memory, the write log and the heap is the
/// same in `a` and `b`.
pub open spec fn heap_frame(a: MemoryArm32Backend, b: MemoryArm32Backend) -> bool {
    &&& b.cpu == a.cpu
    &&& b.tuning == a.tuning
    &&& b.execution == a.execution
    &&& b.profile == a.profile
    &&& b.address_space.trampoline_addr == a.address_space.trampoline_addr
    &&& b.address_space.trampoline_size == a.address_space.trampoline_size
    &&& b.diag.symbol_labels == a.diag.symbol_labels
    &&& b.diag.object_labels == a.diag.object_labels
    &&& b.runtime.objc == a.runtime.objc
    &&& b.runtime.ui_network == a.runtime.ui_network
    &&& b.runtime.network_fault_history == a.runtime.network_fault_history
    &&& b.runtime.ui_objects == a.runtime.ui_objects
    &&& b.runtime.ui_runtime == a.runtime.ui_runtime
    &&& b.runtime.openal == a.runtime.openal
    &&& b.runtime.audio_queue == a.runtime.audio_queue
    &&& b.runtime.graphics == a.runtime.graphics
    &&& b.runtime.recent_gl_calls == a.runtime.recent_gl_calls
    &&& b.runtime.gl_call_counts == a.runtime.gl_call_counts
    &&& b.runtime.foundation == a.runtime.foundation
    &&& b.runtime.textures == a.runtime.textures
    &&& b.runtime.ui_graphics == a.runtime.ui_graphics
}

/// The heap bookkeeping after a block of `req` bytes was placed at `start`
/// with `reserved` bytes reserved and tagged `tag`.
pub open spec fn heap_after_alloc(
    h0: SyntheticHeapState,
    h1: SyntheticHeapState,
    start: u32,
    req: u32,
    reserved: u32,
    tag: Seq<char>,
) -> bool {
    let a1 = h1.synthetic_heap_allocations@;
    &&& a1.len() == h0.synthetic_heap_allocations@.len() + 1
    &&& a1.drop_last() == h0.synthetic_heap_allocations@
    &&& a1.last().ptr == start
    &&& a1.last().size == req
    &&& a1.last().reserved_size == reserved
    &&& !a1.last().freed
    &&& a1.last().tag@ == tag
    &&& h1.synthetic_heap_cursor == start + reserved
    &&& h1.synthetic_heap_end == h0.synthetic_heap_end
    &&& h1.synthetic_heap_allocations_total == sat_add(h0.synthetic_heap_allocations_total, 1)
    &&& h1.synthetic_heap_bytes_active == sat_add(h0.synthetic_heap_bytes_active, req)
    &&& h1.synthetic_heap_bytes_peak == (if h0.synthetic_heap_bytes_peak > h1.synthetic_heap_bytes_active {
        h0.synthetic_heap_bytes_peak
    } else {
        h1.synthetic_heap_bytes_active
    })
    &&& h1.synthetic_heap_last_alloc_ptr == Some(start)
    &&& h1.synthetic_heap_last_alloc_size == Some(req)
    &&& h1.synthetic_heap_last_error is None
    &&& h1.synthetic_heap_frees == h0.synthetic_heap_frees
    &&& h1.synthetic_heap_reallocs == h0.synthetic_heap_reallocs
    &&& h1.synthetic_heap_last_freed_ptr == h0.synthetic_heap_last_freed_ptr
    &&& h1.synthetic_heap_last_realloc_old_ptr == h0.synthetic_heap_last_realloc_old_ptr
    &&& h1.synthetic_heap_last_realloc_new_ptr == h0.synthetic_heap_last_realloc_new_ptr
    &&& h1.synthetic_heap_last_realloc_size == h0.synthetic_heap_last_realloc_size
}

/// Where a block of `requested` bytes would be placed, and how much it
/// would reserve, when the allocation succeeds.
pub open spec fn alloc_outcome(b: MemoryArm32Backend, requested: u32) -> Option<(u32, u32)> {
    let h = b.runtime.heap;
    let req: u32 = if requested == 0 { 1 } else { requested };
    match spec_reserve(h.synthetic_heap_cursor, h.synthetic_heap_end, req, 16, 16) {
        Ok((start, reserved)) => if span_mapped(b.mem(), start, reserved) {
            Some((start, reserved))
        } else {
            None
        },
        Err(_) => None,
    }
}

/// Why an allocation of `requested` bytes fails (meaningful when it does).
pub open spec fn alloc_error(b: MemoryArm32Backend, requested: u32) -> Seq<char> {
    let h = b.runtime.heap;
    let req: u32 = if requested == 0 { 1 } else { requested };
    match spec_reserve(h.synthetic_heap_cursor, h.synthetic_heap_end, req, 16, 16) {
        Ok((start, _)) => materialize_message(start),
        Err(m) => m,
    }
}

/// Only the heap's last error changed between `b0` and `b1`, and it now
/// reads `msg`.
pub open spec fn only_heap_error_set(b0: MemoryArm32Backend, b1: MemoryArm32Backend, msg: Seq<char>) -> bool {
    &&& heap_frame(b0, b1)
    &&& b1.mem() == b0.mem()
    &&& b1.diag.writes == b0.diag.writes
    &&& b1.runtime.heap == (SyntheticHeapState {
        synthetic_heap_last_error: b1.runtime.heap.synthetic_heap_last_error,
        ..b0.runtime.heap
    })
    &&& b1.runtime.heap.synthetic_heap_last_error matches Some(e) && e@ == msg
}

/// What a guest-facing allocation of `requested` bytes does: on success it
/// returns the block start, on failure it returns null and records the
/// reason as the heap's last error.
pub open spec fn guest_alloc_effect(
    b0: MemoryArm32Backend,
    b1: MemoryArm32Backend,
    requested: u32,
    zero_fill: bool,
    tag: Seq<char>,
    r: u32,
) -> bool {
    let req: u32 = if requested == 0 { 1 } else { requested };
    match alloc_outcome(b0, requested) {
        Some((start, reserved)) => {
            &&& r == start
            &&& heap_frame(b0, b1)
            &&& heap_after_alloc(b0.runtime.heap, b1.runtime.heap, start, req, reserved, tag)
            &&& b1.mem() == alloc_fill(b0.mem(), start, req, reserved, zero_fill)
            &&& b1.diag.writes@ == b0.diag.writes@.push((start, reserved as usize))
        },
        None => r == 0 && only_heap_error_set(b0, b1, alloc_error(b0, requested)),
    }
}

/// What freeing `ptr` does to backend `b0`, giving `b1` and result `r`.
pub open spec fn free_effect(b0: MemoryArm32Backend, b1: MemoryArm32Backend, ptr: u32, r: bool) -> bool {
    &&& heap_frame(b0, b1)
    &&& {
        let h0 = b0.runtime.heap;
        let h1 = b1.runtime.heap;
        let a0 = h0.synthetic_heap_allocations@;
        if ptr == 0 {
            &&& r
            &&& h1 == (SyntheticHeapState {
                synthetic_heap_last_freed_ptr: Some(0u32),
                synthetic_heap_last_error: None,
                ..h0
            })
            &&& b1.mem() == b0.mem()
            &&& b1.diag.writes == b0.diag.writes
        } else if !has_block(a0, ptr) || a0[block_index(a0, ptr)].freed {
            &&& !r
            &&& h1 == (SyntheticHeapState { synthetic_heap_last_error: h1.synthetic_heap_last_error, ..h0 })
            &&& h1.synthetic_heap_last_error matches Some(e) && e@ == (if has_block(a0, ptr) {
                "double free at "@
            } else {
                "free on unknown pointer "@
            }) + hex_prefixed(ptr as nat, 8)
            &&& b1.mem() == b0.mem()
            &&& b1.diag.writes == b0.diag.writes
        } else {
            let i = block_index(a0, ptr);
            let b = a0[i];
            &&& r
            &&& h1.synthetic_heap_allocations@ == a0.update(i, SyntheticHeapAllocation { freed: true, ..b })
            &&& h1 == (SyntheticHeapState {
                synthetic_heap_allocations: h1.synthetic_heap_allocations,
                synthetic_heap_frees: sat_add(h0.synthetic_heap_frees, 1),
                synthetic_heap_bytes_active: sat_sub(h0.synthetic_heap_bytes_active, b.size),
                synthetic_heap_last_freed_ptr: Some(ptr),
                synthetic_heap_last_error: None,
                ..h0
            })
            &&& if span_mapped(b0.mem(), ptr, b.reserved_size) {
                &&& b1.mem() == write_span(
                    b0.mem(),
                    ptr,
                    fill_seq(b.reserved_size as nat, SYNTHETIC_HEAP_FREED_FILL),
                )
                &&& b1.diag.writes@ == b0.diag.writes@.push((ptr, b.reserved_size as usize))
            } else {
                &&& b1.mem() == b0.mem()
                &&& b1.diag.writes == b0.diag.writes
            }
    }

    }
}

/// What freeing `ptr` does to the heap `h0`, guest memory `m0` and write
/// log `l0`, giving `h1`, `m1` and `l1`.
pub open spec fn free_step(
    h0: SyntheticHeapState,
    m0: Seq<RegionView>,
    l0: Seq<(u32, usize)>,
    h1: SyntheticHeapState,
    m1: Seq<RegionView>,
    l1: Seq<(u32, usize)>,
    ptr: u32,
) -> bool {
    let a0 = h0.synthetic_heap_allocations@;
    if ptr == 0 {
        &&& h1 == (SyntheticHeapState {
            synthetic_heap_last_freed_ptr: Some(0u32),
            synthetic_heap_last_error: None,
            ..h0
        })
        &&& m1 == m0
        &&& l1 == l0
    } else if !has_block(a0, ptr) || a0[block_index(a0, ptr)].freed {
        &&& h1 == (SyntheticHeapState { synthetic_heap_last_error: h1.synthetic_heap_last_error, ..h0 })
        &&& h1.synthetic_heap_last_error matches Some(e) && e@ == (if has_block(a0, ptr) {
            "double free at "@
        } else {
            "free on unknown pointer "@
        }) + hex_prefixed(ptr as nat, 8)
        &&& m1 == m0
        &&& l1 == l0
    } else {
        let i = block_index(a0, ptr);
        let b = a0[i];
        &&& h1.synthetic_heap_allocations@ == a0.update(i, SyntheticHeapAllocation { freed: true, ..b })
        &&& h1 == (SyntheticHeapState {
            synthetic_heap_allocations: h1.synthetic_heap_allocations,
            synthetic_heap_frees: sat_add(h0.synthetic_heap_frees, 1),
            synthetic_heap_bytes_active: sat_sub(h0.synthetic_heap_bytes_active, b.size),
            synthetic_heap_last_freed_ptr: Some(ptr),
            synthetic_heap_last_error: None,
            ..h0
        })
        &&& if span_mapped(m0, ptr, b.reserved_size) {
            &&& m1 == write_span(m0, ptr, fill_seq(b.reserved_size as nat, SYNTHETIC_HEAP_FREED_FILL))
            &&& l1 == l0.push((ptr, b.reserved_size as usize))
        } else {
            &&& m1 == m0
            &&& l1 == l0
        }
    }
}

/// A free, seen as a step on the heap, memory and write log alone.
pub proof fn lemma_free_step(b0: MemoryArm32Backend, b1: MemoryArm32Backend, ptr: u32, r: bool)
    requires
        free_effect(b0, b1, ptr, r),
    ensures
        free_step(
            b0.runtime.heap,
            b0.mem(),
            b0.diag.writes@,
            b1.runtime.heap,
            b1.mem(),
            b1.diag.writes@,
            ptr,
        ),
        heap_frame(b0, b1),
{
}

/// Copying `n` bytes from `src` to `dst` when both spans are mapped;
/// nothing changes otherwise.
pub open spec fn copy_effect(b0: MemoryArm32Backend, b1: MemoryArm32Backend, src: u32, dst: u32, n: u32) -> bool {
    if n > 0 && span_mapped(b0.mem(), src, n) && span_mapped(b0.mem(), dst, n) {
        &&& heap_frame(b0, b1)
        &&& b1.runtime.heap == b0.runtime.heap
        &&& b1.mem() == write_span(b0.mem(), dst, span_bytes(b0.mem(), src, n))
        &&& b1.diag.writes@ == b0.diag.writes@.push((dst, n as usize))
    } else {
        b1 == b0
    }
}

/// `b1` is `b0` with a reallocation from `old_ptr` to `new_ptr` of `size`
/// bytes counted and recorded (and the last error cleared if `clear_error`).
pub open spec fn realloc_record(
    b0: MemoryArm32Backend,
    b1: MemoryArm32Backend,
    old_ptr: u32,
    new_ptr: u32,
    size: u32,
    clear_error: bool,
) -> bool {
    let h0 = b0.runtime.heap;
    &&& heap_frame(b0, b1)
    &&& b1.mem() == b0.mem()
    &&& b1.diag.writes == b0.diag.writes
    &&& b1.runtime.heap == (SyntheticHeapState {
        synthetic_heap_reallocs: sat_add(h0.synthetic_heap_reallocs, 1),
        synthetic_heap_last_realloc_old_ptr: Some(old_ptr),
        synthetic_heap_last_realloc_new_ptr: Some(new_ptr),
        synthetic_heap_last_realloc_size: Some(size),
        synthetic_heap_last_error: if clear_error {
            None
        } else {
            h0.synthetic_heap_last_error
        },
        ..h0
    })
}

/// The smaller of `a` and `b`.
pub open spec fn min_u32(a: u32, b: u32) -> u32 {
    if a < b {
        a
    } else {
        b
    }
}

/// The tag of the block that `realloc(ptr, size)` allocates.
pub open spec fn realloc_tag(ptr: u32, size: u32) -> Seq<char> {
    "realloc("@ + hex_prefixed(ptr as nat, 8) + ","@ + dec_seq(size as nat) + ")"@
}

/// What moving the live block at `ptr` to a new block of `size` bytes does:
/// allocate, copy the first `min(old size, size)` bytes, free the old block,
/// record the reallocation; or fail with null and the reason recorded.
pub open spec fn realloc_move_effect(b0: MemoryArm32Backend, b1: MemoryArm32Backend, ptr: u32, size: u32, r: u32) -> bool {
    let a0 = b0.runtime.heap.synthetic_heap_allocations@;
    let copy_len = min_u32(a0[block_index(a0, ptr)].size, size);
    match alloc_outcome(b0, size) {
        None => r == 0 && only_heap_error_set(b0, b1, alloc_error(b0, size)),
        Some((start, reserved)) => {
            &&& r == start
            &&& exists|m1: MemoryArm32Backend, m2: MemoryArm32Backend, m3: MemoryArm32Backend|
                #![trigger guest_alloc_effect(b0, m1, size, false, realloc_tag(ptr, size), start), copy_effect(m1, m2, ptr, start, copy_len), free_effect(m2, m3, ptr, true)]
                guest_alloc_effect(b0, m1, size, false, realloc_tag(ptr, size), start) && copy_effect(
                    m1,
                    m2,
                    ptr,
                    start,
                    copy_len,
                ) && free_effect(m2, m3, ptr, true) && realloc_record(m3, b1, ptr, start, size, true)
            &&& span_mapped(b0.mem(), ptr, copy_len) ==> span_mapped(b1.mem(), start, copy_len) && span_bytes(
                b1.mem(),
                start,
                copy_len,
            ) == span_bytes(b0.mem(), ptr, copy_len)
        },
    }
}

/// The allocation, copy, free and bookkeeping steps of a move make up
/// `realloc_move_effect`.
proof fn lemma_realloc_move_conclude(
    b0: MemoryArm32Backend,
    m1: MemoryArm32Backend,
    m2: MemoryArm32Backend,
    m3: MemoryArm32Backend,
    b1: MemoryArm32Backend,
    ptr: u32,
    size: u32,
    start: u32,
    copy_len: u32,
)
    requires
        alloc_outcome(b0, size) matches Some((s, _)) && s == start,
        copy_len == min_u32(
            b0.runtime.heap.synthetic_heap_allocations@[block_index(b0.runtime.heap.synthetic_heap_allocations@, ptr)].size,
            size,
        ),
        guest_alloc_effect(b0, m1, size, false, realloc_tag(ptr, size), start),
        copy_effect(m1, m2, ptr, start, copy_len),
        free_effect(m2, m3, ptr, true),
        realloc_record(m3, b1, ptr, start, size, true),
        span_mapped(b0.mem(), ptr, copy_len) ==> span_mapped(b1.mem(), start, copy_len) && span_bytes(
            b1.mem(),
            start,
            copy_len,
        ) == span_bytes(b0.mem(), ptr, copy_len),
    ensures
        realloc_move_effect(b0, b1, ptr, size, start),
{
}

/// `n` copies of `b`.
pub fn fill_vec(n: u32, b: u8) -> (v: Vec<u8>)
    ensures
        v@ == fill_seq(n as nat, b),
{
    let mut v: Vec<u8> = Vec::new();
    let mut i: u32 = 0;
    while i < n
        invariant
            i <= n,
            v@ == fill_seq(i as nat, b),
        decreases n - i,
    {
        v.push(b);
        i = i + 1;
        assert(v@ =~= fill_seq(i as nat, b));
    }
    v
}

/// The tag of the block that `realloc(ptr, size)` allocates.
fn realloc_tag_string(ptr: u32, size: u32) -> (s: String)
    ensures
        s@ == realloc_tag(ptr, size),
{
    let mut tag = String::new();
    tag.append("realloc(");
    push_hex_prefixed(&mut tag, ptr as u64, 8);
    tag.append(",");
    push_dec(&mut tag, size as u64);
    tag.append(")");
    tag
}

/// After the new block is placed, the old block's first `copy_len` bytes
/// are untouched and the new block's first `copy_len` bytes are mapped.
proof fn lemma_realloc_alloc_step(
    m0: MemoryArm32Backend,
    m1: MemoryArm32Backend,
    ptr: u32,
    i: int,
    size: u32,
    start: u32,
    copy_len: u32,
)
    requires
        m0.wf(),
        m0.runtime.heap.heap_wf(),
        size != 0,
        0 <= i < m0.runtime.heap.synthetic_heap_allocations@.len(),
        m0.runtime.heap.synthetic_heap_allocations@[i].ptr == ptr,
        copy_len <= m0.runtime.heap.synthetic_heap_allocations@[i].size,
        copy_len <= size,
        alloc_outcome(m0, size) == Some((start, (size + SYNTHETIC_HEAP_GUARD_BYTES) as u32)),
        m1.mem() == alloc_fill(m0.mem(), start, size, (size + SYNTHETIC_HEAP_GUARD_BYTES) as u32, false),
        start >= m0.runtime.heap.synthetic_heap_cursor,
    ensures
        span_mapped(m1.mem(), start, copy_len),
        span_mapped(m0.mem(), ptr, copy_len) ==> span_mapped(m1.mem(), ptr, copy_len) && span_bytes(
            m1.mem(),
            ptr,
            copy_len,
        ) == span_bytes(m0.mem(), ptr, copy_len),
{
    let reserved = (size + SYNTHETIC_HEAP_GUARD_BYTES) as u32;
    let fill = fill_seq(SYNTHETIC_HEAP_GUARD_BYTES as nat, SYNTHETIC_HEAP_GUARD_FILL);
    let existing = m0.runtime.heap.synthetic_heap_allocations@[i];
    assert(block_wf(existing, m0.runtime.heap.synthetic_heap_cursor));
    assert(((reserved - size) as nat) == SYNTHETIC_HEAP_GUARD_BYTES as nat);
    lemma_subspan_mapped(m0.mem(), start, reserved, (start + size) as u32, SYNTHETIC_HEAP_GUARD_BYTES);
    lemma_subspan_mapped(m0.mem(), start, reserved, start, copy_len);
    lemma_write_keeps_mapped(m0.mem(), (start + size) as u32, fill, start, copy_len);
    if span_mapped(m0.mem(), ptr, copy_len) {
        if copy_len > 0 {
            lemma_write_preserves_disjoint(m0.mem(), (start + size) as u32, fill, ptr, copy_len);
        } else {
            lemma_write_keeps_mapped(m0.mem(), (start + size) as u32, fill, ptr, copy_len);
        }
    }
}

/// The block that starts at `ptr` is still block `i` after a block was
/// appended behind it.
proof fn lemma_realloc_old_block_found(h: SyntheticHeapState, ptr: u32, i: int)
    requires
        h.heap_wf(),
        0 <= i < h.synthetic_heap_allocations@.len(),
        h.synthetic_heap_allocations@[i].ptr == ptr,
    ensures
        has_block(h.synthetic_heap_allocations@, ptr),
        block_index(h.synthetic_heap_allocations@, ptr) == i,
{
    let a = h.synthetic_heap_allocations@;
    assert(has_block(a, ptr));
    let k = block_index(a, ptr);
    if k != i {
        if k < i {
            assert(a[k].ptr + a[k].reserved_size <= a[i].ptr);
        } else {
            assert(a[i].ptr + a[i].reserved_size <= a[k].ptr);
        }
        assert(block_wf(a[i], h.synthetic_heap_cursor));
    }
}

/// Scribbling over the freed block keeps the copied bytes of the new block.
proof fn lemma_realloc_free_step(
    m2: MemoryArm32Backend,
    m3: MemoryArm32Backend,
    ptr: u32,
    old_reserved: u32,
    start: u32,
    copy_len: u32,
)
    requires
        m2.wf(),
        ptr + old_reserved <= start,
        copy_len > 0,
        span_mapped(m2.mem(), start, copy_len),
        span_mapped(m2.mem(), ptr, old_reserved) ==> m3.mem() == write_span(
            m2.mem(),
            ptr,
            fill_seq(old_reserved as nat, SYNTHETIC_HEAP_FREED_FILL),
        ),
        !span_mapped(m2.mem(), ptr, old_reserved) ==> m3.mem() == m2.mem(),
        old_reserved > 0,
    ensures
        span_mapped(m3.mem(), start, copy_len),
        span_bytes(m3.mem(), start, copy_len) == span_bytes(m2.mem(), start, copy_len),
{
    if span_mapped(m2.mem(), ptr, old_reserved) {
        lemma_write_preserves_disjoint(
            m2.mem(),
            ptr,
            fill_seq(old_reserved as nat, SYNTHETIC_HEAP_FREED_FILL),
            start,
            copy_len,
        );
    }
}

impl MemoryArm32Backend {
    /// Number of heap blocks that are not freed.
    pub fn active_synthetic_heap_allocations(&self) -> (n: u32)
        requires
            self.runtime.heap.heap_wf(),
        ensures
            n == active_count(self.runtime.heap.synthetic_heap_allocations@),
    {
        self.runtime.heap.active_synthetic_heap_allocations()
    }

    /// Bytes reserved, guards included, by the heap blocks that are not freed.
    pub fn synthetic_heap_reserved_bytes(&self) -> (n: u32)
        requires
            self.runtime.heap.heap_wf(),
        ensures
            n == active_reserved(self.runtime.heap.synthetic_heap_allocations@),
    {
        let ghost a = self.runtime.heap.synthetic_heap_allocations@;
        let ghost cursor = self.runtime.heap.synthetic_heap_cursor;
        let mut n: u32 = 0;
        let mut i: usize = 0;
        while i < self.runtime.heap.synthetic_heap_allocations.len()
            invariant
                i <= a.len(),
                a == self.runtime.heap.synthetic_heap_allocations@,
                n == active_reserved(a.take(i as int)),
                self.runtime.heap.heap_wf(),
                cursor == self.runtime.heap.synthetic_heap_cursor,
            decreases a.len() - i,
        {
            proof {
                let t = a.take(i + 1);
                assert(t.drop_last() =~= a.take(i as int));
                assert(forall|j: int| 0 <= j < t.len() ==> t[j] == a[j]);
                lemma_active_reserved_bound(t, cursor);
            }
            let block = &self.runtime.heap.synthetic_heap_allocations[i];
            if !block.freed {
                n = n + block.reserved_size;
            }
            i = i + 1;
        }
        proof {
            assert(a.take(a.len() as int) =~= a);
        }
        n
    }

    /// The error of an exhausted heap that could not fit `size` bytes.
    pub fn synthetic_heap_bounds_error(&self, size: u32) -> (e: CoreError)
        ensures
            e is Backend,
            e.spec_message() == heap_exhausted_message(
                size,
                self.runtime.heap.synthetic_heap_cursor,
                self.runtime.heap.synthetic_heap_end,
            ),
    {
        let mut msg = String::new();
        msg.append("synthetic heap exhausted: need ");
        push_dec(&mut msg, size as u64);
        msg.append(" bytes in [");
        push_hex_prefixed(&mut msg, self.runtime.heap.synthetic_heap_cursor as u64, 8);
        msg.append(", ");
        push_hex_prefixed(&mut msg, self.runtime.heap.synthetic_heap_end as u64, 8);
        msg.append(")");
        CoreError::Backend(msg)
    }

    /// Finds room for `requested_size` bytes (at least one) plus
    /// `guard_bytes`, aligned to `align` (a power of two; zero counts as one),
    /// at the bump cursor. Returns the block start and the reserved size; the
    /// heap is not changed.
    pub fn reserve_synthetic_heap_block(&self, requested_size: u32, align: u32, guard_bytes: u32) -> (r: CoreResult<
        (u32, u32),
    >)
        ensures
            match spec_reserve(
                self.runtime.heap.synthetic_heap_cursor,
                self.runtime.heap.synthetic_heap_end,
                requested_size,
                align,
                guard_bytes,
            ) {
                Ok(v) => r == Ok::<(u32, u32), CoreError>(v),
                Err(m) => r is Err && r->Err_0 is Backend && r->Err_0.spec_message() == m,
            },
    {
        let align = if align == 0 { 1 } else { align };
        let requested_size = if requested_size == 0 { 1 } else { requested_size };
        let cursor = self.runtime.heap.synthetic_heap_cursor;
        let start = match cursor.checked_add(align - 1) {
            Some(v) => v & !(align - 1),
            None => return Err(CoreError::Backend(String::from_str("synthetic heap overflow"))),
        };
        let reserved_size = match requested_size.checked_add(guard_bytes) {
            Some(v) => v,
            None => return Err(CoreError::Backend(String::from_str("synthetic heap overflow"))),
        };
        let end = match start.checked_add(reserved_size) {
            Some(v) => v,
            None => return Err(CoreError::Backend(String::from_str("synthetic heap overflow"))),
        };
        if end > self.runtime.heap.synthetic_heap_end {
            return Err(self.synthetic_heap_bounds_error(reserved_size));
        }
        Ok((start, reserved_size))
    }

    /// Places a block of `requested_size` bytes (at least one) on the heap,
    /// 16-byte aligned and followed by 16 guard bytes, tagged `tag`. The
    /// block is zeroed when `zero_fill` is set; otherwise only its guard bytes
    /// are set to `0xCD`. The reserved span is logged as written. On failure
    /// nothing changes.
    pub fn alloc_synthetic_heap_block(&mut self, requested_size: u32, zero_fill: bool, tag: String) -> (r:
        CoreResult<u32>)
        requires
            old(self).wf(),
            old(self).runtime.heap.heap_wf(),
        ensures
            final(self).wf(),
            final(self).runtime.heap.heap_wf(),
            ({
                let h0 = old(self).runtime.heap;
                let req: u32 = if requested_size == 0 { 1 } else { requested_size };
                match spec_reserve(h0.synthetic_heap_cursor, h0.synthetic_heap_end, req, 16, 16) {
                    Err(m) => r is Err && r->Err_0 is Backend && r->Err_0.spec_message() == m && *final(self)
                        == *old(self),
                    Ok((start, reserved)) => if !span_mapped(old(self).mem(), start, reserved) {
                        &&& r is Err
                        &&& r->Err_0 is Backend
                        &&& r->Err_0.spec_message() == materialize_message(start)
                        &&& *final(self) == *old(self)
                    } else {
                        &&& r == Ok::<u32, CoreError>(start)
                        &&& heap_frame(*old(self), *final(self))
                        &&& heap_after_alloc(h0, final(self).runtime.heap, start, req, reserved, tag@)
                        &&& final(self).mem() == alloc_fill(old(self).mem(), start, req, reserved, zero_fill)
                        &&& final(self).diag.writes@ == old(self).diag.writes@.push((start, reserved as usize))
                    },
                }
            }),
            r matches Ok(p) ==> p % 16 == 0 && p >= old(self).runtime.heap.synthetic_heap_cursor && forall|i: int|
                0 <= i < old(self).runtime.heap.synthetic_heap_allocations@.len() ==> (#[trigger] old(
                self,
            ).runtime.heap.synthetic_heap_allocations@[i]).ptr + old(self).runtime.heap.synthetic_heap_allocations@[i].reserved_size
                <= p,
    {
        let requested_size = if requested_size == 0 { 1 } else { requested_size };
        let (start, reserved_size) = match self.reserve_synthetic_heap_block(
            requested_size,
            SYNTHETIC_HEAP_ALIGN,
            SYNTHETIC_HEAP_GUARD_BYTES,
        ) {
            Ok(v) => v,
            Err(e) => return Err(e),
        };
        proof {
            lemma_align16(old(self).runtime.heap.synthetic_heap_cursor);
        }
        let idx = match self.find_region_index(start, reserved_size) {
            Some(i) => i,
            None => {
                let mut msg = String::new();
                msg.append("backend cannot materialize synthetic heap block at ");
                push_hex_prefixed(&mut msg, start as u64, 8);
                return Err(CoreError::Backend(msg));
            },
        };
        if zero_fill {
            let fill = fill_vec(reserved_size, 0);
            self.splice_into_region(idx, start, fill.as_slice());
        } else {
            let fill = fill_vec(reserved_size - requested_size, SYNTHETIC_HEAP_GUARD_FILL);
            self.splice_into_region(idx, start + requested_size, fill.as_slice());
        }
        self.diag.writes.push((start, reserved_size as usize));
        let heap = &mut self.runtime.heap;
        heap.synthetic_heap_cursor = start + reserved_size;
        heap.synthetic_heap_allocations.push(
            SyntheticHeapAllocation {
                ptr: start,
                size: requested_size,
                reserved_size,
                freed: false,
                tag,
            },
        );
        heap.synthetic_heap_allocations_total = heap.synthetic_heap_allocations_total.saturating_add(1);
        heap.synthetic_heap_bytes_active = heap.synthetic_heap_bytes_active.saturating_add(requested_size);
        if heap.synthetic_heap_bytes_active > heap.synthetic_heap_bytes_peak {
            heap.synthetic_heap_bytes_peak = heap.synthetic_heap_bytes_active;
        }
        heap.synthetic_heap_last_alloc_ptr = Some(start);
        heap.synthetic_heap_last_alloc_size = Some(requested_size);
        heap.synthetic_heap_last_error = None;
        proof {
            let a0 = old(self).runtime.heap.synthetic_heap_allocations@;
            let a1 = self.runtime.heap.synthetic_heap_allocations@;
            assert(a1.drop_last() =~= a0);
            assert forall|i: int| 0 <= i < a1.len() implies block_wf(#[trigger] a1[i], self.runtime.heap.synthetic_heap_cursor) by {
                if i < a0.len() {
                    assert(a1[i] == a0[i]);
                    assert(block_wf(a0[i], old(self).runtime.heap.synthetic_heap_cursor));
                }
            }
            assert forall|i: int, j: int| 0 <= i < j < a1.len() implies #[trigger] a1[i].ptr + a1[i].reserved_size <= #[trigger] a1[j].ptr by {
                assert(a1[i] == a0[i]);
                assert(block_wf(a0[i], old(self).runtime.heap.synthetic_heap_cursor));
                if j < a0.len() {
                    assert(a1[j] == a0[j]);
                }
            }
            assert forall|i: int| 0 <= i < a0.len() implies (#[trigger] a0[i]).ptr + a0[i].reserved_size <= start by {
                assert(block_wf(a0[i], old(self).runtime.heap.synthetic_heap_cursor));
            }
        }
        Ok(start)
    }

    /// Frees the block that starts at `ptr`. Freeing null succeeds and does
    /// nothing else; freeing an unknown or already freed pointer fails and
    /// records why. A freed block is marked, not removed, and its reserved
    /// bytes are overwritten with `0xDD` (and logged) when they are mapped.
    pub fn free_synthetic_heap_block(&mut self, ptr: u32) -> (r: bool)
        requires
            old(self).wf(),
            old(self).runtime.heap.heap_wf(),
        ensures
            final(self).wf(),
            final(self).runtime.heap.heap_wf(),
            free_effect(*old(self), *final(self), ptr, r),
    {
        if ptr == 0 {
            self.runtime.heap.synthetic_heap_last_freed_ptr = Some(0);
            self.runtime.heap.synthetic_heap_last_error = None;
            return true;
        }
        let i = match self.runtime.heap.find_allocation(ptr) {
            Some(i) => i,
            None => {
                let mut msg = String::new();
                msg.append("free on unknown pointer ");
                push_hex_prefixed(&mut msg, ptr as u64, 8);
                self.runtime.heap.synthetic_heap_last_error = Some(msg);
                return false;
            },
        };
        if self.runtime.heap.synthetic_heap_allocations[i].freed {
            let mut msg = String::new();
            msg.append("double free at ");
            push_hex_prefixed(&mut msg, ptr as u64, 8);
            self.runtime.heap.synthetic_heap_last_error = Some(msg);
            return false;
        }
        let size = self.runtime.heap.synthetic_heap_allocations[i].size;
        let reserved = self.runtime.heap.synthetic_heap_allocations[i].reserved_size;
        self.runtime.heap.synthetic_heap_allocations[i].freed = true;
        let heap = &mut self.runtime.heap;
        heap.synthetic_heap_frees = heap.synthetic_heap_frees.saturating_add(1);
        heap.synthetic_heap_bytes_active = heap.synthetic_heap_bytes_active.saturating_sub(size);
        heap.synthetic_heap_last_freed_ptr = Some(ptr);
        heap.synthetic_heap_last_error = None;
        proof {
            let a0 = old(self).runtime.heap.synthetic_heap_allocations@;
            let a1 = self.runtime.heap.synthetic_heap_allocations@;
            assert(a1 =~= a0.update(i as int, SyntheticHeapAllocation { freed: true, ..a0[i as int] }));
            assert forall|j: int| 0 <= j < a1.len() implies block_wf(#[trigger] a1[j], self.runtime.heap.synthetic_heap_cursor) by {
                assert(block_wf(a0[j], old(self).runtime.heap.synthetic_heap_cursor));
            }
            assert forall|j: int, k: int| 0 <= j < k < a1.len() implies #[trigger] a1[j].ptr + a1[j].reserved_size <= #[trigger] a1[k].ptr by {
                assert(a0[j].ptr + a0[j].reserved_size <= a0[k].ptr);
            }
        }
        match self.find_region_index(ptr, reserved) {
            Some(idx) => {
                proof {
                    lemma_span_region_unique(self.mem(), idx as int, ptr, reserved);
                }
                let fill = fill_vec(reserved, SYNTHETIC_HEAP_FREED_FILL);
                self.splice_into_region(idx, ptr, fill.as_slice());
                self.diag.writes.push((ptr, reserved as usize));
            },
            None => {},
        }
        true
    }

    /// Guest `malloc(size)`: the block's address, or null with the reason
    /// recorded as the heap's last error.
    pub fn handle_guest_malloc(&mut self, size: u32) -> (r: u32)
        requires
            old(self).wf(),
            old(self).runtime.heap.heap_wf(),
        ensures
            final(self).wf(),
            final(self).runtime.heap.heap_wf(),
            guest_alloc_effect(*old(self), *final(self), size, false, "malloc("@ + dec_seq(size as nat) + ")"@, r),
    {
        let mut tag = String::new();
        tag.append("malloc(");
        push_dec(&mut tag, size as u64);
        tag.append(")");
        match self.alloc_synthetic_heap_block(size, false, tag) {
            Ok(ptr) => ptr,
            Err(err) => {
                self.runtime.heap.synthetic_heap_last_error = Some(err.message().clone());
                0
            },
        }
    }

    /// Guest `calloc(count, size)`: a zeroed block of `count * size` bytes,
    /// or null with the reason recorded (including a product that overflows).
    pub fn handle_guest_calloc(&mut self, count: u32, size: u32) -> (r: u32)
        requires
            old(self).wf(),
            old(self).runtime.heap.heap_wf(),
        ensures
            final(self).wf(),
            final(self).runtime.heap.heap_wf(),
            count * size > u32::MAX ==> r == 0 && only_heap_error_set(
                *old(self),
                *final(self),
                "calloc overflow count="@ + dec_seq(count as nat) + " size="@ + dec_seq(size as nat),
            ),
            count * size <= u32::MAX ==> guest_alloc_effect(
                *old(self),
                *final(self),
                (count * size) as u32,
                true,
                "calloc("@ + dec_seq(count as nat) + ","@ + dec_seq(size as nat) + ")"@,
                r,
            ),
    {
        let total = match count.checked_mul(size) {
            Some(t) => t,
            None => {
                let mut msg = String::new();
                msg.append("calloc overflow count=");
                push_dec(&mut msg, count as u64);
                msg.append(" size=");
                push_dec(&mut msg, size as u64);
                self.runtime.heap.synthetic_heap_last_error = Some(msg);
                return 0;
            },
        };
        let mut tag = String::new();
        tag.append("calloc(");
        push_dec(&mut tag, count as u64);
        tag.append(",");
        push_dec(&mut tag, size as u64);
        tag.append(")");
        match self.alloc_synthetic_heap_block(total, true, tag) {
            Ok(ptr) => ptr,
            Err(err) => {
                self.runtime.heap.synthetic_heap_last_error = Some(err.message().clone());
                0
            },
        }
    }

    /// Copies `bytes` onto the heap, followed by a NUL byte when
    /// `zero_terminated`, and returns the block's address. The copy reads
    /// back unchanged at that address.
    #[verifier::spinoff_prover]
    pub fn alloc_synthetic_guest_bytes(&mut self, bytes: &[u8], zero_terminated: bool) -> (r: CoreResult<u32>)
        requires
            old(self).wf(),
            old(self).runtime.heap.heap_wf(),
            bytes@.len() < u32::MAX,
        ensures
            final(self).wf(),
            final(self).runtime.heap.heap_wf(),
            heap_frame(*old(self), *final(self)),
            ({
                let n = (bytes@.len() + if zero_terminated { 1int } else { 0int }) as u32;
                match alloc_outcome(*old(self), n) {
                    Some((start, reserved)) => {
                        &&& r == Ok::<u32, CoreError>(start)
                        &&& heap_after_alloc(
                            old(self).runtime.heap,
                            final(self).runtime.heap,
                            start,
                            if n == 0 { 1u32 } else { n },
                            reserved,
                            "synthetic-bytes"@,
                        )
                        &&& bytes@.len() > 0 ==> span_mapped(final(self).mem(), start, bytes@.len() as u32)
                            && span_bytes(final(self).mem(), start, bytes@.len() as u32) == bytes@
                        &&& zero_terminated ==> span_mapped(final(self).mem(), (start + bytes@.len()) as u32, 1)
                            && span_bytes(final(self).mem(), (start + bytes@.len()) as u32, 1) == seq![0u8]
                    },
                    None => {
                        &&& r is Err
                        &&& r->Err_0 is Backend
                        &&& r->Err_0.spec_message() == alloc_error(*old(self), n)
                        &&& *final(self) == *old(self)
                    },
                }
            }),
    {
        let extra: usize = if zero_terminated { 1 } else { 0 };
        let size = (bytes.len() + extra) as u32;
        let ptr = match self.alloc_synthetic_heap_block(size, false, String::from_str("synthetic-bytes")) {
            Ok(p) => p,
            Err(e) => return Err(e),
        };
        let ghost m0 = old(self).mem();
        let ghost m1 = self.mem();
        let ghost req: u32 = if size == 0 { 1 } else { size };
        let ghost reserved: u32 = (req + SYNTHETIC_HEAP_GUARD_BYTES) as u32;
        proof {
            lemma_write_span_wf(m0, (ptr + req) as u32, fill_seq((reserved - req) as nat, SYNTHETIC_HEAP_GUARD_FILL));
            if bytes@.len() > 0 {
                lemma_subspan_mapped(m0, ptr, reserved, ptr, bytes@.len() as u32);
                lemma_write_keeps_mapped(
                    m0,
                    (ptr + req) as u32,
                    fill_seq((reserved - req) as nat, SYNTHETIC_HEAP_GUARD_FILL),
                    ptr,
                    bytes@.len() as u32,
                );
            }
        }
        match self.write_bytes(ptr, bytes) {
            Ok(()) => {},
            Err(e) => return Err(e),
        }
        let ghost m2 = self.mem();
        proof {
            if bytes@.len() > 0 {
                lemma_read_after_write(m1, ptr, bytes@);
            }
        }
        if zero_terminated {
            let at = ptr + bytes.len() as u32;
            proof {
                lemma_subspan_mapped(m0, ptr, reserved, at, 1);
                lemma_write_keeps_mapped(
                    m0,
                    (ptr + req) as u32,
                    fill_seq((reserved - req) as nat, SYNTHETIC_HEAP_GUARD_FILL),
                    at,
                    1,
                );
                if bytes@.len() > 0 {
                    lemma_write_keeps_mapped(m1, ptr, bytes@, at, 1);
                    lemma_write_span_wf(m1, ptr, bytes@);
                }
            }
            match self.write_u8(at, 0) {
                Ok(()) => {},
                Err(e) => return Err(e),
            }
            proof {
                lemma_read_after_write(m2, at, seq![0u8]);
                if bytes@.len() > 0 {
                    lemma_write_preserves_disjoint(m2, at, seq![0u8], ptr, bytes@.len() as u32);
                }
            }
        }
        Ok(ptr)
    }

    /// Guest `realloc(ptr, size)`. A null `ptr` allocates; a zero `size`
    /// frees and returns null; an unknown or freed `ptr` fails with null and
    /// the reason recorded. Otherwise the block moves to a new one whose first
    /// `min(old size, size)` bytes are the old block's, and the new address
    /// is returned.
    pub fn handle_guest_realloc(&mut self, ptr: u32, size: u32) -> (r: u32)
        requires
            old(self).wf(),
            old(self).runtime.heap.heap_wf(),
        ensures
            final(self).wf(),
            final(self).runtime.heap.heap_wf(),
            ({
                let a0 = old(self).runtime.heap.synthetic_heap_allocations@;
                if ptr == 0 {
                    guest_alloc_effect(*old(self), *final(self), size, false, "malloc("@ + dec_seq(size as nat) + ")"@, r)
                } else if size == 0 {
                    &&& r == 0
                    &&& exists|mid: MemoryArm32Backend, freed: bool| #[trigger] free_effect(*old(self), mid, ptr, freed)
                        && realloc_record(mid, *final(self), ptr, 0, 0, false)
                } else if !has_block(a0, ptr) {
                    r == 0 && only_heap_error_set(
                        *old(self),
                        *final(self),
                        "realloc on unknown pointer "@ + hex_prefixed(ptr as nat, 8),
                    )
                } else if a0[block_index(a0, ptr)].freed {
                    r == 0 && only_heap_error_set(
                        *old(self),
                        *final(self),
                        "realloc on freed pointer "@ + hex_prefixed(ptr as nat, 8),
                    )
                } else {
                    realloc_move_effect(*old(self), *final(self), ptr, size, r)
                }
            }),
    {
        if ptr == 0 {
            return self.handle_guest_malloc(size);
        }
        if size == 0 {
            let freed = self.free_synthetic_heap_block(ptr);
            let ghost mid = *self;
            let heap = &mut self.runtime.heap;
            heap.synthetic_heap_reallocs = heap.synthetic_heap_reallocs.saturating_add(1);
            heap.synthetic_heap_last_realloc_old_ptr = Some(ptr);
            heap.synthetic_heap_last_realloc_new_ptr = Some(0);
            heap.synthetic_heap_last_realloc_size = Some(0);
            proof {
                assert(free_effect(*old(self), mid, ptr, freed));
            }
            return 0;
        }
        let i = match self.runtime.heap.find_allocation(ptr) {
            Some(i) => i,
            None => {
                let mut msg = String::new();
                msg.append("realloc on unknown pointer ");
                push_hex_prefixed(&mut msg, ptr as u64, 8);
                self.runtime.heap.synthetic_heap_last_error = Some(msg);
                return 0;
            },
        };
        if self.runtime.heap.synthetic_heap_allocations[i].freed {
            let mut msg = String::new();
            msg.append("realloc on freed pointer ");
            push_hex_prefixed(&mut msg, ptr as u64, 8);
            self.runtime.heap.synthetic_heap_last_error = Some(msg);
            return 0;
        }
        self.realloc_move(ptr, i, size)
    }

    /// Moves the live block `i`, which starts at `ptr`, to a new block of
    /// `size` bytes (see `handle_guest_realloc`).
    #[verifier::spinoff_prover]
    #[verifier::rlimit(100)]
    fn realloc_move(&mut self, ptr: u32, i: usize, size: u32) -> (r: u32)
        requires
            old(self).wf(),
            old(self).runtime.heap.heap_wf(),
            ptr != 0,
            size != 0,
            i < old(self).runtime.heap.synthetic_heap_allocations@.len(),
            old(self).runtime.heap.synthetic_heap_allocations@[i as int].ptr == ptr,
            i == block_index(old(self).runtime.heap.synthetic_heap_allocations@, ptr),
            !old(self).runtime.heap.synthetic_heap_allocations@[i as int].freed,
        ensures
            final(self).wf(),
            final(self).runtime.heap.heap_wf(),
            realloc_move_effect(*old(self), *final(self), ptr, size, r),
    {
        let existing_size = self.runtime.heap.synthetic_heap_allocations[i].size;
        let ghost existing = self.runtime.heap.synthetic_heap_allocations@[i as int];
        let ghost m0 = *self;
        let tag = realloc_tag_string(ptr, size);
        let new_ptr = match self.alloc_synthetic_heap_block(size, false, tag) {
            Ok(p) => p,
            Err(err) => {
                self.runtime.heap.synthetic_heap_last_error = Some(err.message().clone());
                proof {
                    assert(alloc_outcome(m0, size) is None);
                    assert(only_heap_error_set(m0, *self, alloc_error(m0, size)));
                }
                return 0;
            },
        };
        let ghost m1 = *self;
        proof {
            assert(alloc_outcome(m0, size) == Some((new_ptr, (size + SYNTHETIC_HEAP_GUARD_BYTES) as u32)));
            assert(guest_alloc_effect(m0, m1, size, false, realloc_tag(ptr, size), new_ptr));
        }
        let copy_len = if existing_size < size { existing_size } else { size };
        proof {
            lemma_realloc_alloc_step(m0, m1, ptr, i as int, size, new_ptr, copy_len);
        }
        match self.read_guest_bytes(ptr, copy_len) {
            Ok(bytes) => {
                let _ = self.write_bytes(new_ptr, bytes.as_slice());
            },
            Err(_) => {},
        }
        let ghost m2 = *self;
        proof {
            if span_mapped(m1.mem(), ptr, copy_len) {
                lemma_read_after_write(m1.mem(), new_ptr, span_bytes(m1.mem(), ptr, copy_len));
            }
            assert(copy_effect(m1, m2, ptr, new_ptr, copy_len));
            lemma_realloc_old_block_found(m1.runtime.heap, ptr, i as int);
        }
        let freed = self.free_synthetic_heap_block(ptr);
        let ghost m3 = *self;
        proof {
            assert(free_effect(m2, m3, ptr, true));
            lemma_realloc_free_step(m2, m3, ptr, existing.reserved_size, new_ptr, copy_len);
        }
        let heap = &mut self.runtime.heap;
        heap.synthetic_heap_reallocs = heap.synthetic_heap_reallocs.saturating_add(1);
        heap.synthetic_heap_last_realloc_old_ptr = Some(ptr);
        heap.synthetic_heap_last_realloc_new_ptr = Some(new_ptr);
        heap.synthetic_heap_last_realloc_size = Some(size);
        heap.synthetic_heap_last_error = None;
        proof {
            assert(realloc_record(m3, *self, ptr, new_ptr, size, true));
            assert(copy_len == min_u32(existing.size, size));
            lemma_realloc_move_conclude(m0, m1, m2, m3, *self, ptr, size, new_ptr, copy_len);
        }
        new_ptr
    }
}

} // verus!
