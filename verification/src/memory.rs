//! Guest address-space bookkeeping: mapped regions, recorded writes and the
//! alignment / protection helpers used when laying out an image.
use vstd::prelude::*;
use crate::error::{CoreError, CoreResult};
use crate::text::{hex_prefixed, push_char, push_hex_prefixed, str_eq};

verus! {

/// Readable mapping.
pub const GUEST_PROT_READ: u32 = 1;
/// Writable mapping.
pub const GUEST_PROT_WRITE: u32 = 2;
/// Executable mapping.
pub const GUEST_PROT_EXEC: u32 = 4;

/// One mapped range of guest memory.
#[derive(Debug, Clone)]
pub struct MemoryRegion {
    pub name: String,
    pub kind: String,
    pub addr: u32,
    pub size: u32,
    pub prot: u32,
}

/// `a + b`, saturated at `u32::MAX`.
pub open spec fn sat_add_u32(a: u32, b: u32) -> u32 {
    if a + b > u32::MAX {
        u32::MAX
    } else {
        (a + b) as u32
    }
}

impl MemoryRegion {
    /// One past the last address of the region, saturated at `u32::MAX`.
    pub open spec fn spec_end(&self) -> u32 {
        sat_add_u32(self.addr, self.size)
    }

    /// One past the last address of the region, saturated at `u32::MAX`.
    pub fn end(&self) -> (r: u32)
        ensures
            r == self.spec_end(),
    {
        self.addr.saturating_add(self.size)
    }
}

/// A write that the guest image loader performed.
#[derive(Debug, Clone)]
pub struct GuestWrite {
    pub addr: u32,
    pub size: u32,
    pub kind: String,
}

/// The set of mapped regions (ordered by start address) and the log of
/// accepted writes.
#[derive(Debug)]
pub struct GuestMemory {
    regions: Vec<MemoryRegion>,
    writes: Vec<GuestWrite>,
}

/// `[addr, end)` intersects region `r`.
pub open spec fn range_overlaps(addr: u32, end: int, r: MemoryRegion) -> bool {
    addr < r.addr + r.size && end > r.addr
}

/// Regions are non-empty, end within the 32-bit address space, and are
/// ordered by address without overlapping.
pub open spec fn regions_wf(s: Seq<MemoryRegion>) -> bool {
    &&& forall|i: int| 0 <= i < s.len() ==> #[trigger] s[i].size > 0 && s[i].addr + s[i].size <= u32::MAX
    &&& forall|i: int, j: int| 0 <= i < j < s.len() ==> #[trigger] s[i].addr + s[i].size <= #[trigger] s[j].addr
}

/// Region `r` covers the whole range `[addr, end)`.
pub open spec fn region_covers(r: MemoryRegion, addr: u32, end: int) -> bool {
    addr >= r.addr && end <= r.addr + r.size
}

/// Region `r` accepts loader writes: it is writable, or it holds image or
/// trampoline bytes.
pub open spec fn region_accepts_writes(r: MemoryRegion) -> bool {
    (r.prot & GUEST_PROT_WRITE) != 0 || r.kind@ == "image"@ || r.kind@ == "trampoline"@
}

/// Some region of `s` covers `[addr, end)`.
pub open spec fn some_region_covers(s: Seq<MemoryRegion>, addr: u32, end: int) -> bool {
    exists|i: int| 0 <= i < s.len() && region_covers(#[trigger] s[i], addr, end)
}

/// Every write of `w` lies inside one region of `s`.
pub open spec fn writes_covered_by(s: Seq<MemoryRegion>, w: Seq<GuestWrite>) -> bool {
    forall|k: int| 0 <= k < w.len() ==> some_region_covers(s, #[trigger] w[k].addr, w[k].addr + w[k].size)
}

/// Message for a region with zero size.
pub open spec fn zero_size_message(name: Seq<char>) -> Seq<char> {
    "region "@ + name + " has zero size"@
}

/// Message for a region that runs past the end of the address space.
pub open spec fn region_overflow_message(name: Seq<char>) -> Seq<char> {
    "region "@ + name + " overflows guest address space"@
}

/// Message for a region that overlaps an existing one.
pub open spec fn overlap_message(new: MemoryRegion, existing: MemoryRegion) -> Seq<char> {
    "region "@ + new.name@ + " overlaps "@ + existing.name@ + " ("@ + hex_prefixed(new.addr as nat, 8)
        + "-"@ + hex_prefixed((new.addr + new.size) as nat, 8) + " vs "@ + hex_prefixed(existing.addr as nat, 8)
        + "-"@ + hex_prefixed((existing.addr + existing.size) as nat, 8) + ")"@
}

/// Message for a write whose end overflows the address space.
pub open spec fn write_overflow_message() -> Seq<char> {
    "guest write overflows guest address space"@
}

/// Message for a write that no single region covers.
pub open spec fn uncovered_write_message(addr: u32, end: u32) -> Seq<char> {
    "guest write "@ + hex_prefixed(addr as nat, 8) + "-"@ + hex_prefixed(end as nat, 8)
        + " is not fully covered by a mapped region"@
}

/// Message for a write into a region that does not accept writes.
pub open spec fn readonly_write_message(addr: u32, end: u32, name: Seq<char>) -> Seq<char> {
    "guest write "@ + hex_prefixed(addr as nat, 8) + "-"@ + hex_prefixed(end as nat, 8)
        + " targets non-writable region "@ + name
}

impl GuestMemory {
    /// The mapped regions, ordered by start address.
    pub closed spec fn spec_regions(&self) -> Seq<MemoryRegion> {
        self.regions@
    }

    /// The accepted writes, oldest first.
    pub closed spec fn spec_writes(&self) -> Seq<GuestWrite> {
        self.writes@
    }

    /// The bookkeeping invariant: regions are ordered and disjoint, and every
    /// recorded write lies inside one of them.
    pub closed spec fn wf(&self) -> bool {
        regions_wf(self.regions@) && writes_covered_by(self.regions@, self.writes@)
    }

    /// An empty address space.
    pub fn new() -> (m: Self)
        ensures
            m.wf(),
            m.spec_regions().len() == 0,
            m.spec_writes().len() == 0,
    {
        GuestMemory { regions: Vec::new(), writes: Vec::new() }
    }

    /// Maps `region`. Fails, leaving the mapping unchanged, when the region
    /// is empty, runs past the end of the address space, or intersects a
    /// region already mapped (the first such region in address order is
    /// named in the message).
    #[verifier::loop_isolation(false)]
    pub fn register_region(&mut self, region: MemoryRegion) -> (r: CoreResult<()>)
        requires
            old(self).wf(),
        ensures
            final(self).wf(),
            final(self).spec_writes() == old(self).spec_writes(),
            r is Ok <==> (region.size > 0 && region.addr + region.size <= u32::MAX && forall|i: int|
                0 <= i < old(self).spec_regions().len() ==> !range_overlaps(
                    region.addr,
                    region.addr + region.size,
                    #[trigger] old(self).spec_regions()[i],
                )),
            r is Ok ==> exists|k: int|
                0 <= k <= old(self).spec_regions().len() && final(self).spec_regions() == old(
                    self,
                ).spec_regions().insert(k, region),
            r is Err ==> final(self).spec_regions() == old(self).spec_regions(),
            region.size == 0 ==> r is Err && r->Err_0 is Memory && r->Err_0.spec_message()
                == zero_size_message(region.name@),
            region.size > 0 && region.addr + region.size > u32::MAX ==> r is Err && r->Err_0 is Memory
                && r->Err_0.spec_message() == region_overflow_message(region.name@),
            r is Err && region.size > 0 && region.addr + region.size <= u32::MAX ==> exists|i: int|
                0 <= i < old(self).spec_regions().len() && range_overlaps(
                    region.addr,
                    region.addr + region.size,
                    old(self).spec_regions()[i],
                ) && (forall|j: int|
                    0 <= j < i ==> !range_overlaps(
                        region.addr,
                        region.addr + region.size,
                        #[trigger] old(self).spec_regions()[j],
                    )) && r->Err_0 is Memory && r->Err_0.spec_message() == overlap_message(
                    region,
                    old(self).spec_regions()[i],
                ),
    {
        if region.size == 0 {
            let mut msg = String::new();
            msg.append("region ");
            msg.append(region.name.as_str());
            msg.append(" has zero size");
            return Err(CoreError::Memory(msg));
        }
        let new_end = match region.addr.checked_add(region.size) {
            Some(e) => e,
            None => {
                let mut msg = String::new();
                msg.append("region ");
                msg.append(region.name.as_str());
                msg.append(" overflows guest address space");
                return Err(CoreError::Memory(msg));
            },
        };
        let mut i: usize = 0;
        while i < self.regions.len()
            invariant
                0 <= i <= self.regions@.len(),
                new_end == region.addr + region.size,
                self.regions@ == old(self).regions@,
                self.writes@ == old(self).writes@,
                old(self).wf(),
                forall|j: int| 0 <= j < i ==> !range_overlaps(region.addr, new_end as int, #[trigger] self.regions@[j]),
            decreases self.regions@.len() - i,
        {
            let existing = &self.regions[i];
            let existing_end = existing.addr + existing.size;
            if region.addr < existing_end && new_end > existing.addr {
                assert(old(self).spec_regions()[i as int] == self.regions@[i as int]);
                assert(range_overlaps(region.addr, new_end as int, old(self).spec_regions()[i as int]));
                let mut msg = String::new();
                msg.append("region ");
                msg.append(region.name.as_str());
                msg.append(" overlaps ");
                msg.append(existing.name.as_str());
                msg.append(" (");
                push_hex_prefixed(&mut msg, region.addr as u64, 8);
                msg.append("-");
                push_hex_prefixed(&mut msg, new_end as u64, 8);
                msg.append(" vs ");
                push_hex_prefixed(&mut msg, existing.addr as u64, 8);
                msg.append("-");
                push_hex_prefixed(&mut msg, existing_end as u64, 8);
                msg.append(")");
                return Err(CoreError::Memory(msg));
            }
            i = i + 1;
        }
        // Insertion point that keeps the regions ordered by address.
        let mut k: usize = 0;
        while k < self.regions.len() && self.regions[k].addr < region.addr
            invariant
                0 <= k <= self.regions@.len(),
                forall|j: int| 0 <= j < k ==> #[trigger] self.regions@[j].addr < region.addr,
            decreases self.regions@.len() - k,
        {
            k = k + 1;
        }
        let ghost old_regions = self.regions@;
        self.regions.insert(k, region);
        proof {
            let s = self.regions@;
            assert(s == old_regions.insert(k as int, region));
            assert(self.spec_regions() == old(self).spec_regions().insert(k as int, region));
            assert forall|a: int, b: int| 0 <= a < b < s.len() implies #[trigger] s[a].addr + s[a].size <= #[trigger] s[b].addr by {
                if a < k && b == k {
                    assert(!range_overlaps(region.addr, new_end as int, old_regions[a]));
                } else if a == k && b > k {
                    assert(!range_overlaps(region.addr, new_end as int, old_regions[b - 1]));
                    if k < old_regions.len() {
                        assert(old_regions[k as int].addr >= region.addr);
                    }
                    assert(old_regions[b - 1].addr >= region.addr) by {
                        if (b - 1) > k {
                            assert(old_regions[k as int].addr + old_regions[k as int].size <= old_regions[b - 1].addr);
                        }
                    }
                }
            }
            assert forall|w: int| 0 <= w < self.writes@.len() implies some_region_covers(
                s,
                #[trigger] self.writes@[w].addr,
                self.writes@[w].addr + self.writes@[w].size,
            ) by {
                let wr = self.writes@[w];
                let q = choose|q: int| 0 <= q < old_regions.len() && region_covers(#[trigger] old_regions[q], wr.addr, wr.addr + wr.size);
                if q < k {
                    assert(old_regions.insert(k as int, region)[q] == old_regions[q]);
                    assert(s[q] == old_regions[q]);
                    assert(region_covers(s[q], wr.addr, wr.addr + wr.size));
                } else {
                    assert(old_regions.insert(k as int, region)[q + 1] == old_regions[q]);
                    assert(s[q + 1] == old_regions[q]);
                    assert(region_covers(s[q + 1], wr.addr, wr.addr + wr.size));
                }
            }
        }
        Ok(())
    }

    /// Number of mapped regions.
    pub fn region_count(&self) -> (n: usize)
        ensures
            n == self.spec_regions().len(),
    {
        self.regions.len()
    }

    /// The mapped regions, ordered by start address.
    pub fn regions(&self) -> (r: &Vec<MemoryRegion>)
        ensures
            r@ == self.spec_regions(),
    {
        &self.regions
    }

    /// The accepted writes, oldest first.
    pub fn writes(&self) -> (w: &Vec<GuestWrite>)
        ensures
            w@ == self.spec_writes(),
    {
        &self.writes
    }

    /// Records a loader write of `size` bytes at `addr`. An empty write is
    /// accepted and not recorded. A non-empty write must end inside the
    /// address space and lie entirely within one mapped region that accepts
    /// writes; otherwise nothing is recorded and an error says why.
    #[verifier::loop_isolation(false)]
    pub fn write_bytes(&mut self, addr: u32, size: u32, kind: String) -> (r: CoreResult<()>)
        requires
            old(self).wf(),
        ensures
            final(self).wf(),
            final(self).spec_regions() == old(self).spec_regions(),
            r is Ok <==> (size == 0 || (addr + size <= u32::MAX && exists|i: int|
                0 <= i < old(self).spec_regions().len() && region_covers(
                    #[trigger] old(self).spec_regions()[i],
                    addr,
                    addr + size,
                ) && region_accepts_writes(old(self).spec_regions()[i]))),
            r is Ok && size > 0 ==> final(self).spec_writes() == old(self).spec_writes().push(
                GuestWrite { addr, size, kind },
            ),
            !(r is Ok && size > 0) ==> final(self).spec_writes() == old(self).spec_writes(),
            size > 0 && addr + size > u32::MAX ==> r is Err && r->Err_0 is Memory
                && r->Err_0.spec_message() == write_overflow_message(),
            size > 0 && addr + size <= u32::MAX && !some_region_covers(old(self).spec_regions(), addr, addr + size)
                ==> r is Err && r->Err_0 is Memory && r->Err_0.spec_message() == uncovered_write_message(
                addr,
                (addr + size) as u32,
            ),
            size > 0 && addr + size <= u32::MAX && some_region_covers(old(self).spec_regions(), addr, addr + size)
                && r is Err ==> r->Err_0 is Memory && exists|i: int|
                0 <= i < old(self).spec_regions().len() && region_covers(
                    #[trigger] old(self).spec_regions()[i],
                    addr,
                    addr + size,
                ) && r->Err_0.spec_message() == readonly_write_message(
                    addr,
                    (addr + size) as u32,
                    old(self).spec_regions()[i].name@,
                ),
    {
        if size == 0 {
            return Ok(());
        }
        let end = match addr.checked_add(size) {
            Some(e) => e,
            None => {
                let mut msg = String::new();
                msg.append("guest write overflows guest address space");
                return Err(CoreError::Memory(msg));
            },
        };
        let mut i: usize = 0;
        while i < self.regions.len()
            invariant
                0 <= i <= self.regions@.len(),
                end == addr + size,
                self.regions@ == old(self).regions@,
                self.writes@ == old(self).writes@,
                old(self).wf(),
                forall|j: int| 0 <= j < i ==> !region_covers(#[trigger] self.regions@[j], addr, end as int),
            decreases self.regions@.len() - i,
        {
            let region = &self.regions[i];
            if addr >= region.addr && end <= region.addr + region.size {
                let writable = (region.prot & GUEST_PROT_WRITE) != 0;
                let is_image = str_eq(region.kind.as_str(), "image");
                let is_trampoline = str_eq(region.kind.as_str(), "trampoline");
                if !writable && !is_image && !is_trampoline {
                    proof {
                        assert forall|q: int| 0 <= q < self.regions@.len() && region_covers(
                            #[trigger] self.regions@[q],
                            addr,
                            end as int,
                        ) implies q == i by {
                            lemma_single_cover(self.regions@, q, i as int, addr, end as int);
                        }
                    }
                    let mut msg = String::new();
                    msg.append("guest write ");
                    push_hex_prefixed(&mut msg, addr as u64, 8);
                    msg.append("-");
                    push_hex_prefixed(&mut msg, end as u64, 8);
                    msg.append(" targets non-writable region ");
                    msg.append(region.name.as_str());
                    return Err(CoreError::Memory(msg));
                }
                let ghost idx = i as int;
                self.writes.push(GuestWrite { addr, size, kind });
                proof {
                    assert forall|w: int| 0 <= w < self.writes@.len() implies some_region_covers(
                        self.regions@,
                        #[trigger] self.writes@[w].addr,
                        self.writes@[w].addr + self.writes@[w].size,
                    ) by {
                        if w == self.writes@.len() - 1 {
                            assert(region_covers(self.regions@[idx], addr, end as int));
                        } else {
                            assert(self.writes@[w] == old(self).writes@[w]);
                        }
                    }
                }
                return Ok(());
            }
            i = i + 1;
        }
        let mut msg = String::new();
        msg.append("guest write ");
        push_hex_prefixed(&mut msg, addr as u64, 8);
        msg.append("-");
        push_hex_prefixed(&mut msg, end as u64, 8);
        msg.append(" is not fully covered by a mapped region");
        Err(CoreError::Memory(msg))
    }
}

/// Mapped regions never overlap and every recorded write stays inside a
/// single mapped region.
pub proof fn lemma_guest_memory_invariant(m: &GuestMemory)
    requires
        m.wf(),
    ensures
        regions_wf(m.spec_regions()),
        writes_covered_by(m.spec_regions(), m.spec_writes()),
        forall|i: int, j: int|
            0 <= i < m.spec_regions().len() && 0 <= j < m.spec_regions().len() && i != j ==> !range_overlaps(
                m.spec_regions()[i].addr,
                m.spec_regions()[i].addr + m.spec_regions()[i].size,
                #[trigger] m.spec_regions()[j],
            ) && #[trigger] m.spec_regions()[i].addr != m.spec_regions()[j].addr,
{
    let s = m.spec_regions();
    assert forall|i: int, j: int|
        0 <= i < s.len() && 0 <= j < s.len() && i != j implies !range_overlaps(
            s[i].addr,
            s[i].addr + s[i].size,
            #[trigger] s[j],
        ) && #[trigger] s[i].addr != s[j].addr by {
        if i < j {
            assert(s[i].addr + s[i].size <= s[j].addr);
        } else {
            assert(s[j].addr + s[j].size <= s[i].addr);
        }
    }
}

/// In well-formed regions at most one region covers a non-empty range.
proof fn lemma_single_cover(s: Seq<MemoryRegion>, a: int, b: int, addr: u32, end: int)
    requires
        regions_wf(s),
        0 <= a < s.len(),
        0 <= b < s.len(),
        addr < end,
        region_covers(s[a], addr, end),
        region_covers(s[b], addr, end),
    ensures
        a == b,
{
    if a < b {
        assert(s[a].addr + s[a].size <= s[b].addr);
    } else if b < a {
        assert(s[b].addr + s[b].size <= s[a].addr);
    }
}

/// Rounds `x` down to a multiple of the power-of-two alignment `a`
/// (clears the bits below `a`).
pub fn align_down(x: u32, a: u32) -> (r: u32)
    requires
        a > 0,
    ensures
        r == x & !((a - 1) as u32),
{
    x & !(a - 1)
}

/// Rounds `x` up to a multiple of the power-of-two alignment `a`. Fails when
/// `a` is zero or when `x + a - 1` overflows.
pub fn align_up_checked(x: u32, a: u32) -> (r: CoreResult<u32>)
    ensures
        a == 0 ==> r is Err && r->Err_0 is Memory && r->Err_0.spec_message() == "invalid alignment"@,
        a > 0 && x + (a - 1) > u32::MAX ==> r is Err && r->Err_0 is Memory && r->Err_0.spec_message()
            == "align_up overflow"@,
        a > 0 && x + (a - 1) <= u32::MAX ==> r == Ok::<u32, CoreError>(
            ((x + (a - 1)) as u32) & !((a - 1) as u32),
        ),
{
    let add = match a.checked_sub(1) {
        Some(v) => v,
        None => {
            let mut msg = String::new();
            msg.append("invalid alignment");
            return Err(CoreError::Memory(msg));
        },
    };
    let bumped = match x.checked_add(add) {
        Some(v) => v,
        None => {
            let mut msg = String::new();
            msg.append("align_up overflow");
            return Err(CoreError::Memory(msg));
        },
    };
    Ok(bumped & !add)
}

/// The guest protection bits named by a Mach-O protection value: bits 1, 2
/// and 4 map to read, write and execute; a value with none of them is
/// treated as read-only.
pub open spec fn spec_mach_prot_to_guest(prot: i32) -> u32 {
    let bits = (if (prot & 1) != 0 { GUEST_PROT_READ } else { 0u32 }) | (if (prot & 2) != 0 {
        GUEST_PROT_WRITE
    } else {
        0u32
    }) | (if (prot & 4) != 0 { GUEST_PROT_EXEC } else { 0u32 });
    if bits == 0 {
        GUEST_PROT_READ
    } else {
        bits
    }
}

/// How Mach-O protections map to guest protections, bit by bit: the guest
/// may write exactly when `VM_PROT_WRITE` (0x2) is set and execute exactly
/// when `VM_PROT_EXECUTE` (0x4) is set; it may read when `VM_PROT_READ`
/// (0x1) is set, or when none of the three is (such a segment stays
/// readable); no other guest bit is ever set.
pub proof fn lemma_mach_prot_to_guest_bits(prot: i32)
    ensures
        (spec_mach_prot_to_guest(prot) & GUEST_PROT_WRITE != 0) == (prot & 2 != 0),
        (spec_mach_prot_to_guest(prot) & GUEST_PROT_EXEC != 0) == (prot & 4 != 0),
        (spec_mach_prot_to_guest(prot) & GUEST_PROT_READ != 0) == (prot & 1 != 0 || prot & 7 == 0),
        spec_mach_prot_to_guest(prot) & !7u32 == 0,
{
    let g = spec_mach_prot_to_guest(prot);
    let r: u32 = if (prot & 1) != 0 { 1 } else { 0 };
    let w: u32 = if (prot & 2) != 0 { 2 } else { 0 };
    let x: u32 = if (prot & 4) != 0 { 4 } else { 0 };
    assert(g == (if r | w | x == 0 { 1u32 } else { r | w | x }));
    assert({
        let bits = r | w | x;
        let g2: u32 = if bits == 0 { 1u32 } else { bits };
        &&& (g2 & 2 != 0) == (prot & 2 != 0)
        &&& (g2 & 4 != 0) == (prot & 4 != 0)
        &&& (g2 & 1 != 0) == (prot & 1 != 0 || prot & 7 == 0)
        &&& g2 & !7u32 == 0
    }) by (bit_vector)
        requires
            r == (if (prot & 1) != 0 { 1u32 } else { 0u32 }),
            w == (if (prot & 2) != 0 { 2u32 } else { 0u32 }),
            x == (if (prot & 4) != 0 { 4u32 } else { 0u32 }),
    ;
}

/// Rounding down to a power-of-two alignment gives the largest multiple
/// of the alignment that does not exceed the value.
pub proof fn lemma_align_down_law(x: u32, a: u32)
    requires
        a > 0,
        a & (a - 1) as u32 == 0,
    ensures
        x & !((a - 1) as u32) <= x,
        x - (x & !((a - 1) as u32)) < a,
        (x & !((a - 1) as u32)) % a == 0,
{
    assert(x & !((a - 1) as u32) <= x && x - (x & !((a - 1) as u32)) < a && (x & !((a - 1) as u32)) % a == 0)
        by (bit_vector)
        requires
            a > 0,
            a & (a - 1) as u32 == 0,
    ;
}

/// The rendering of protection bits spells each guest permission in its
/// own column: `R` exactly when readable, `W` exactly when writable, `X`
/// exactly when executable, `-` otherwise.
pub proof fn lemma_prot_string_columns(prot: u32)
    ensures
        spec_prot_string(prot).len() == 3,
        (spec_prot_string(prot)[0] == 'R') == (prot & GUEST_PROT_READ != 0),
        (spec_prot_string(prot)[1] == 'W') == (prot & GUEST_PROT_WRITE != 0),
        (spec_prot_string(prot)[2] == 'X') == (prot & GUEST_PROT_EXEC != 0),
        spec_prot_string(prot)[0] == 'R' || spec_prot_string(prot)[0] == '-',
        spec_prot_string(prot)[1] == 'W' || spec_prot_string(prot)[1] == '-',
        spec_prot_string(prot)[2] == 'X' || spec_prot_string(prot)[2] == '-',
{
}

/// Converts Mach-O protection bits to guest protection bits.
pub fn mach_prot_to_guest(prot: i32) -> (r: u32)
    ensures
        r == spec_mach_prot_to_guest(prot),
        (r & GUEST_PROT_WRITE != 0) == (prot & 2 != 0),
        (r & GUEST_PROT_EXEC != 0) == (prot & 4 != 0),
        (r & GUEST_PROT_READ != 0) == (prot & 1 != 0 || prot & 7 == 0),
{
    proof {
        lemma_mach_prot_to_guest_bits(prot);
    }
    let r = if (prot & 0x1) != 0 { GUEST_PROT_READ } else { 0u32 };
    let w = if (prot & 0x2) != 0 { GUEST_PROT_WRITE } else { 0u32 };
    let x = if (prot & 0x4) != 0 { GUEST_PROT_EXEC } else { 0u32 };
    let out = r | w | x;
    if out == 0 {
        GUEST_PROT_READ
    } else {
        out
    }
}

/// `RWX`-style rendering of guest protection bits, `-` for each missing bit.
pub open spec fn spec_prot_string(prot: u32) -> Seq<char> {
    seq![
        if (prot & GUEST_PROT_READ) != 0 { 'R' } else { '-' },
        if (prot & GUEST_PROT_WRITE) != 0 { 'W' } else { '-' },
        if (prot & GUEST_PROT_EXEC) != 0 { 'X' } else { '-' },
    ]
}

/// Renders guest protection bits as three characters, e.g. `R-X`.
pub fn prot_to_string(prot: u32) -> (s: String)
    ensures
        s@ == spec_prot_string(prot),
{
    let r = if (prot & GUEST_PROT_READ) != 0 { 'R' } else { '-' };
    let w = if (prot & GUEST_PROT_WRITE) != 0 { 'W' } else { '-' };
    let x = if (prot & GUEST_PROT_EXEC) != 0 { 'X' } else { '-' };
    let mut s = String::new();
    push_char(&mut s, r);
    push_char(&mut s, w);
    push_char(&mut s, x);
    s
}

} // verus!
