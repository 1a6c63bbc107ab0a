//! Register-file helpers and word-level reads used by the call bridges.
use vstd::prelude::*;
use vstd::bytes::spec_u32_from_le_bytes;
use crate::memory::sat_add_u32;
use super::guest_access::StepControl;
use super::{span_bytes, span_mapped, MemoryArm32Backend, RegionView};

verus! {

/// The 32-bit word stored at `addr`, if mapped.
pub open spec fn word_at(s: Seq<RegionView>, addr: u32) -> Option<u32> {
    if span_mapped(s, addr, 4) {
        Some(spec_u32_from_le_bytes(span_bytes(s, addr, 4)))
    } else {
        None
    }
}

/// `a + b` modulo 2^32.
pub open spec fn wrap_add(a: u32, b: int) -> u32 {
    ((a + b) % 0x1_0000_0000) as u32
}

/// `a * b`, saturated at `u32::MAX`.
pub open spec fn sat_mul(a: u32, b: u32) -> u32 {
    if a * b > u32::MAX {
        u32::MAX
    } else {
        (a * b) as u32
    }
}

/// The single-precision register `reg` within the double-precision bank:
/// even registers are the low half of `d[reg / 2]`, odd ones the high half.
pub open spec fn spec_vfp_s(d: Seq<u64>, reg: int) -> u32 {
    let dv = d[reg / 2];
    if reg % 2 == 0 {
        (dv & 0xffff_ffff) as u32
    } else {
        (dv >> 32) as u32
    }
}

/// The double-precision value after overwriting one of its halves.
pub open spec fn spec_set_half(dv: u64, high: bool, value: u32) -> u64 {
    if high {
        (dv & 0xffff_ffff) | ((value as u64) << 32)
    } else {
        (dv & 0xffff_ffff_0000_0000) | (value as u64)
    }
}

/// The little-endian word of a trampoline slot (`bx lr`).
pub open spec fn spec_bx_lr_word() -> u32 {
    0xe12fff1e
}

/// A word in `words` is the trampoline slot instruction.
pub open spec fn spec_contains_stub_word(words: Seq<u32>) -> bool {
    exists|i: int| 0 <= i < words.len() && words[i] == spec_bx_lr_word()
}

/// Values of a zero-terminated list of words starting at `base`, at most
/// `count` of them; unmapped words read as zero.
pub open spec fn spec_u32_list(s: Seq<RegionView>, base: u32, count: nat) -> Seq<u32>
    decreases count,
{
    if count == 0 {
        Seq::empty()
    } else {
        let prev = spec_u32_list(s, base, (count - 1) as nat);
        if prev.len() < count - 1 {
            prev
        } else {
            let v = match word_at(s, wrap_add(base, sat_mul((count - 1) as u32, 4) as int)) {
                Some(w) => w,
                None => 0u32,
            };
            if v == 0 {
                prev
            } else {
                prev.push(v)
            }
        }
    }
}

/// Setting one half of a double register and reading it back returns the
/// value written, and the other half is unchanged.
pub proof fn lemma_vfp_set_get(dv: u64, high: bool, value: u32)
    ensures
        high ==> (spec_set_half(dv, high, value) >> 32) as u32 == value && (spec_set_half(dv, high, value)
            & 0xffff_ffff) as u32 == (dv & 0xffff_ffff) as u32,
        !high ==> (spec_set_half(dv, high, value) & 0xffff_ffff) as u32 == value && (spec_set_half(dv, high, value)
            >> 32) as u32 == (dv >> 32) as u32,
{
    let v = value as u64;
    assert(v < 0x1_0000_0000);
    assert(v <= 0xffff_ffff ==> (((dv & 0xffff_ffff) | (v << 32)) >> 32) as u32 == v as u32) by (bit_vector);
    assert((((dv & 0xffff_ffff) | (v << 32)) & 0xffff_ffff) as u32 == (dv & 0xffff_ffff) as u32) by (bit_vector);
    assert(v <= 0xffff_ffff ==> (((dv & 0xffff_ffff_0000_0000) | v) & 0xffff_ffff) as u32 == v as u32) by (bit_vector);
    assert(v <= 0xffff_ffff ==> (((dv & 0xffff_ffff_0000_0000) | v) >> 32) as u32 == (dv >> 32) as u32) by (bit_vector);
}

impl MemoryArm32Backend {
    /// Reads single-precision register `s<reg>`.
    pub fn vfp_get_s(&self, reg: usize) -> (r: u32)
        requires
            self.wf(),
            reg < 64,
        ensures
            r == spec_vfp_s(self.execution.vfp_d_regs@, reg as int),
    {
        let dv = self.execution.vfp_d_regs[reg / 2];
        if reg % 2 == 0 {
            (dv & 0xffff_ffff) as u32
        } else {
            (dv >> 32) as u32
        }
    }

    /// Writes single-precision register `s<reg>`, leaving the other half of
    /// its double register and every other register unchanged.
    pub fn vfp_set_s(&mut self, reg: usize, value: u32)
        requires
            old(self).wf(),
            reg < 64,
        ensures
            final(self).wf(),
            final(self).cpu == old(self).cpu,
            final(self).address_space == old(self).address_space,
            final(self).runtime == old(self).runtime,
            final(self).execution.vfp_d_regs@ == old(self).execution.vfp_d_regs@.update(
                reg as int / 2,
                spec_set_half(old(self).execution.vfp_d_regs@[reg as int / 2], reg % 2 == 1, value),
            ),
            spec_vfp_s(final(self).execution.vfp_d_regs@, reg as int) == value,
    {
        let d_index = reg / 2;
        let dv = self.execution.vfp_d_regs[d_index];
        let updated = if reg % 2 == 1 {
            (dv & 0xffff_ffff) | ((value as u64) << 32)
        } else {
            (dv & 0xffff_ffff_0000_0000) | (value as u64)
        };
        self.execution.vfp_d_regs.set(d_index, updated);
        proof {
            lemma_vfp_set_get(dv, reg % 2 == 1, value);
        }
    }

    /// The value of register `reg` as an operand: `pc + 8` for the program counter.
    pub fn reg_operand(&self, reg: usize, current_pc: u32) -> (r: u32)
        requires
            self.wf(),
            reg < 16,
        ensures
            r == (if reg == 15 { wrap_add(current_pc, 8) } else { self.cpu.regs@[reg as int] }),
    {
        if reg == 15 {
            current_pc.wrapping_add(8)
        } else {
            self.cpu.regs[reg]
        }
    }

    /// Writes register `reg`; a write to the program counter selects the
    /// Thumb state from bit 0 and clears it from the address.
    pub fn set_reg_branch_aware(&mut self, reg: usize, value: u32) -> (r: StepControl)
        requires
            old(self).wf(),
            reg < 16,
        ensures
            final(self).wf(),
            r is Continue,
            final(self).address_space == old(self).address_space,
            final(self).execution == old(self).execution,
            final(self).runtime == old(self).runtime,
            reg == 15 ==> final(self).cpu.thumb == ((value & 1) != 0) && final(self).cpu.regs@ == old(
                self,
            ).cpu.regs@.update(15, value & !1u32),
            reg != 15 ==> final(self).cpu.thumb == old(self).cpu.thumb && final(self).cpu.regs@ == old(
                self,
            ).cpu.regs@.update(reg as int, value),
            final(self).cpu.flags == old(self).cpu.flags,
    {
        if reg == 15 {
            self.cpu.thumb = (value & 1) != 0;
            self.cpu.regs.set(15, value & !1u32);
            StepControl::Continue
        } else {
            self.cpu.regs.set(reg, value);
            StepControl::Continue
        }
    }

    /// Whether `addr` lies in the trampoline page.
    pub fn is_trampoline_addr(&self, addr: u32) -> (b: bool)
        ensures
            b == (addr >= self.address_space.trampoline_addr && addr < sat_add_u32(
                self.address_space.trampoline_addr,
                self.address_space.trampoline_size,
            )),
    {
        let start = self.address_space.trampoline_addr;
        let end = start.saturating_add(self.address_space.trampoline_size);
        addr >= start && addr < end
    }

    /// Whether `word` is the trampoline slot instruction (`bx lr`).
    pub fn looks_like_trampoline_stub_word(word: u32) -> (b: bool)
        ensures
            b == (word == spec_bx_lr_word()),
    {
        word == 0xe12fff1e
    }

    /// Whether any of `words` is the trampoline slot instruction.
    pub fn contains_trampoline_stub_words(words: &[u32]) -> (b: bool)
        ensures
            b == spec_contains_stub_word(words@),
    {
        let mut i: usize = 0;
        while i < words.len()
            invariant
                i <= words@.len(),
                forall|j: int| 0 <= j < i ==> words@[j] != spec_bx_lr_word(),
            decreases words@.len() - i,
        {
            if Self::looks_like_trampoline_stub_word(words[i]) {
                return true;
            }
            i = i + 1;
        }
        false
    }

    /// Reads the word `word_offset` words above the stack pointer.
    #[verifier::spinoff_prover]
    #[verifier::rlimit(40)]
    pub fn peek_stack_u32(&self, word_offset: u32) -> (r: Option<u32>)
        requires
            self.wf(),
        ensures
            r == word_at(self.mem(), wrap_add(self.cpu.regs@[13], sat_mul(word_offset, 4) as int)),
    {
        let off = if word_offset > u32::MAX / 4 { u32::MAX } else { word_offset * 4 };
        match self.read_u32_le(self.cpu.regs[13].wrapping_add(off)) {
            Ok(v) => Some(v),
            Err(_) => None,
        }
    }

    /// Reads `count` consecutive words at `addr`. Fails for a null or
    /// trampoline address, an empty request, an unmapped word, or when a
    /// word read is the trampoline slot instruction.
    #[verifier::spinoff_prover]
    #[verifier::rlimit(40)]
    pub fn read_words_at(&self, addr: u32, count: usize) -> (r: Option<Vec<u32>>)
        requires
            self.wf(),
        ensures
            (addr == 0 || count == 0 || self.is_trampoline_addr_spec(addr)) ==> r is None,
            r matches Some(v) ==> v@.len() == count && !spec_contains_stub_word(v@) && forall|i: int|
                0 <= i < count ==> self.list_word(addr, i) == Some(
                    #[trigger] v@[i],
                ),
            r is None && !(addr == 0 || count == 0 || self.is_trampoline_addr_spec(addr)) ==> (exists|i: int|
                0 <= i < count && #[trigger] self.list_word(addr, i) is None)
                || (forall|i: int|
                0 <= i < count ==> #[trigger] self.list_word(addr, i) is Some)
                && exists|i: int|
                0 <= i < count && #[trigger] self.list_word(addr, i) == Some(
                    spec_bx_lr_word(),
                ),
    {
        if addr == 0 || count == 0 || self.is_trampoline_addr(addr) {
            return None;
        }
        let mut out: Vec<u32> = Vec::new();
        let mut i: usize = 0;
        while i < count
            invariant
                self.wf(),
                i <= count,
                out@.len() == i,
                forall|j: int| 0 <= j < i ==> self.list_word(addr, j) == Some(
                    #[trigger] out@[j],
                ),
            decreases count - i,
        {
            let iu = i as u32;
            let off = if iu > u32::MAX / 4 { u32::MAX } else { iu * 4 };
            assert(off == sat_mul(iu, 4));
            assert(addr.wrapping_add(off) == wrap_add(addr, off as int));
            match self.read_u32_le(addr.wrapping_add(off)) {
                Ok(v) => out.push(v),
                Err(_) => {
                    assert(self.list_word(addr, i as int) is None);
                    return None;
                },
            }
            i = i + 1;
        }
        if Self::contains_trampoline_stub_words(out.as_slice()) {
            proof {
                let k = choose|k: int| 0 <= k < out@.len() && out@[k] == spec_bx_lr_word();
                assert(self.list_word(addr, k) == Some(out@[k]));
            }
            return None;
        }
        Some(out)
    }

    /// The `i`-th word of the list at `addr`, if mapped.
    pub open spec fn list_word(&self, addr: u32, i: int) -> Option<u32> {
        word_at(self.mem(), wrap_add(addr, sat_mul(i as u32, 4) as int))
    }

    /// Whether `addr` lies in the trampoline page.
    pub open spec fn is_trampoline_addr_spec(&self, addr: u32) -> bool {
        addr >= self.address_space.trampoline_addr && addr < sat_add_u32(
            self.address_space.trampoline_addr,
            self.address_space.trampoline_size,
        )
    }

    /// Reads a zero-terminated list of at most `min(count, max_count)` words
    /// at `base`; unreadable words end the list.
    #[verifier::spinoff_prover]
    #[verifier::rlimit(40)]
    pub fn read_u32_list(&self, base: u32, count: usize, max_count: usize) -> (r: Vec<u32>)
        requires
            self.wf(),
        ensures
            (base == 0 || count == 0) ==> r@.len() == 0,
            !(base == 0 || count == 0) ==> r@ == spec_u32_list(
                self.mem(),
                base,
                (if count < max_count { count } else { max_count }) as nat,
            ),
    {
        if base == 0 || count == 0 {
            return Vec::new();
        }
        let capped = if count < max_count { count } else { max_count };
        let mut out: Vec<u32> = Vec::new();
        let mut i: usize = 0;
        while i < capped
            invariant
                self.wf(),
                i <= capped,
                out@ == spec_u32_list(self.mem(), base, i as nat),
                out@.len() == i,
            decreases capped - i,
        {
            let iu = i as u32;
            let off = if iu > u32::MAX / 4 { u32::MAX } else { iu * 4 };
            let value = match self.read_u32_le(base.wrapping_add(off)) {
                Ok(v) => v,
                Err(_) => 0,
            };
            if value == 0 {
                proof {
                    lemma_u32_list_stops(self.mem(), base, i as nat, capped as nat);
                }
                return out;
            }
            out.push(value);
            i = i + 1;
        }
        out
    }

    /// The receiver-supplied object list of a variadic Objective-C call:
    /// `first`, `second`, then stack words until a zero word or
    /// `max_stack_words` words; a zero `first` or `second` ends the list.
    pub fn collect_objc_variadic_object_list(&self, first: u32, second: u32, max_stack_words: u32) -> (r: Vec<u32>)
        requires
            self.wf(),
        ensures
            first == 0 ==> r@.len() == 0,
            first != 0 && second == 0 ==> r@ == seq![first],
            first != 0 && second != 0 ==> r@.len() >= 2 && r@[0] == first && r@[1] == second && r@.len() <= 2
                + max_stack_words && forall|k: int|
                2 <= k < r@.len() ==> #[trigger] r@[k] != 0 && Some(r@[k]) == word_at(
                    self.mem(),
                    wrap_add(self.cpu.regs@[13], sat_mul((k - 2) as u32, 4) as int),
                ),
    {
        let mut out: Vec<u32> = Vec::new();
        if first == 0 {
            return out;
        }
        out.push(first);
        if second == 0 {
            return out;
        }
        out.push(second);
        let mut word: u32 = 0;
        while word < max_stack_words
            invariant
                self.wf(),
                word <= max_stack_words,
                out@.len() == 2 + word,
                out@[0] == first,
                out@[1] == second,
                forall|k: int|
                    2 <= k < out@.len() ==> #[trigger] out@[k] != 0 && Some(out@[k]) == word_at(
                        self.mem(),
                        wrap_add(self.cpu.regs@[13], sat_mul((k - 2) as u32, 4) as int),
                    ),
            decreases max_stack_words - word,
        {
            let value = match self.peek_stack_u32(word) {
                Some(v) => v,
                None => 0,
            };
            if value == 0 {
                return out;
            }
            out.push(value);
            word = word + 1;
        }
        out
    }
}

/// Once a zero (or unreadable) word is met, the list stops growing.
proof fn lemma_u32_list_stops(s: Seq<RegionView>, base: u32, i: nat, n: nat)
    requires
        i < n,
        spec_u32_list(s, base, i).len() == i,
        (match word_at(s, wrap_add(base, sat_mul(i as u32, 4) as int)) {
            Some(w) => w,
            None => 0u32,
        }) == 0,
    ensures
        spec_u32_list(s, base, n) == spec_u32_list(s, base, i),
    decreases n - i,
{
    assert(spec_u32_list(s, base, i + 1) == spec_u32_list(s, base, i));
    if i + 1 < n {
        lemma_u32_list_short(s, base, i + 1, n);
    }
}

/// A list shorter than its bound stays as it is.
proof fn lemma_u32_list_short(s: Seq<RegionView>, base: u32, i: nat, n: nat)
    requires
        i <= n,
        spec_u32_list(s, base, i).len() < i,
    ensures
        spec_u32_list(s, base, n) == spec_u32_list(s, base, i),
    decreases n - i,
{
    if i < n {
        assert(spec_u32_list(s, base, i + 1) == spec_u32_list(s, base, i));
        lemma_u32_list_short(s, base, i + 1, n);
    }
}

} // verus!
