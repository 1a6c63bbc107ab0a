//! Byte-level access to guest memory and the register file.
use vstd::prelude::*;
use vstd::bytes::{spec_u16_from_le_bytes, spec_u16_to_le_bytes, spec_u32_from_le_bytes, spec_u32_to_le_bytes, spec_u64_from_le_bytes, spec_u64_to_le_bytes};
use crate::error::{CoreError, CoreResult};
use crate::memory::sat_add_u32;
use crate::text::{dec_seq, hex_prefixed, push_dec, push_hex_prefixed};
use super::{
    span_bytes, span_mapped, span_region, splice_region, view_contains, views_wf, write_span, BackendRegion,
    MemoryArm32Backend, RegionView,
};

verus! {

/// Decodes UTF-8 bytes into a `String` (`String::from_utf8`), or `None`
/// when the bytes are not valid UTF-8.
#[verifier::external_body]
pub(crate) fn string_from_utf8(bytes: Vec<u8>) -> (r: Option<String>)
    ensures
        r is Some <==> vstd::utf8::valid_utf8(bytes@),
        r matches Some(s) ==> vstd::utf8::encode_utf8(s@) == bytes@,
{
    String::from_utf8(bytes).ok()
}

/// How a register write affects control flow.
#[derive(Debug, Clone)]
pub enum StepControl {
    Continue,
    Stop(String),
}

/// In well-formed regions at most one region contains a non-empty span.
pub proof fn lemma_span_region_unique(s: Seq<RegionView>, i: int, addr: u32, size: u32)
    requires
        views_wf(s),
        size > 0,
        0 <= i < s.len(),
        view_contains(s[i], addr, size),
    ensures
        span_mapped(s, addr, size),
        span_region(s, addr, size) == s[i],
        forall|j: int| 0 <= j < s.len() && view_contains(#[trigger] s[j], addr, size) ==> j == i,
{
    assert forall|j: int| 0 <= j < s.len() && view_contains(#[trigger] s[j], addr, size) implies j == i by {
        if j != i {
            assert(s[i].addr + s[i].size <= s[j].addr || s[j].addr + s[j].size <= s[i].addr);
        }
    }
    let k = choose|k: int| 0 <= k < s.len() && view_contains(#[trigger] s[k], addr, size);
    assert(k == i);
}

/// Writing a mapped span and reading the same span gives back the bytes
/// written.
pub proof fn lemma_read_after_write(s: Seq<RegionView>, addr: u32, bytes: Seq<u8>)
    requires
        views_wf(s),
        bytes.len() > 0,
        bytes.len() <= u32::MAX,
        span_mapped(s, addr, bytes.len() as u32),
    ensures
        views_wf(write_span(s, addr, bytes)),
        span_mapped(write_span(s, addr, bytes), addr, bytes.len() as u32),
        span_bytes(write_span(s, addr, bytes), addr, bytes.len() as u32) == bytes,
{
    let n = bytes.len() as u32;
    let i = choose|i: int| 0 <= i < s.len() && view_contains(#[trigger] s[i], addr, n);
    lemma_span_region_unique(s, i, addr, n);
    let t = write_span(s, addr, bytes);
    lemma_write_span_wf(s, addr, bytes);
    assert(view_contains(t[i], addr, n));
    lemma_span_region_unique(t, i, addr, n);
    let r = t[i];
    let off = addr - s[i].addr;
    assert(r.bytes.subrange(off, off + n) =~= bytes);
}

/// Writing one span leaves every disjoint mapped span unchanged.
pub proof fn lemma_write_preserves_disjoint(s: Seq<RegionView>, addr: u32, bytes: Seq<u8>, other: u32, size: u32)
    requires
        views_wf(s),
        bytes.len() > 0,
        bytes.len() <= u32::MAX,
        size > 0,
        span_mapped(s, addr, bytes.len() as u32),
        span_mapped(s, other, size),
        other + size <= addr || addr + bytes.len() <= other,
    ensures
        span_mapped(write_span(s, addr, bytes), other, size),
        span_bytes(write_span(s, addr, bytes), other, size) == span_bytes(s, other, size),
{
    let n = bytes.len() as u32;
    let i = choose|i: int| 0 <= i < s.len() && view_contains(#[trigger] s[i], addr, n);
    let j = choose|j: int| 0 <= j < s.len() && view_contains(#[trigger] s[j], other, size);
    lemma_span_region_unique(s, i, addr, n);
    lemma_span_region_unique(s, j, other, size);
    let t = write_span(s, addr, bytes);
    lemma_write_span_wf(s, addr, bytes);
    assert(view_contains(t[j], other, size));
    lemma_span_region_unique(t, j, other, size);
    if i == j {
        let off = addr - s[i].addr;
        let o2 = other - s[i].addr;
        assert(t[j].bytes.subrange(o2, o2 + size) =~= s[j].bytes.subrange(o2, o2 + size));
    }
}

/// Writing a mapped span keeps every region's address, size and protection.
pub proof fn lemma_write_span_wf(s: Seq<RegionView>, addr: u32, bytes: Seq<u8>)
    requires
        views_wf(s),
        bytes.len() <= u32::MAX,
    ensures
        views_wf(write_span(s, addr, bytes)),
        write_span(s, addr, bytes).len() == s.len(),
        forall|j: int|
            0 <= j < s.len() ==> (#[trigger] write_span(s, addr, bytes)[j]).addr == s[j].addr
                && write_span(s, addr, bytes)[j].size == s[j].size && write_span(s, addr, bytes)[j].prot
                == s[j].prot,
{
    let t = write_span(s, addr, bytes);
    assert forall|j: int| 0 <= j < t.len() implies super::view_wf(#[trigger] t[j]) by {
        if view_contains(s[j], addr, bytes.len() as u32) {
            let off = addr - s[j].addr;
            assert(s[j].bytes.len() == s[j].size);
        }
    }
}

/// A span inside a mapped span is mapped.
pub proof fn lemma_subspan_mapped(s: Seq<RegionView>, addr: u32, size: u32, inner: u32, n: u32)
    requires
        span_mapped(s, addr, size),
        addr <= inner,
        inner + n <= addr + size,
    ensures
        span_mapped(s, inner, n),
{
    let i = choose|i: int| 0 <= i < s.len() && view_contains(#[trigger] s[i], addr, size);
    assert(view_contains(s[i], inner, n));
}

/// The bytes of a span inside a mapped span are the matching part of the
/// outer span's bytes.
pub proof fn lemma_subspan_bytes(s: Seq<RegionView>, addr: u32, size: u32, inner: u32, n: u32)
    requires
        views_wf(s),
        n > 0,
        span_mapped(s, addr, size),
        addr <= inner,
        inner + n <= addr + size,
    ensures
        span_mapped(s, inner, n),
        span_bytes(s, inner, n) == span_bytes(s, addr, size).subrange(inner - addr, inner - addr + n),
{
    let i = choose|i: int| 0 <= i < s.len() && view_contains(#[trigger] s[i], addr, size);
    lemma_span_region_unique(s, i, addr, size);
    assert(view_contains(s[i], inner, n));
    lemma_span_region_unique(s, i, inner, n);
    let r = s[i];
    let o = addr - r.addr;
    let oi = inner - r.addr;
    assert(r.bytes.subrange(oi, oi + n) =~= r.bytes.subrange(o, o + size).subrange(inner - addr, inner - addr + n));
}

/// Writing a span changes no region's placement, so every mapped span stays
/// mapped.
pub proof fn lemma_write_keeps_mapped(s: Seq<RegionView>, addr: u32, bytes: Seq<u8>, other: u32, n: u32)
    requires
        views_wf(s),
        bytes.len() <= u32::MAX,
        span_mapped(s, other, n),
    ensures
        span_mapped(write_span(s, addr, bytes), other, n),
{
    lemma_write_span_wf(s, addr, bytes);
    let i = choose|i: int| 0 <= i < s.len() && view_contains(#[trigger] s[i], other, n);
    assert(view_contains(write_span(s, addr, bytes)[i], other, n));
}

/// The message for a failed guest read.
pub open spec fn read_error_message(b: MemoryArm32Backend, addr: u32, size: u32) -> Seq<char> {
    "backend cannot read "@ + dec_seq(size as nat) + " bytes at "@ + hex_prefixed(addr as nat, 8) + " (pc="@
        + hex_prefixed(b.execution.current_exec_pc as nat, 8) + " word="@ + hex_prefixed(
        b.execution.current_exec_word as nat,
        8,
    ) + " thumb="@ + (if b.execution.current_exec_thumb || b.cpu.thumb {
        "yes"@
    } else {
        "no"@
    }) + " sp="@ + hex_prefixed(b.cpu.regs@[13] as nat, 8) + " lr="@ + hex_prefixed(b.cpu.regs@[14] as nat, 8)
        + " r0="@ + hex_prefixed(b.cpu.regs@[0] as nat, 8) + " r1="@ + hex_prefixed(b.cpu.regs@[1] as nat, 8)
        + " r2="@ + hex_prefixed(b.cpu.regs@[2] as nat, 8) + " r3="@ + hex_prefixed(b.cpu.regs@[3] as nat, 8)
        + " r5="@ + hex_prefixed(b.cpu.regs@[5] as nat, 8) + " r6="@ + hex_prefixed(b.cpu.regs@[6] as nat, 8)
        + " r7="@ + hex_prefixed(b.cpu.regs@[7] as nat, 8) + read_region_hint(b.mem(), addr) + ")"@
}

/// Region `r` holds the single address `addr`.
pub open spec fn holds_addr(r: RegionView, addr: u32) -> bool {
    addr >= r.addr && addr < sat_add_u32(r.addr, r.size)
}

/// The region that holds `addr`, described for a read error.
pub open spec fn read_region_hint(s: Seq<RegionView>, addr: u32) -> Seq<char> {
    if exists|i: int| 0 <= i < s.len() && holds_addr(#[trigger] s[i], addr) {
        let r = s[choose|i: int| 0 <= i < s.len() && holds_addr(#[trigger] s[i], addr)];
        " containing_region="@ + hex_prefixed(r.addr as nat, 8) + "-"@ + hex_prefixed(
            sat_add_u32(r.addr, r.size) as nat,
            8,
        ) + "/prot="@ + hex_prefixed(r.prot as nat, 0)
    } else {
        " no_region_contains_addr"@
    }
}

/// The region that holds `addr`, described for a write error.
pub open spec fn write_region_hint(s: Seq<RegionView>, addr: u32) -> Seq<char> {
    if exists|i: int| 0 <= i < s.len() && holds_addr(#[trigger] s[i], addr) {
        let r = s[choose|i: int| 0 <= i < s.len() && holds_addr(#[trigger] s[i], addr)];
        " region_start="@ + hex_prefixed(r.addr as nat, 8) + " region_size="@ + hex_prefixed(r.size as nat, 0)
    } else {
        " no_region_contains_addr"@
    }
}

/// The message for a failed guest write.
pub open spec fn write_error_message(s: Seq<RegionView>, addr: u32, len: nat) -> Seq<char> {
    "backend cannot write "@ + dec_seq(len) + " bytes at "@ + hex_prefixed(addr as nat, 8) + write_region_hint(
        s,
        addr,
    )
}

/// Whether a byte is printable ASCII or one of space, `:` and `_`.
pub open spec fn c_string_byte_ok(b: u8) -> bool {
    (0x21 <= b && b <= 0x7e) || b == 0x20 || b == 0x3a || b == 0x5f
}

/// In well-formed regions at most one region holds a given address.
proof fn lemma_holds_unique(s: Seq<RegionView>, i: int, addr: u32)
    requires
        views_wf(s),
        0 <= i < s.len(),
        holds_addr(s[i], addr),
    ensures
        forall|j: int| 0 <= j < s.len() && holds_addr(#[trigger] s[j], addr) ==> j == i,
{
    assert forall|j: int| 0 <= j < s.len() && holds_addr(#[trigger] s[j], addr) implies j == i by {
        if j != i {
            assert(s[i].addr + s[i].size <= s[j].addr || s[j].addr + s[j].size <= s[i].addr);
        }
    }
}

impl MemoryArm32Backend {
    /// Index of the region that holds the single address `addr`.
    pub fn region_holding(&self, addr: u32) -> (r: Option<usize>)
        requires
            self.wf(),
        ensures
            match r {
                Some(i) => i < self.mem().len() && holds_addr(self.mem()[i as int], addr)
                    && self.mem()[i as int] == self.mem()[choose|k: int| 0 <= k < self.mem().len() && holds_addr(#[trigger] self.mem()[k], addr)]
                    && exists|k: int| 0 <= k < self.mem().len() && holds_addr(#[trigger] self.mem()[k], addr),
                None => !exists|k: int| 0 <= k < self.mem().len() && holds_addr(#[trigger] self.mem()[k], addr),
            },
    {
        let mut i: usize = 0;
        while i < self.address_space.mapped.len()
            invariant
                self.wf(),
                i <= self.mem().len(),
                forall|j: int| 0 <= j < i ==> !holds_addr(#[trigger] self.mem()[j], addr),
            decreases self.address_space.mapped.len() - i,
        {
            let region = &self.address_space.mapped[i];
            if addr >= region.addr && addr < region.end() {
                proof {
                    lemma_holds_unique(self.mem(), i as int, addr);
                    assert(holds_addr(self.mem()[i as int], addr));
                }
                return Some(i);
            }
            i = i + 1;
        }
        None
    }

    /// Index of the first region containing `[addr, addr + size)`.
    pub fn find_region_index(&self, addr: u32, size: u32) -> (r: Option<usize>)
        ensures
            match r {
                Some(i) => i < self.mem().len() && view_contains(self.mem()[i as int], addr, size) && forall|j: int|
                    0 <= j < i ==> !view_contains(#[trigger] self.mem()[j], addr, size),
                None => !span_mapped(self.mem(), addr, size),
            },
    {
        let mut i: usize = 0;
        while i < self.address_space.mapped.len()
            invariant
                i <= self.mem().len(),
                forall|j: int| 0 <= j < i ==> !view_contains(#[trigger] self.mem()[j], addr, size),
            decreases self.address_space.mapped.len() - i,
        {
            if self.address_space.mapped[i].contains_range(addr, size) {
                return Some(i);
            }
            i = i + 1;
        }
        None
    }

    /// The first region containing `[addr, addr + size)`.
    pub fn find_region(&self, addr: u32, size: u32) -> (r: Option<&BackendRegion>)
        ensures
            r is Some <==> span_mapped(self.mem(), addr, size),
            r matches Some(reg) ==> view_contains(reg.view(), addr, size) && (size > 0 && self.wf() ==> reg.view()
                == span_region(self.mem(), addr, size)),
    {
        match self.find_region_index(addr, size) {
            Some(i) => {
                proof {
                    if size > 0 && self.wf() {
                        lemma_span_region_unique(self.mem(), i as int, addr, size);
                    }
                }
                Some(&self.address_space.mapped[i])
            },
            None => None,
        }
    }

    /// Builds the diagnostic message for a failed read of `size` bytes at `addr`.
    pub fn format_backend_read_error(&self, addr: u32, size: u32) -> (s: String)
        requires
            self.wf(),
        ensures
            s@ == read_error_message(*self, addr, size),
    {
        let mut s = String::new();
        s.append("backend cannot read ");
        push_dec(&mut s, size as u64);
        s.append(" bytes at ");
        push_hex_prefixed(&mut s, addr as u64, 8);
        s.append(" (pc=");
        push_hex_prefixed(&mut s, self.execution.current_exec_pc as u64, 8);
        s.append(" word=");
        push_hex_prefixed(&mut s, self.execution.current_exec_word as u64, 8);
        s.append(" thumb=");
        if self.execution.current_exec_thumb || self.cpu.thumb {
            s.append("yes");
        } else {
            s.append("no");
        }
        s.append(" sp=");
        push_hex_prefixed(&mut s, self.cpu.regs[13] as u64, 8);
        s.append(" lr=");
        push_hex_prefixed(&mut s, self.cpu.regs[14] as u64, 8);
        s.append(" r0=");
        push_hex_prefixed(&mut s, self.cpu.regs[0] as u64, 8);
        s.append(" r1=");
        push_hex_prefixed(&mut s, self.cpu.regs[1] as u64, 8);
        s.append(" r2=");
        push_hex_prefixed(&mut s, self.cpu.regs[2] as u64, 8);
        s.append(" r3=");
        push_hex_prefixed(&mut s, self.cpu.regs[3] as u64, 8);
        s.append(" r5=");
        push_hex_prefixed(&mut s, self.cpu.regs[5] as u64, 8);
        s.append(" r6=");
        push_hex_prefixed(&mut s, self.cpu.regs[6] as u64, 8);
        s.append(" r7=");
        push_hex_prefixed(&mut s, self.cpu.regs[7] as u64, 8);
        match self.region_holding(addr) {
            Some(i) => {
                let region = &self.address_space.mapped[i];
                s.append(" containing_region=");
                push_hex_prefixed(&mut s, region.addr as u64, 8);
                s.append("-");
                push_hex_prefixed(&mut s, region.end() as u64, 8);
                s.append("/prot=");
                push_hex_prefixed(&mut s, region.prot as u64, 0);
            },
            None => {
                s.append(" no_region_contains_addr");
            },
        }
        s.append(")");
        s
    }

    /// Reads `size` bytes of mapped guest memory at `addr`; an empty read
    /// succeeds without looking at memory.
    pub fn read_guest_bytes(&self, addr: u32, size: u32) -> (r: CoreResult<Vec<u8>>)
        requires
            self.wf(),
        ensures
            size == 0 ==> r is Ok && r->Ok_0@.len() == 0,
            size > 0 ==> (r is Ok <==> span_mapped(self.mem(), addr, size)),
            size > 0 && r is Ok ==> r->Ok_0@ == span_bytes(self.mem(), addr, size),
            r is Err ==> r->Err_0 is Backend && r->Err_0.spec_message() == "backend cannot read "@ + dec_seq(
                size as nat,
            ) + " bytes at "@ + hex_prefixed(addr as nat, 8),
    {
        if size == 0 {
            return Ok(Vec::new());
        }
        let i = match self.find_region_index(addr, size) {
            Some(i) => i,
            None => {
                let mut msg = String::new();
                msg.append("backend cannot read ");
                push_dec(&mut msg, size as u64);
                msg.append(" bytes at ");
                push_hex_prefixed(&mut msg, addr as u64, 8);
                return Err(CoreError::Backend(msg));
            },
        };
        proof {
            lemma_span_region_unique(self.mem(), i as int, addr, size);
        }
        let region = &self.address_space.mapped[i];
        let offset = (addr - region.addr) as usize;
        let mut out: Vec<u8> = Vec::new();
        let mut k: usize = 0;
        let n = size as usize;
        while k < n
            invariant
                self.wf(),
                i < self.mem().len(),
                region.view() == self.mem()[i as int],
                view_contains(region.view(), addr, size),
                offset == addr - region.addr,
                n == size,
                k <= n,
                out@ == region.data@.subrange(offset as int, offset + k),
            decreases n - k,
        {
            assert(offset + k < region.data@.len());
            out.push(region.data[offset + k]);
            assert(region.data@.subrange(offset as int, offset + k + 1) == region.data@.subrange(offset as int, offset + k).push(region.data@[offset + k]));
            k = k + 1;
        }
        Ok(out)
    }

    /// Reads one byte.
    pub fn read_u8(&self, addr: u32) -> (r: CoreResult<u8>)
        requires
            self.wf(),
        ensures
            r is Ok <==> span_mapped(self.mem(), addr, 1),
            r is Ok ==> r->Ok_0 == span_bytes(self.mem(), addr, 1)[0],
            r is Err ==> r->Err_0 is Backend && r->Err_0.spec_message() == read_error_message(*self, addr, 1),
    {
        match self.find_region_index(addr, 1) {
            Some(i) => {
                proof {
                    lemma_span_region_unique(self.mem(), i as int, addr, 1);
                }
                let region = &self.address_space.mapped[i];
                let offset = (addr - region.addr) as usize;
                Ok(region.data[offset])
            },
            None => Err(CoreError::Backend(self.format_backend_read_error(addr, 1))),
        }
    }

    /// Reads a little-endian 16-bit value.
    pub fn read_u16_le(&self, addr: u32) -> (r: CoreResult<u16>)
        requires
            self.wf(),
        ensures
            r is Ok <==> span_mapped(self.mem(), addr, 2),
            r is Ok ==> r->Ok_0 == spec_u16_from_le_bytes(span_bytes(self.mem(), addr, 2)),
            r is Err ==> r->Err_0 is Backend && r->Err_0.spec_message() == read_error_message(*self, addr, 2),
    {
        match self.find_region_index(addr, 2) {
            Some(i) => {
                proof {
                    lemma_span_region_unique(self.mem(), i as int, addr, 2);
                }
                let region = &self.address_space.mapped[i];
                let offset = (addr - region.addr) as usize;
                let bytes = vec![region.data[offset], region.data[offset + 1]];
                assert(bytes@ =~= span_bytes(self.mem(), addr, 2));
                Ok(vstd::bytes::u16_from_le_bytes(bytes.as_slice()))
            },
            None => Err(CoreError::Backend(self.format_backend_read_error(addr, 2))),
        }
    }

    /// Reads a little-endian 32-bit value.
    pub fn read_u32_le(&self, addr: u32) -> (r: CoreResult<u32>)
        requires
            self.wf(),
        ensures
            r is Ok <==> span_mapped(self.mem(), addr, 4),
            r is Ok ==> r->Ok_0 == spec_u32_from_le_bytes(span_bytes(self.mem(), addr, 4)),
            r is Err ==> r->Err_0 is Backend && r->Err_0.spec_message() == read_error_message(*self, addr, 4),
    {
        match self.find_region_index(addr, 4) {
            Some(i) => {
                proof {
                    lemma_span_region_unique(self.mem(), i as int, addr, 4);
                }
                let region = &self.address_space.mapped[i];
                let offset = (addr - region.addr) as usize;
                let bytes = vec![
                    region.data[offset],
                    region.data[offset + 1],
                    region.data[offset + 2],
                    region.data[offset + 3],
                ];
                assert(bytes@ =~= span_bytes(self.mem(), addr, 4));
                Ok(vstd::bytes::u32_from_le_bytes(bytes.as_slice()))
            },
            None => Err(CoreError::Backend(self.format_backend_read_error(addr, 4))),
        }
    }

    /// Reads a little-endian 64-bit value.
    pub fn read_u64_le(&self, addr: u32) -> (r: CoreResult<u64>)
        requires
            self.wf(),
        ensures
            r is Ok <==> span_mapped(self.mem(), addr, 8),
            r is Ok ==> r->Ok_0 == spec_u64_from_le_bytes(span_bytes(self.mem(), addr, 8)),
    {
        let bytes = match self.read_guest_bytes(addr, 8) {
            Ok(b) => b,
            Err(e) => return Err(e),
        };
        Ok(vstd::bytes::u64_from_le_bytes(bytes.as_slice()))
    }

    /// Writes `bytes` at `addr`. The whole span must lie inside one mapped
    /// region; otherwise nothing changes and the error names the region
    /// holding `addr`, if any. Successful non-empty writes are logged.
    pub fn write_bytes(&mut self, addr: u32, bytes: &[u8]) -> (r: CoreResult<()>)
        requires
            old(self).wf(),
            bytes@.len() <= u32::MAX,
        ensures
            final(self).wf(),
            final(self).cpu == old(self).cpu,
            final(self).execution == old(self).execution,
            final(self).runtime == old(self).runtime,
            final(self).diag.symbol_labels == old(self).diag.symbol_labels,
            final(self).diag.object_labels == old(self).diag.object_labels,
            final(self).address_space.trampoline_addr == old(self).address_space.trampoline_addr,
            final(self).address_space.trampoline_size == old(self).address_space.trampoline_size,
            final(self).profile == old(self).profile,
            final(self).tuning == old(self).tuning,
            bytes@.len() == 0 ==> r is Ok && final(self).mem() == old(self).mem() && final(self).diag.writes
                == old(self).diag.writes,
            bytes@.len() > 0 ==> (r is Ok <==> span_mapped(old(self).mem(), addr, bytes@.len() as u32)),
            bytes@.len() > 0 && r is Ok ==> final(self).mem() == write_span(old(self).mem(), addr, bytes@)
                && final(self).diag.writes@ == old(self).diag.writes@.push((addr, bytes@.len() as usize)),
            r is Err ==> *final(self) == *old(self),
            r is Err ==> final(self).mem() == old(self).mem() && final(self).diag.writes == old(self).diag.writes
                && r->Err_0 is Backend && r->Err_0.spec_message() == write_error_message(
                old(self).mem(),
                addr,
                bytes@.len(),
            ),
    {
        if bytes.len() == 0 {
            return Ok(());
        }
        let size = bytes.len() as u32;
        match self.find_region_index(addr, size) {
            None => {
                let mut msg = String::new();
                msg.append("backend cannot write ");
                push_dec(&mut msg, bytes.len() as u64);
                msg.append(" bytes at ");
                push_hex_prefixed(&mut msg, addr as u64, 8);
                match self.region_holding(addr) {
                    Some(i) => {
                        let region = &self.address_space.mapped[i];
                        msg.append(" region_start=");
                        push_hex_prefixed(&mut msg, region.addr as u64, 8);
                        msg.append(" region_size=");
                        push_hex_prefixed(&mut msg, region.size as u64, 0);
                    },
                    None => {
                        msg.append(" no_region_contains_addr");
                    },
                }
                Err(CoreError::Backend(msg))
            },
            Some(i) => {
                proof {
                    lemma_span_region_unique(self.mem(), i as int, addr, size);
                }
                self.splice_into_region(i, addr, bytes);
                self.diag.writes.push((addr, bytes.len()));
                Ok(())
            },
        }
    }

    /// Copies `bytes` into region `i` at guest address `addr`, which the
    /// region must contain. Nothing is logged.
    pub(crate) fn splice_into_region(&mut self, i: usize, addr: u32, bytes: &[u8])
        requires
            old(self).wf(),
            bytes@.len() > 0,
            bytes@.len() <= u32::MAX,
            i < old(self).mem().len(),
            view_contains(old(self).mem()[i as int], addr, bytes@.len() as u32),
        ensures
            final(self).wf(),
            final(self).mem() == write_span(old(self).mem(), addr, bytes@),
            final(self).cpu == old(self).cpu,
            final(self).execution == old(self).execution,
            final(self).runtime == old(self).runtime,
            final(self).diag == old(self).diag,
            final(self).profile == old(self).profile,
            final(self).tuning == old(self).tuning,
            final(self).address_space.trampoline_addr == old(self).address_space.trampoline_addr,
            final(self).address_space.trampoline_size == old(self).address_space.trampoline_size,
    {
        let size = bytes.len() as u32;
        let ghost s0 = self.mem();
        proof {
            lemma_span_region_unique(s0, i as int, addr, size);
            lemma_write_span_wf(s0, addr, bytes@);
        }
        let offset = (addr - self.address_space.mapped[i].addr) as usize;
        let mut k: usize = 0;
        while k < bytes.len()
            invariant
                i < self.address_space.mapped@.len(),
                self.address_space.mapped@.len() == s0.len(),
                size == bytes@.len(),
                view_contains(s0[i as int], addr, size),
                offset == addr - s0[i as int].addr,
                k <= bytes@.len(),
                forall|j: int| 0 <= j < s0.len() && j != i ==> (#[trigger] self.address_space.mapped@[j]) == old(self).address_space.mapped@[j],
                self.mem()[i as int].addr == s0[i as int].addr,
                self.mem()[i as int].size == s0[i as int].size,
                self.mem()[i as int].prot == s0[i as int].prot,
                self.mem()[i as int].bytes == s0[i as int].bytes.subrange(0, offset as int)
                    + bytes@.subrange(0, k as int) + s0[i as int].bytes.subrange(
                    offset + k,
                    s0[i as int].bytes.len() as int,
                ),
                views_wf(s0),
                self.cpu == old(self).cpu,
                self.execution == old(self).execution,
                self.runtime == old(self).runtime,
                self.diag == old(self).diag,
                self.profile == old(self).profile,
                self.tuning == old(self).tuning,
                self.address_space.trampoline_addr == old(self).address_space.trampoline_addr,
                self.address_space.trampoline_size == old(self).address_space.trampoline_size,
                s0 == old(self).mem(),
            decreases bytes@.len() - k,
        {
            let ghost before = self.mem()[i as int].bytes;
            self.address_space.mapped[i].data[offset + k] = bytes[k];
            proof {
                assert(self.mem()[i as int].bytes == before.update(offset + k, bytes@[k as int]));
                assert(self.mem()[i as int].bytes =~= s0[i as int].bytes.subrange(0, offset as int)
                    + bytes@.subrange(0, k + 1) + s0[i as int].bytes.subrange(
                    offset + k + 1,
                    s0[i as int].bytes.len() as int,
                ));
            }
            k = k + 1;
        }
        proof {
            assert(bytes@.subrange(0, bytes@.len() as int) == bytes@);
            let t = write_span(s0, addr, bytes@);
            assert forall|j: int| 0 <= j < s0.len() implies #[trigger] self.mem()[j] == t[j] by {
                if j == i {
                    assert(self.mem()[j].bytes =~= splice_region(s0[j], addr, bytes@).bytes);
                } else {
                    assert(!view_contains(s0[j], addr, size));
                    assert(self.address_space.mapped@[j] == old(self).address_space.mapped@[j]);
                }
            }
            assert(self.mem() =~= t);
        }
    }

    /// Writes one byte.
    pub fn write_u8(&mut self, addr: u32, value: u8) -> (r: CoreResult<()>)
        requires
            old(self).wf(),
        ensures
            final(self).wf(),
            final(self).cpu == old(self).cpu,
            final(self).execution == old(self).execution,
            final(self).runtime == old(self).runtime,
            final(self).profile == old(self).profile,
            final(self).tuning == old(self).tuning,
            final(self).address_space.trampoline_addr == old(self).address_space.trampoline_addr,
            final(self).address_space.trampoline_size == old(self).address_space.trampoline_size,
            final(self).diag.object_labels == old(self).diag.object_labels,
            final(self).diag.symbol_labels == old(self).diag.symbol_labels,
            r is Ok <==> span_mapped(old(self).mem(), addr, 1),
            r is Ok ==> final(self).mem() == write_span(old(self).mem(), addr, seq![value])
                && final(self).diag.writes@ == old(self).diag.writes@.push((addr, 1usize)),
            r is Err ==> final(self).mem() == old(self).mem() && final(self).diag.writes == old(self).diag.writes
                && r->Err_0 is Backend && r->Err_0.spec_message() == write_error_message(old(self).mem(), addr, 1),
    {
        let bytes = vec![value];
        assert(bytes@ =~= seq![value]);
        self.write_bytes(addr, bytes.as_slice())
    }

    /// Writes a little-endian 16-bit value.
    pub fn write_u16_le(&mut self, addr: u32, value: u16) -> (r: CoreResult<()>)
        requires
            old(self).wf(),
        ensures
            final(self).wf(),
            final(self).cpu == old(self).cpu,
            final(self).execution == old(self).execution,
            final(self).runtime == old(self).runtime,
            final(self).profile == old(self).profile,
            final(self).tuning == old(self).tuning,
            final(self).address_space.trampoline_addr == old(self).address_space.trampoline_addr,
            final(self).address_space.trampoline_size == old(self).address_space.trampoline_size,
            final(self).diag.object_labels == old(self).diag.object_labels,
            final(self).diag.symbol_labels == old(self).diag.symbol_labels,
            r is Ok <==> span_mapped(old(self).mem(), addr, 2),
            r is Ok ==> final(self).mem() == write_span(old(self).mem(), addr, spec_u16_to_le_bytes(value))
                && final(self).diag.writes@ == old(self).diag.writes@.push((addr, 2usize)),
            r is Err ==> final(self).mem() == old(self).mem() && final(self).diag.writes == old(self).diag.writes
                && r->Err_0 is Backend && r->Err_0.spec_message() == write_error_message(old(self).mem(), addr, 2),
    {
        let bytes = vstd::bytes::u16_to_le_bytes(value);
        proof {
            vstd::bytes::lemma_auto_spec_u16_to_from_le_bytes();
        }
        self.write_bytes(addr, bytes.as_slice())
    }

    /// Writes a little-endian 32-bit value.
    pub fn write_u32_le(&mut self, addr: u32, value: u32) -> (r: CoreResult<()>)
        requires
            old(self).wf(),
        ensures
            final(self).wf(),
            final(self).cpu == old(self).cpu,
            final(self).execution == old(self).execution,
            final(self).runtime == old(self).runtime,
            final(self).profile == old(self).profile,
            final(self).tuning == old(self).tuning,
            final(self).address_space.trampoline_addr == old(self).address_space.trampoline_addr,
            final(self).address_space.trampoline_size == old(self).address_space.trampoline_size,
            final(self).diag.object_labels == old(self).diag.object_labels,
            final(self).diag.symbol_labels == old(self).diag.symbol_labels,
            r is Ok <==> span_mapped(old(self).mem(), addr, 4),
            r is Ok ==> final(self).mem() == write_span(old(self).mem(), addr, spec_u32_to_le_bytes(value))
                && final(self).diag.writes@ == old(self).diag.writes@.push((addr, 4usize)),
            r is Err ==> final(self).mem() == old(self).mem() && final(self).diag.writes == old(self).diag.writes
                && r->Err_0 is Backend && r->Err_0.spec_message() == write_error_message(old(self).mem(), addr, 4),
    {
        let bytes = vstd::bytes::u32_to_le_bytes(value);
        self.write_bytes(addr, bytes.as_slice())
    }

    /// Writes a little-endian 64-bit value.
    pub fn write_u64_le(&mut self, addr: u32, value: u64) -> (r: CoreResult<()>)
        requires
            old(self).wf(),
        ensures
            final(self).wf(),
            final(self).cpu == old(self).cpu,
            final(self).execution == old(self).execution,
            final(self).runtime == old(self).runtime,
            final(self).profile == old(self).profile,
            final(self).tuning == old(self).tuning,
            final(self).address_space.trampoline_addr == old(self).address_space.trampoline_addr,
            final(self).address_space.trampoline_size == old(self).address_space.trampoline_size,
            r is Ok <==> span_mapped(old(self).mem(), addr, 8),
            r is Ok ==> final(self).mem() == write_span(old(self).mem(), addr, spec_u64_to_le_bytes(value))
                && final(self).diag.writes@ == old(self).diag.writes@.push((addr, 8usize)),
            r is Err ==> final(self).mem() == old(self).mem() && final(self).diag.writes == old(self).diag.writes,
    {
        let bytes = vstd::bytes::u64_to_le_bytes(value);
        proof {
            vstd::bytes::lemma_auto_spec_u64_to_from_le_bytes();
        }
        self.write_bytes(addr, bytes.as_slice())
    }
}

} // verus!
