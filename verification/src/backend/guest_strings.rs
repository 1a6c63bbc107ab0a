//! Strings in guest memory: C strings, CFString constants, interned selector
//! names, and the labels used to describe guest pointers.
use vstd::prelude::*;
use vstd::bytes::spec_u32_from_le_bytes;
use crate::error::{CoreError, CoreResult};
use crate::text::{hex_prefixed, push_char, push_hex_prefixed, str_eq};
use super::{span_bytes, span_mapped, write_span, MemoryArm32Backend, RegionView};
use super::guest_access::{c_string_byte_ok, string_from_utf8, write_error_message};
use super::heap::align_up_mask;

verus! {

/// The byte at `addr` (meaningful when it is mapped).
pub open spec fn mem_u8(s: Seq<RegionView>, addr: u32) -> u8 {
    span_bytes(s, addr, 1)[0]
}

/// The little-endian word at `addr` (meaningful when it is mapped).
pub open spec fn mem_u32(s: Seq<RegionView>, addr: u32) -> u32 {
    spec_u32_from_le_bytes(span_bytes(s, addr, 4))
}

/// Scanning at most `max` bytes from `addr` (the address wrapping around):
/// the bytes before the first NUL, or `None` when an unmapped byte or a byte
/// that is not printable ASCII comes first.
pub open spec fn c_string_scan(s: Seq<RegionView>, addr: u32, max: nat) -> Option<Seq<u8>>
    decreases max,
{
    if max == 0 {
        Some(Seq::empty())
    } else if !span_mapped(s, addr, 1) {
        None
    } else {
        let b = mem_u8(s, addr);
        if b == 0 {
            Some(Seq::empty())
        } else if !c_string_byte_ok(b) {
            None
        } else {
            match c_string_scan(s, addr.wrapping_add(1), (max - 1) as nat) {
                Some(rest) => Some(seq![b] + rest),
                None => None,
            }
        }
    }
}

/// Bytes read as ASCII characters.
pub open spec fn ascii_chars(b: Seq<u8>) -> Seq<char> {
    b.map_values(|x: u8| x as char)
}

/// The printable C string at `addr`, at most `max` bytes, when it is
/// non-empty.
pub open spec fn spec_c_string(s: Seq<RegionView>, addr: u32, max: nat) -> Option<Seq<char>> {
    if addr == 0 {
        None
    } else {
        match c_string_scan(s, addr, max) {
            Some(b) => if b.len() == 0 {
                None
            } else {
                Some(ascii_chars(b))
            },
            None => None,
        }
    }
}

/// The texts of a label map.
pub open spec fn labels_view(m: Map<u32, String>) -> Map<u32, Seq<char>> {
    m.map_values(|s: String| s@)
}

/// Inserting a label inserts its text.
pub proof fn lemma_labels_view_insert(m: Map<u32, String>, k: u32, v: String)
    ensures
        labels_view(m.insert(k, v)) == labels_view(m).insert(k, v@),
{
    assert(labels_view(m.insert(k, v)) =~= labels_view(m).insert(k, v@));
}

/// Removing a label removes its text.
pub proof fn lemma_labels_view_remove(m: Map<u32, String>, k: u32)
    ensures
        labels_view(m.remove(k)) == labels_view(m).remove(k),
{
    assert(labels_view(m.remove(k)) =~= labels_view(m).remove(k));
}

/// How a guest pointer is described given the object label texts `labels`:
/// `nil`, its label, the C string it points at, or just its address.
pub open spec fn describe_in(labels: Map<u32, Seq<char>>, mem: Seq<RegionView>, addr: u32) -> Seq<char> {
    if addr == 0 {
        "nil"@
    } else if labels.contains_key(addr) {
        hex_prefixed(addr as nat, 8) + "<"@ + labels[addr] + ">"@
    } else {
        match spec_c_string(mem, addr, 96) {
            Some(t) => hex_prefixed(addr as nat, 8) + ":'"@ + t + "'"@,
            None => hex_prefixed(addr as nat, 8),
        }
    }
}

/// How a guest pointer is described in traces.
pub open spec fn spec_describe_ptr(b: MemoryArm32Backend, addr: u32) -> Seq<char> {
    describe_in(labels_view(b.diag.object_labels@), b.mem(), addr)
}

/// Whether the pool interns `text`.
pub open spec fn pool_has(pool: Seq<(String, u32)>, text: Seq<char>) -> bool {
    exists|i: int| 0 <= i < pool.len() && (#[trigger] pool[i]).0@ == text
}

/// The address the pool interned `text` at (meaningful when it has it).
pub open spec fn pool_addr(pool: Seq<(String, u32)>, text: Seq<char>) -> u32 {
    pool[choose|i: int| 0 <= i < pool.len() && (#[trigger] pool[i]).0@ == text].1
}

/// No text is interned twice.
pub open spec fn pool_unique(pool: Seq<(String, u32)>) -> bool {
    forall|i: int, j: int| 0 <= i < j < pool.len() ==> (#[trigger] pool[i]).0@ != (#[trigger] pool[j]).0@
}

impl MemoryArm32Backend {
    /// The label attached to the symbol at `addr`.
    pub fn symbol_label(&self, addr: u32) -> (r: Option<&str>)
        ensures
            r is Some <==> self.diag.symbol_labels@.contains_key(addr),
            r matches Some(t) ==> t@ == self.diag.symbol_labels@[addr]@,
    {
        match self.diag.symbol_labels.get(&addr) {
            Some(s) => Some(s.as_str()),
            None => None,
        }
    }

    /// The label attached to the object at `addr`.
    pub fn object_label(&self, addr: u32) -> (r: Option<&str>)
        ensures
            r is Some <==> self.diag.object_labels@.contains_key(addr),
            r matches Some(t) ==> t@ == self.diag.object_labels@[addr]@,
    {
        match self.diag.object_labels.get(&addr) {
            Some(s) => Some(s.as_str()),
            None => None,
        }
    }

    /// The non-empty printable C string at `addr`, reading at most
    /// `max_len` bytes; `None` for null, unmapped or non-printable bytes.
    pub fn read_c_string(&self, addr: u32, max_len: usize) -> (r: Option<String>)
        requires
            self.wf(),
        ensures
            match r {
                Some(s) => spec_c_string(self.mem(), addr, max_len as nat) == Some(s@),
                None => spec_c_string(self.mem(), addr, max_len as nat) is None,
            },
    {
        if addr == 0 {
            return None;
        }
        let mut bytes: Vec<u8> = Vec::new();
        let mut i: usize = 0;
        let mut at = addr;
        while i < max_len
            invariant
                self.wf(),
                i <= max_len,
                at == (addr + i) % 0x1_0000_0000,
                c_string_scan(self.mem(), addr, max_len as nat) == match c_string_scan(
                    self.mem(),
                    at,
                    (max_len - i) as nat,
                ) {
                    Some(rest) => Some(bytes@ + rest),
                    None => None::<Seq<u8>>,
                },
                forall|k: int| 0 <= k < bytes@.len() ==> c_string_byte_ok(#[trigger] bytes@[k]),
            decreases max_len - i,
        {
            let b = match self.read_u8(at) {
                Ok(b) => b,
                Err(_) => return None,
            };
            if b == 0 {
                proof {
                    assert(bytes@ + Seq::<u8>::empty() == bytes@);
                }
                break;
            }
            if (0x21 <= b && b <= 0x7e) || b == 0x20 || b == 0x3a || b == 0x5f {
                proof {
                    let rest = c_string_scan(self.mem(), at.wrapping_add(1), (max_len - i - 1) as nat);
                    if rest is Some {
                        assert(bytes@ + (seq![b] + rest->Some_0) == bytes@.push(b) + rest->Some_0);
                    }
                }
                bytes.push(b);
                at = at.wrapping_add(1);
                i = i + 1;
            } else {
                return None;
            }
        }
        proof {
            if i == max_len {
                assert(bytes@ + Seq::<u8>::empty() == bytes@);
            }
        }
        if bytes.len() == 0 {
            return None;
        }
        let mut s = String::new();
        let mut k: usize = 0;
        while k < bytes.len()
            invariant
                k <= bytes@.len(),
                s@ == ascii_chars(bytes@.subrange(0, k as int)),
            decreases bytes@.len() - k,
        {
            push_char(&mut s, bytes[k] as char);
            proof {
                assert(ascii_chars(bytes@.subrange(0, k + 1)) =~= ascii_chars(bytes@.subrange(0, k as int)).push(
                    bytes@[k as int] as char,
                ));
            }
            k = k + 1;
        }
        proof {
            assert(bytes@.subrange(0, bytes@.len() as int) == bytes@);
        }
        Some(s)
    }

    /// Describes a guest pointer: `nil`, `0x…<label>`, `0x…:'text'` or
    /// `0x…`.
    pub fn describe_ptr(&self, addr: u32) -> (s: String)
        requires
            self.wf(),
        ensures
            s@ == spec_describe_ptr(*self, addr),
    {
        if addr == 0 {
            return String::from_str("nil");
        }
        let mut s = String::new();
        push_hex_prefixed(&mut s, addr as u64, 8);
        match self.object_label(addr) {
            Some(label) => {
                s.append("<");
                s.append(label);
                s.append(">");
            },
            None => match self.read_c_string(addr, 96) {
                Some(text) => {
                    s.append(":'");
                    s.append(text.as_str());
                    s.append("'");
                },
                None => {},
            },
        }
        s
    }

    /// The `size` bytes at `addr` as UTF-8 text; `None` for null, an empty
    /// or over-long (more than 1024 bytes) span, unmapped memory, a NUL byte
    /// or invalid UTF-8.
    pub fn read_guest_string_bytes(&self, addr: u32, size: usize) -> (r: Option<String>)
        requires
            self.wf(),
        ensures
            r is Some <==> addr != 0 && 0 < size <= 1024 && span_mapped(self.mem(), addr, size as u32) && !span_bytes(
                self.mem(),
                addr,
                size as u32,
            ).contains(0) && vstd::utf8::valid_utf8(span_bytes(self.mem(), addr, size as u32)),
            r matches Some(s) ==> vstd::utf8::encode_utf8(s@) == span_bytes(self.mem(), addr, size as u32),
    {
        if addr == 0 || size == 0 || size > 1024 {
            return None;
        }
        let bytes = match self.read_guest_bytes(addr, size as u32) {
            Ok(b) => b,
            Err(_) => return None,
        };
        let mut k: usize = 0;
        while k < bytes.len()
            invariant
                k <= bytes@.len(),
                forall|j: int| 0 <= j < k ==> bytes@[j] != 0,
            decreases bytes@.len() - k,
        {
            if bytes[k] == 0 {
                return None;
            }
            k = k + 1;
        }
        string_from_utf8(bytes)
    }

    /// Decodes the CFString constant at `addr`: its character pointer and
    /// length sit at offsets 8 and 12. When the image has a CFString
    /// section, `addr` must lie inside it.
    pub fn try_decode_cfstring_at(&self, addr: u32) -> (r: Option<String>)
        requires
            self.wf(),
        ensures
            ({
                let in_section = match self.runtime.objc.objc_section_cfstring {
                    Some(range) => addr >= range.addr && addr < crate::memory::sat_add_u32(range.addr, range.size),
                    None => true,
                };
                let p = addr.wrapping_add(8);
                let l = addr.wrapping_add(12);
                if addr == 0 || !in_section || !span_mapped(self.mem(), p, 4) || !span_mapped(self.mem(), l, 4) {
                    r is None
                } else {
                    let ptr = mem_u32(self.mem(), p);
                    let len = mem_u32(self.mem(), l);
                    &&& r is Some <==> ptr != 0 && 0 < len <= 1024 && span_mapped(self.mem(), ptr, len) && !span_bytes(
                        self.mem(),
                        ptr,
                        len,
                    ).contains(0) && vstd::utf8::valid_utf8(span_bytes(self.mem(), ptr, len))
                    &&& r matches Some(s) ==> vstd::utf8::encode_utf8(s@) == span_bytes(self.mem(), ptr, len)
                }
            }),
    {
        if addr == 0 {
            return None;
        }
        match self.runtime.objc.objc_section_cfstring {
            Some(range) => {
                if !range.contains(addr) {
                    return None;
                }
            },
            None => {},
        }
        let cstr_ptr = match self.read_u32_le(addr.wrapping_add(8)) {
            Ok(v) => v,
            Err(_) => return None,
        };
        let len = match self.read_u32_le(addr.wrapping_add(12)) {
            Ok(v) => v,
            Err(_) => return None,
        };
        self.read_guest_string_bytes(cstr_ptr, len as usize)
    }

    /// A selector name: the C string at `sel_ptr`, or else the C string
    /// that the word at `sel_ptr` points to (at most 160 bytes).
    pub fn objc_read_selector_name(&self, sel_ptr: u32) -> (r: Option<String>)
        requires
            self.wf(),
        ensures
            match spec_c_string(self.mem(), sel_ptr, 160) {
                Some(t) => r matches Some(s) && s@ == t,
                None => if span_mapped(self.mem(), sel_ptr, 4) {
                    match spec_c_string(self.mem(), mem_u32(self.mem(), sel_ptr), 160) {
                        Some(t) => r matches Some(s) && s@ == t,
                        None => r is None,
                    }
                } else {
                    r is None
                },
            },
    {
        match self.read_c_string(sel_ptr, 160) {
            Some(s) => Some(s),
            None => {
                let nested = match self.read_u32_le(sel_ptr) {
                    Ok(v) => v,
                    Err(_) => return None,
                };
                self.read_c_string(nested, 160)
            },
        }
    }

    /// The C string (at most 256 bytes) that `argv[0]` points to.
    pub fn read_argv0(&self, argv: u32) -> (r: Option<String>)
        requires
            self.wf(),
        ensures
            if argv == 0 || !span_mapped(self.mem(), argv, 4) {
                r is None
            } else {
                match spec_c_string(self.mem(), mem_u32(self.mem(), argv), 256) {
                    Some(t) => r matches Some(s) && s@ == t,
                    None => r is None,
                }
            },
    {
        if argv == 0 {
            return None;
        }
        let ptr = match self.read_u32_le(argv) {
            Ok(v) => v,
            Err(_) => return None,
        };
        self.read_c_string(ptr, 256)
    }

    /// Index of the pool entry interning `text`, if any.
    pub fn find_interned_selector(&self, text: &str) -> (r: Option<usize>)
        ensures
            r is Some <==> pool_has(self.runtime.objc.selector_string_pool@, text@),
            r matches Some(i) ==> i < self.runtime.objc.selector_string_pool@.len()
                && self.runtime.objc.selector_string_pool@[i as int].0@ == text@,
    {
        let ghost pool = self.runtime.objc.selector_string_pool@;
        let mut i: usize = 0;
        while i < self.runtime.objc.selector_string_pool.len()
            invariant
                i <= pool.len(),
                pool == self.runtime.objc.selector_string_pool@,
                forall|j: int| 0 <= j < i ==> (#[trigger] pool[j]).0@ != text@,
            decreases pool.len() - i,
        {
            if str_eq(self.runtime.objc.selector_string_pool[i].0.as_str(), text) {
                return Some(i);
            }
            i = i + 1;
        }
        None
    }

    /// Interns `text` as a NUL-terminated string in the selector pool and
    /// returns its guest address; a text interned before keeps its address.
    /// New strings are placed at the pool cursor rounded up to 4 bytes.
    pub fn alloc_selector_c_string(&mut self, text: &str) -> (r: CoreResult<u32>)
        requires
            old(self).wf(),
            pool_unique(old(self).runtime.objc.selector_string_pool@),
            text@.len() < u32::MAX,
            vstd::utf8::encode_utf8(text@).len() < u32::MAX,
            pool_has(old(self).runtime.objc.selector_string_pool@, text@)
                || old(self).runtime.objc.selector_pool_cursor + 3 <= u32::MAX,
        ensures
            final(self).wf(),
            pool_unique(final(self).runtime.objc.selector_string_pool@),
            ({
                let o = old(self).runtime.objc;
                let pool = o.selector_string_pool@;
                let start = align_up_mask(o.selector_pool_cursor, 4);
                let bytes = vstd::utf8::encode_utf8(text@).push(0);
                let end = start + bytes.len();
                if pool_has(pool, text@) {
                    r == Ok::<u32, CoreError>(pool_addr(pool, text@)) && *final(self) == *old(self)
                } else if end > u32::MAX || end > o.selector_pool_end || !span_mapped(
                    old(self).mem(),
                    start,
                    bytes.len() as u32,
                ) {
                    &&& *final(self) == *old(self)
                    &&& r is Err
                    &&& r->Err_0 is Backend
                    &&& r->Err_0.spec_message() == if end > u32::MAX {
                        "selector pool overflow"@
                    } else if end > o.selector_pool_end {
                        "selector pool exhausted while interning '"@ + text@ + "'"@
                    } else {
                        write_error_message(old(self).mem(), start, bytes.len())
                    }
                } else {
                    &&& r == Ok::<u32, CoreError>(start)
                    &&& final(self).mem() == write_span(old(self).mem(), start, bytes)
                    &&& final(self).diag.writes@ == old(self).diag.writes@.push((start, bytes.len() as usize))
                    &&& final(self).runtime.objc.selector_pool_cursor == end
                    &&& final(self).runtime.objc.selector_string_pool@.len() == pool.len() + 1
                    &&& final(self).runtime.objc.selector_string_pool@.drop_last() == pool
                    &&& final(self).runtime.objc.selector_string_pool@.last().0@ == text@
                    &&& final(self).runtime.objc.selector_string_pool@.last().1 == start
                    &&& final(self).runtime.objc == (super::ObjcState {
                        selector_pool_cursor: final(self).runtime.objc.selector_pool_cursor,
                        selector_string_pool: final(self).runtime.objc.selector_string_pool,
                        ..o
                    })
                    &&& final(self).runtime.heap == old(self).runtime.heap
                    &&& final(self).runtime.ui_network == old(self).runtime.ui_network
                    &&& final(self).runtime.openal == old(self).runtime.openal
                    &&& final(self).cpu == old(self).cpu
                    &&& final(self).profile == old(self).profile
                }
            }),
    {
        match self.find_interned_selector(text) {
            Some(i) => {
                proof {
                    let pool = self.runtime.objc.selector_string_pool@;
                    let k = choose|k: int| 0 <= k < pool.len() && (#[trigger] pool[k]).0@ == text@;
                    if k != i as int {
                        if k < i {
                            assert(pool[k].0@ != pool[i as int].0@);
                        } else {
                            assert(pool[i as int].0@ != pool[k].0@);
                        }
                    }
                }
                return Ok(self.runtime.objc.selector_string_pool[i].1);
            },
            None => {},
        }
        let start = (self.runtime.objc.selector_pool_cursor + 3) & !3u32;
        let src = text.as_bytes();
        let mut bytes: Vec<u8> = Vec::new();
        let mut k: usize = 0;
        while k < src.len()
            invariant
                k <= src@.len(),
                bytes@ == src@.subrange(0, k as int),
            decreases src@.len() - k,
        {
            bytes.push(src[k]);
            k = k + 1;
        }
        bytes.push(0);
        proof {
            assert(src@.subrange(0, src@.len() as int) == src@);
        }
        let end = match start.checked_add(bytes.len() as u32) {
            Some(e) => e,
            None => return Err(CoreError::Backend(String::from_str("selector pool overflow"))),
        };
        if end > self.runtime.objc.selector_pool_end {
            let mut msg = String::from_str("selector pool exhausted while interning '");
            msg.append(text);
            msg.append("'");
            return Err(CoreError::Backend(msg));
        }
        match self.write_bytes(start, bytes.as_slice()) {
            Ok(()) => {},
            Err(e) => return Err(e),
        }
        self.runtime.objc.selector_pool_cursor = end;
        self.runtime.objc.selector_string_pool.push((text.to_owned(), start));
        proof {
            let pool = old(self).runtime.objc.selector_string_pool@;
            let p1 = self.runtime.objc.selector_string_pool@;
            assert(p1.drop_last() =~= pool);
            assert forall|i: int, j: int| 0 <= i < j < p1.len() implies (#[trigger] p1[i]).0@ != (#[trigger] p1[j]).0@ by {
                if j == p1.len() - 1 {
                    assert(pool[i] == p1[i]);
                } else {
                    assert(pool[i] == p1[i] && pool[j] == p1[j]);
                }
            }
        }
        Ok(start)
    }
}

} // verus!
