//! Bootstrap planning: the guest regions an application image needs (its
//! segments rounded out to pages, plus stack, heap, selector pool, extern
//! data and trampoline pages), the initial stack with `argc`/`argv`, and
//! the constants that imported data symbols resolve to.
use vstd::prelude::*;
use crate::error::{CoreError, CoreResult};
use crate::memory::{
    align_down, align_up_checked, mach_prot_to_guest, prot_to_string, spec_mach_prot_to_guest, spec_prot_string,
    GUEST_PROT_EXEC, GUEST_PROT_READ, GUEST_PROT_WRITE,
};
use crate::text::{hex_padded, push_hex};

verus! {

/// Base of the page holding the data constants of imported symbols.
pub const HLE_EXTERN_DATA_BASE: u32 = 0x6ffef000;
pub const HLE_EXTERN_DATA_CGPOINT_ZERO: u32 = 0x6ffef000;
pub const HLE_EXTERN_DATA_CGSIZE_ZERO: u32 = 0x6ffef010;
pub const HLE_EXTERN_DATA_CGRECT_ZERO: u32 = 0x6ffef020;
pub const HLE_EXTERN_DATA_CGAFFINE_TRANSFORM_IDENTITY: u32 = 0x6ffef040;
pub const HLE_EXTERN_DATA_UIEDGEINSETS_ZERO: u32 = 0x6ffef060;
/// Thumb return stubs placed in the trampoline page.
pub const HLE_STUB_AUDIOQUEUE_CALLBACK_RETURN_THUMB: u32 = 0x6fff0fd0;
pub const HLE_STUB_UIAPPLICATION_POST_LAUNCH_THUMB: u32 = 0x6fff0ff0;

/// The runtime configuration that bootstrap planning reads.
#[derive(Debug, Clone)]
pub struct CoreConfig {
    pub page_size: u32,
    pub stack_base: u32,
    pub stack_size: u32,
    pub heap_base: u32,
    pub heap_size: u32,
    pub selector_pool_base: u32,
    pub selector_pool_size: u32,
    pub trampoline_addr: u32,
    pub trampoline_size: u32,
    pub argv0: String,
}

/// A load command segment of the Mach-O image.
#[derive(Debug, Clone)]
pub struct SegmentInfo {
    pub name: String,
    pub vmaddr: u32,
    pub vmsize: u32,
    pub fileoff: u32,
    pub filesize: u32,
    pub initprot: i32,
}

/// A guest region the plan maps.
#[derive(Debug, Clone)]
pub struct PlannedRegion {
    pub name: String,
    pub kind: String,
    pub start: u32,
    pub end: u32,
    pub size: u32,
    pub prot: String,
    pub fileoff: Option<u32>,
    pub filesize: Option<u32>,
    pub loaded_bytes: Option<u32>,
    pub zero_fill_bytes: Option<u32>,
    pub note: Option<String>,
}

/// Where `argv[0]`, the `argv` vector and `argc` sit on the initial stack.
#[derive(Debug, Clone)]
pub struct StackBootstrap {
    pub argv0: String,
    pub argv0_addr: u32,
    pub argv_ptr: u32,
    pub argc: u32,
    pub sp: u32,
}

/// Plans the bootstrap of an application image.
#[derive(Debug, Clone)]
pub struct BootstrapPlanner {
    pub cfg: CoreConfig,
}

/// `x` rounded up to a multiple of 4.
pub open spec fn spec_align4(x: u32) -> u32 {
    ((x + 3) as u32) & !3u32
}

/// Rounding up to a multiple of 4 gives the smallest multiple of 4 that is
/// not below the value.
pub proof fn lemma_align4_law(x: u32)
    requires
        x + 3 <= u32::MAX,
    ensures
        x <= spec_align4(x),
        spec_align4(x) < x + 4,
        spec_align4(x) % 4 == 0,
{
    assert(x <= ((x + 3) as u32) & !3u32 && (((x + 3) as u32) & !3u32) < x + 4 && (((x + 3) as u32) & !3u32) % 4
        == 0) by (bit_vector)
        requires
            x + 3 <= u32::MAX,
    ;
}

/// Rounds `x` up to a multiple of 4.
pub fn align4(x: u32) -> (r: u32)
    requires
        x + 3 <= u32::MAX,
    ensures
        r == spec_align4(x),
{
    (x + 3) & !3
}

/// The region of a non-empty image segment, widened to whole pages: fails
/// when the segment wraps the address space or its end cannot be rounded
/// up. Bytes loaded from the file and bytes zero-filled are recorded.
pub fn build_image_region(seg: &SegmentInfo, page_size: u32) -> (r: CoreResult<PlannedRegion>)
    requires
        page_size > 0,
    ensures
        seg.vmaddr + seg.vmsize > u32::MAX ==> r is Err && r->Err_0 is Memory && r->Err_0.spec_message() == "segment "@
            + seg.name@ + " overflows guest address space"@,
        seg.vmaddr + seg.vmsize <= u32::MAX ==> {
            let seg_end = (seg.vmaddr + seg.vmsize) as u32;
            let start = seg.vmaddr & !((page_size - 1) as u32);
            if seg_end + (page_size - 1) > u32::MAX {
                r is Err && r->Err_0 is Memory && r->Err_0.spec_message() == "align_up overflow"@
            } else {
                let end = ((seg_end + (page_size - 1)) as u32) & !((page_size - 1) as u32);
                if end < start {
                    r is Err && r->Err_0 is Memory && r->Err_0.spec_message() == "segment "@ + seg.name@
                        + " produced negative size"@
                } else {
                    r matches Ok(p) && p.name@ == seg.name@ && p.kind@ == "image"@ && p.start == start && p.end == end
                        && p.size == end - start && p.prot@ == spec_prot_string(spec_mach_prot_to_guest(seg.initprot))
                        && p.fileoff == Some(seg.fileoff) && p.filesize == Some(seg.filesize) && p.loaded_bytes == Some(
                        if seg.filesize < seg.vmsize {
                            seg.filesize
                        } else {
                            seg.vmsize
                        },
                    ) && p.zero_fill_bytes == Some(
                        if seg.vmsize < seg.filesize {
                            0u32
                        } else {
                            (seg.vmsize - seg.filesize) as u32
                        },
                    ) && p.note is None
                }
            }
        },
{
    let seg_end = match seg.vmaddr.checked_add(seg.vmsize) {
        Some(e) => e,
        None => {
            let mut msg = String::from_str("segment ");
            msg.append(seg.name.as_str());
            msg.append(" overflows guest address space");
            return Err(CoreError::Memory(msg));
        },
    };
    let start = align_down(seg.vmaddr, page_size);
    let end = match align_up_checked(seg_end, page_size) {
        Ok(e) => e,
        Err(e) => return Err(e),
    };
    let size = match end.checked_sub(start) {
        Some(s) => s,
        None => {
            let mut msg = String::from_str("segment ");
            msg.append(seg.name.as_str());
            msg.append(" produced negative size");
            return Err(CoreError::Memory(msg));
        },
    };
    let loaded_bytes = if seg.filesize < seg.vmsize { seg.filesize } else { seg.vmsize };
    let zero_fill_bytes = seg.vmsize.saturating_sub(seg.filesize);
    Ok(
        PlannedRegion {
            name: seg.name.clone(),
            kind: String::from_str("image"),
            start,
            end,
            size,
            prot: prot_to_string(mach_prot_to_guest(seg.initprot)),
            fileoff: Some(seg.fileoff),
            filesize: Some(seg.filesize),
            loaded_bytes: Some(loaded_bytes),
            zero_fill_bytes: Some(zero_fill_bytes),
            note: None,
        },
    )
}

/// A synthetic region `[start, start + size)`; fails when it wraps the
/// address space.
pub fn simple_region(name: &str, kind: &str, start: u32, size: u32, prot: u32, note: Option<String>) -> (r:
    CoreResult<PlannedRegion>)
    ensures
        start + size > u32::MAX ==> r is Err && r->Err_0 is Memory && r->Err_0.spec_message() == "synthetic region "@
            + name@ + " overflows guest address space"@,
        start + size <= u32::MAX ==> (r matches Ok(p) && p.name@ == name@ && p.kind@ == kind@ && p.start == start
            && p.end == start + size && p.size == size && p.prot@ == spec_prot_string(prot) && p.fileoff is None
            && p.filesize is None && p.loaded_bytes is None && p.zero_fill_bytes is None && p.note == note),
{
    let end = match start.checked_add(size) {
        Some(e) => e,
        None => {
            let mut msg = String::from_str("synthetic region ");
            msg.append(name);
            msg.append(" overflows guest address space");
            return Err(CoreError::Memory(msg));
        },
    };
    Ok(
        PlannedRegion {
            name: name.to_owned(),
            kind: kind.to_owned(),
            start,
            end,
            size,
            prot: prot_to_string(prot),
            fileoff: None,
            filesize: None,
            loaded_bytes: None,
            zero_fill_bytes: None,
            note,
        },
    )
}

/// The initial stack below the top of the stack mapping: a 4 KiB
/// reservation, then `argv[0]` (NUL-terminated, padded to 4 bytes), then
/// the two-word `argv` vector, then `argc`, where the stack pointer starts.
pub fn build_initial_stack_layout(cfg: &CoreConfig, argv0: &str) -> (r: CoreResult<StackBootstrap>)
    requires
        vstd::utf8::encode_utf8(argv0@).len() + 4 <= u32::MAX,
    ensures
        ({
            let top = cfg.stack_base + cfg.stack_size;
            let slot = spec_align4((vstd::utf8::encode_utf8(argv0@).len() + 1) as u32);
            if top > u32::MAX {
                r is Err && r->Err_0 is Memory && r->Err_0.spec_message() == "stack top overflow"@
            } else if top < 0x1000 {
                r is Err && r->Err_0 is Memory && r->Err_0.spec_message() == "stack reservation underflow"@
            } else if top - 0x1000 < slot {
                r is Err && r->Err_0 is Memory && r->Err_0.spec_message() == "argv0 placement underflow"@
            } else if top - 0x1000 - slot < 8 {
                r is Err && r->Err_0 is Memory && r->Err_0.spec_message() == "argv vector underflow"@
            } else if top - 0x1000 - slot - 8 < 4 {
                r is Err && r->Err_0 is Memory && r->Err_0.spec_message() == "argc slot underflow"@
            } else {
                r matches Ok(s) && s.argv0@ == argv0@ && s.argv0_addr == top - 0x1000 - slot && s.argv_ptr == top
                    - 0x1000 - slot - 8 && s.sp == top - 0x1000 - slot - 12 && s.argc == 1
            }
        }),
{
    let top = match cfg.stack_base.checked_add(cfg.stack_size) {
        Some(t) => t,
        None => return Err(CoreError::Memory(String::from_str("stack top overflow"))),
    };
    let mut p = match top.checked_sub(0x1000) {
        Some(v) => v,
        None => return Err(CoreError::Memory(String::from_str("stack reservation underflow"))),
    };
    let string_len = argv0.len() as u32 + 1;
    p = match p.checked_sub(align4(string_len)) {
        Some(v) => v,
        None => return Err(CoreError::Memory(String::from_str("argv0 placement underflow"))),
    };
    let argv0_addr = p;
    p = match p.checked_sub(8) {
        Some(v) => v,
        None => return Err(CoreError::Memory(String::from_str("argv vector underflow"))),
    };
    let argv_ptr = p;
    p = match p.checked_sub(4) {
        Some(v) => v,
        None => return Err(CoreError::Memory(String::from_str("argc slot underflow"))),
    };
    Ok(StackBootstrap { argv0: argv0.to_owned(), argv0_addr, argv_ptr, argc: 1, sp: p })
}

/// The file bytes of a segment; fails when its file range wraps or lies
/// outside the Mach-O slice.
pub fn read_segment_bytes(macho_slice: &[u8], seg: &SegmentInfo) -> (r: CoreResult<Vec<u8>>)
    ensures
        ({
            let end = seg.fileoff + seg.filesize;
            if end > usize::MAX {
                r is Err && r->Err_0 is InvalidImage && r->Err_0.spec_message() == "segment "@ + seg.name@
                    + " file range overflow"@
            } else if end > macho_slice@.len() {
                r is Err && r->Err_0 is InvalidImage && r->Err_0.spec_message() == "segment "@ + seg.name@
                    + " points outside the selected Mach-O slice (off=0x"@ + hex_padded(seg.fileoff as nat, 0)
                    + " size=0x"@ + hex_padded(seg.filesize as nat, 0) + " len=0x"@ + hex_padded(
                    macho_slice@.len(),
                    0,
                ) + ")"@
            } else {
                r matches Ok(v) && v@ == macho_slice@.subrange(seg.fileoff as int, end)
            }
        }),
{
    let fileoff = seg.fileoff as usize;
    let filesize = seg.filesize as usize;
    let end = match fileoff.checked_add(filesize) {
        Some(e) => e,
        None => {
            let mut msg = String::from_str("segment ");
            msg.append(seg.name.as_str());
            msg.append(" file range overflow");
            return Err(CoreError::InvalidImage(msg));
        },
    };
    if end > macho_slice.len() {
        let mut msg = String::from_str("segment ");
        msg.append(seg.name.as_str());
        msg.append(" points outside the selected Mach-O slice (off=0x");
        push_hex(&mut msg, fileoff as u64, 0);
        msg.append(" size=0x");
        push_hex(&mut msg, filesize as u64, 0);
        msg.append(" len=0x");
        push_hex(&mut msg, macho_slice.len() as u64, 0);
        msg.append(")");
        return Err(CoreError::InvalidImage(msg));
    }
    let mut out: Vec<u8> = Vec::new();
    let mut i = fileoff;
    while i < end
        invariant
            fileoff <= i <= end,
            end <= macho_slice@.len(),
            out@ == macho_slice@.subrange(fileoff as int, i as int),
        decreases end - i,
    {
        out.push(macho_slice[i]);
        assert(out@ =~= macho_slice@.subrange(fileoff as int, i + 1));
        i = i + 1;
    }
    Ok(out)
}

/// The guest address, bytes and description of the constant an imported
/// data symbol resolves to (single-precision zeros and ones, little-endian).
pub open spec fn spec_data_external(symbol: Seq<char>) -> Option<(u32, Seq<u8>, Seq<char>)> {
    let z = seq![0u8, 0u8, 0u8, 0u8];
    let one = seq![0u8, 0u8, 0x80u8, 0x3fu8];
    if symbol == "CGPointZero"@ {
        Some((HLE_EXTERN_DATA_CGPOINT_ZERO, z + z, "CGPoint{0,0}"@))
    } else if symbol == "CGSizeZero"@ {
        Some((HLE_EXTERN_DATA_CGSIZE_ZERO, z + z, "CGSize{0,0}"@))
    } else if symbol == "CGRectZero"@ {
        Some((HLE_EXTERN_DATA_CGRECT_ZERO, z + z + z + z, "CGRect{{0,0},{0,0}}"@))
    } else if symbol == "CGAffineTransformIdentity"@ {
        Some((HLE_EXTERN_DATA_CGAFFINE_TRANSFORM_IDENTITY, one + z + z + one + z + z, "CGAffineTransformIdentity"@))
    } else if symbol == "UIEdgeInsetsZero"@ {
        Some((HLE_EXTERN_DATA_UIEDGEINSETS_ZERO, z + z + z + z, "UIEdgeInsets{0,0,0,0}"@))
    } else {
        None
    }
}

/// Appends four bytes.
fn push4(out: &mut Vec<u8>, a: u8, b: u8, c: u8, d: u8)
    ensures
        final(out)@ == old(out)@ + seq![a, b, c, d],
{
    let ghost o = out@;
    out.push(a);
    out.push(b);
    out.push(c);
    out.push(d);
    assert(out@ =~= o + seq![a, b, c, d]);
}

/// The constant an imported data symbol resolves to: its guest address,
/// its bytes and a description.
pub fn data_external_binding(symbol: &str) -> (r: Option<(u32, Vec<u8>, &'static str)>)
    ensures
        match spec_data_external(symbol@) {
            Some((addr, bytes, note)) => r matches Some(t) && t.0 == addr && t.1@ == bytes && t.2@ == note,
            None => r is None,
        },
{
    let mut bytes: Vec<u8> = Vec::new();
    if crate::text::str_eq(symbol, "CGPointZero") {
        push4(&mut bytes, 0, 0, 0, 0);
        push4(&mut bytes, 0, 0, 0, 0);
        Some((HLE_EXTERN_DATA_CGPOINT_ZERO, bytes, "CGPoint{0,0}"))
    } else if crate::text::str_eq(symbol, "CGSizeZero") {
        push4(&mut bytes, 0, 0, 0, 0);
        push4(&mut bytes, 0, 0, 0, 0);
        Some((HLE_EXTERN_DATA_CGSIZE_ZERO, bytes, "CGSize{0,0}"))
    } else if crate::text::str_eq(symbol, "CGRectZero") {
        push4(&mut bytes, 0, 0, 0, 0);
        push4(&mut bytes, 0, 0, 0, 0);
        push4(&mut bytes, 0, 0, 0, 0);
        push4(&mut bytes, 0, 0, 0, 0);
        Some((HLE_EXTERN_DATA_CGRECT_ZERO, bytes, "CGRect{{0,0},{0,0}}"))
    } else if crate::text::str_eq(symbol, "CGAffineTransformIdentity") {
        push4(&mut bytes, 0, 0, 0x80, 0x3f);
        push4(&mut bytes, 0, 0, 0, 0);
        push4(&mut bytes, 0, 0, 0, 0);
        push4(&mut bytes, 0, 0, 0x80, 0x3f);
        push4(&mut bytes, 0, 0, 0, 0);
        push4(&mut bytes, 0, 0, 0, 0);
        Some((HLE_EXTERN_DATA_CGAFFINE_TRANSFORM_IDENTITY, bytes, "CGAffineTransformIdentity"))
    } else if crate::text::str_eq(symbol, "UIEdgeInsetsZero") {
        push4(&mut bytes, 0, 0, 0, 0);
        push4(&mut bytes, 0, 0, 0, 0);
        push4(&mut bytes, 0, 0, 0, 0);
        push4(&mut bytes, 0, 0, 0, 0);
        Some((HLE_EXTERN_DATA_UIEDGEINSETS_ZERO, bytes, "UIEdgeInsets{0,0,0,0}"))
    } else {
        None
    }
}

/// The ARM `bx lr` instruction, little-endian.
pub open spec fn bx_lr_byte(k: int) -> u8 {
    if k == 0 {
        0x1e
    } else if k == 1 {
        0xff
    } else if k == 2 {
        0x2f
    } else {
        0xe1
    }
}

/// A Thumb `bx lr; bx lr` pair written at `off` when it fits.
pub open spec fn patch_thumb_return(page: Seq<u8>, off: int) -> Seq<u8> {
    if 0 <= off && off + 4 <= page.len() {
        page.update(off, 0x70).update(off + 1, 0x47).update(off + 2, 0x70).update(off + 3, 0x47)
    } else {
        page
    }
}

/// The trampoline page: every whole word is `bx lr`, and the two Thumb
/// return stubs that fall inside the page are `bx lr` in Thumb.
pub open spec fn spec_trampoline_page(addr: u32, size: u32) -> Seq<u8> {
    let whole = (size / 4) * 4;
    let base = Seq::new(size as nat, |k: int| if k < whole { bx_lr_byte(k % 4) } else { 0u8 });
    let off1: int = if HLE_STUB_AUDIOQUEUE_CALLBACK_RETURN_THUMB < addr {
        0
    } else {
        HLE_STUB_AUDIOQUEUE_CALLBACK_RETURN_THUMB - addr
    };
    let off2: int = if HLE_STUB_UIAPPLICATION_POST_LAUNCH_THUMB < addr {
        0
    } else {
        HLE_STUB_UIAPPLICATION_POST_LAUNCH_THUMB - addr
    };
    patch_thumb_return(patch_thumb_return(base, off1), off2)
}

/// Writes a Thumb `bx lr; bx lr` pair at `off` when it fits.
fn patch_thumb_stub(page: &mut Vec<u8>, off: usize)
    ensures
        final(page)@ == patch_thumb_return(old(page)@, off as int),
{
    if off <= page.len() && page.len() - off >= 4 {
        page.set(off, 0x70);
        page.set(off + 1, 0x47);
        page.set(off + 2, 0x70);
        page.set(off + 3, 0x47);
    }
}

/// The little-endian word formed by the four bytes at `i`.
pub open spec fn le_word_at(s: Seq<u8>, i: int) -> u32 {
    (s[i] as u32) | ((s[i + 1] as u32) << 8) | ((s[i + 2] as u32) << 16) | ((s[i + 3] as u32) << 24)
}

/// The little-endian halfword formed by the two bytes at `i`.
pub open spec fn le_half_at(s: Seq<u8>, i: int) -> u16 {
    ((s[i] as u16) | ((s[i + 1] as u16) << 8)) as u16
}

/// Offset of a stub address within a page at `addr` (0 below the page).
pub open spec fn stub_offset(stub: u32, addr: u32) -> int {
    if stub < addr {
        0
    } else {
        stub - addr
    }
}

/// The four bytes at `i` lie wholly outside the four at `off`.
pub open spec fn slot_clear_of(i: int, off: int) -> bool {
    i + 4 <= off || off + 4 <= i
}

/// Every word-aligned slot of the trampoline page returns to the caller:
/// it holds the ARM instruction `bx lr` (0xE12FFF1E), except the two
/// Thumb return stubs, each of which holds the Thumb `bx lr` (0x4770) in
/// both halfwords.
pub proof fn lemma_trampoline_slots_return(addr: u32, size: u32, i: int)
    ensures
        0 <= i && i % 4 == 0 && i + 4 <= size && slot_clear_of(i, stub_offset(HLE_STUB_AUDIOQUEUE_CALLBACK_RETURN_THUMB, addr))
            && slot_clear_of(i, stub_offset(HLE_STUB_UIAPPLICATION_POST_LAUNCH_THUMB, addr)) ==> le_word_at(
            spec_trampoline_page(addr, size),
            i,
        ) == 0xE12F_FF1Eu32,
        ({
            let o = stub_offset(HLE_STUB_UIAPPLICATION_POST_LAUNCH_THUMB, addr);
            o + 4 <= size ==> le_half_at(spec_trampoline_page(addr, size), o) == 0x4770u16 && le_half_at(
                spec_trampoline_page(addr, size),
                o + 2,
            ) == 0x4770u16
        }),
        ({
            let o = stub_offset(HLE_STUB_AUDIOQUEUE_CALLBACK_RETURN_THUMB, addr);
            o + 4 <= size && slot_clear_of(o, stub_offset(HLE_STUB_UIAPPLICATION_POST_LAUNCH_THUMB, addr)) ==> le_half_at(
                spec_trampoline_page(addr, size),
                o,
            ) == 0x4770u16 && le_half_at(spec_trampoline_page(addr, size), o + 2) == 0x4770u16
        }),
{
    let page = spec_trampoline_page(addr, size);
    let whole = (size / 4) * 4;
    let o1 = stub_offset(HLE_STUB_AUDIOQUEUE_CALLBACK_RETURN_THUMB, addr);
    let o2 = stub_offset(HLE_STUB_UIAPPLICATION_POST_LAUNCH_THUMB, addr);
    assert(((0x70u8 as u16) | ((0x47u8 as u16) << 8)) as u16 == 0x4770u16) by (bit_vector);
    assert((0x1eu8 as u32) | ((0xffu8 as u32) << 8) | ((0x2fu8 as u32) << 16) | ((0xe1u8 as u32) << 24) == 0xE12F_FF1Eu32)
        by (bit_vector);
    if 0 <= i && i % 4 == 0 && i + 4 <= size && slot_clear_of(i, o1) && slot_clear_of(i, o2) {
        assert(i + 4 <= whole) by (nonlinear_arith)
            requires
                0 <= i,
                i % 4 == 0,
                i + 4 <= size,
                whole == (size / 4) * 4,
        ;
        assert(page[i] == 0x1eu8);
        assert(page[i + 1] == 0xffu8);
        assert(page[i + 2] == 0x2fu8);
        assert(page[i + 3] == 0xe1u8);
    }
    if 0 <= o2 && o2 + 4 <= size {
        assert(page[o2] == 0x70u8);
        assert(page[o2 + 1] == 0x47u8);
        assert(page[o2 + 2] == 0x70u8);
        assert(page[o2 + 3] == 0x47u8);
    }
    if o1 + 4 <= size && slot_clear_of(o1, o2) {
        assert(page[o1] == 0x70u8);
        assert(page[o1 + 1] == 0x47u8);
        assert(page[o1 + 2] == 0x70u8);
        assert(page[o1 + 3] == 0x47u8);
    }
}

/// Builds the trampoline page for a page of `size` bytes at `addr`.
pub fn trampoline_page(addr: u32, size: u32) -> (page: Vec<u8>)
    ensures
        page@ == spec_trampoline_page(addr, size),
{
    let whole = (size / 4) * 4;
    let mut page: Vec<u8> = Vec::new();
    let mut k: u32 = 0;
    while k < size
        invariant
            k <= size,
            whole == (size / 4) * 4,
            page@ =~= Seq::new(k as nat, |j: int| if j < whole { bx_lr_byte(j % 4) } else { 0u8 }),
        decreases size - k,
    {
        let b: u8 = if k < whole {
            let r = k % 4;
            if r == 0 {
                0x1e
            } else if r == 1 {
                0xff
            } else if r == 2 {
                0x2f
            } else {
                0xe1
            }
        } else {
            0
        };
        page.push(b);
        k = k + 1;
    }
    patch_thumb_stub(&mut page, HLE_STUB_AUDIOQUEUE_CALLBACK_RETURN_THUMB.saturating_sub(addr) as usize);
    patch_thumb_stub(&mut page, HLE_STUB_UIAPPLICATION_POST_LAUNCH_THUMB.saturating_sub(addr) as usize);
    page
}

/// Start and size of the synthetic regions: stack, heap, selector pool,
/// extern data page, trampoline page.
pub open spec fn synthetic_region_spans(c: CoreConfig) -> Seq<(u32, u32)> {
    seq![
        (c.stack_base, c.stack_size),
        (c.heap_base, c.heap_size),
        (c.selector_pool_base, c.selector_pool_size),
        (HLE_EXTERN_DATA_BASE, c.page_size),
        (c.trampoline_addr, c.trampoline_size),
    ]
}

/// Names (and kinds) of the synthetic regions.
pub open spec fn synthetic_region_names() -> Seq<Seq<char>> {
    seq!["stack"@, "heap"@, "selector_pool"@, "extern_data"@, "trampoline"@]
}

/// The error of the first synthetic region that wraps the address space.
pub open spec fn synthetic_region_error(c: CoreConfig) -> Option<Seq<char>> {
    let s = synthetic_region_spans(c);
    let n = synthetic_region_names();
    if s[0].0 + s[0].1 > u32::MAX {
        Some("synthetic region "@ + n[0] + " overflows guest address space"@)
    } else if s[1].0 + s[1].1 > u32::MAX {
        Some("synthetic region "@ + n[1] + " overflows guest address space"@)
    } else if s[2].0 + s[2].1 > u32::MAX {
        Some("synthetic region "@ + n[2] + " overflows guest address space"@)
    } else if s[3].0 + s[3].1 > u32::MAX {
        Some("synthetic region "@ + n[3] + " overflows guest address space"@)
    } else if s[4].0 + s[4].1 > u32::MAX {
        Some("synthetic region "@ + n[4] + " overflows guest address space"@)
    } else {
        None
    }
}

impl BootstrapPlanner {
    /// A planner for configuration `cfg`.
    pub fn new(cfg: CoreConfig) -> (p: Self)
        ensures
            p.cfg == cfg,
    {
        BootstrapPlanner { cfg }
    }

    /// The synthetic regions every plan maps, in order: stack, heap,
    /// selector pool, extern data page and trampoline page (the last read
    /// and execute, the others read and write). Fails when one wraps the
    /// address space.
    pub fn synthetic_regions(&self) -> (r: CoreResult<Vec<PlannedRegion>>)
        ensures
            match synthetic_region_error(self.cfg) {
                Some(m) => r is Err && r->Err_0 is Memory && r->Err_0.spec_message() == m,
                None => r matches Ok(v) && v@.len() == 5 && forall|i: int|
                    0 <= i < 5 ==> {
                        &&& (#[trigger] v@[i]).name@ == synthetic_region_names()[i]
                        &&& v@[i].kind@ == synthetic_region_names()[i]
                        &&& v@[i].start == synthetic_region_spans(self.cfg)[i].0
                        &&& v@[i].size == synthetic_region_spans(self.cfg)[i].1
                        &&& v@[i].end == synthetic_region_spans(self.cfg)[i].0 + synthetic_region_spans(self.cfg)[i].1
                        &&& v@[i].prot@ == spec_prot_string(
                            if i == 4 {
                                GUEST_PROT_READ | GUEST_PROT_EXEC
                            } else {
                                GUEST_PROT_READ | GUEST_PROT_WRITE
                            },
                        )
                        &&& v@[i].note is Some
                    },
            },
    {
        let c = &self.cfg;
        let rw = GUEST_PROT_READ | GUEST_PROT_WRITE;
        let mut out: Vec<PlannedRegion> = Vec::new();
        let stack = match simple_region(
            "stack",
            "stack",
            c.stack_base,
            c.stack_size,
            rw,
            Some(String::from_str("argc/argv bootstrap lives near the top of this mapping")),
        ) {
            Ok(r) => r,
            Err(e) => return Err(e),
        };
        out.push(stack);
        let heap = match simple_region(
            "heap",
            "heap",
            c.heap_base,
            c.heap_size,
            rw,
            Some(String::from_str("future malloc arena / CoreFoundation allocations")),
        ) {
            Ok(r) => r,
            Err(e) => return Err(e),
        };
        out.push(heap);
        let pool = match simple_region(
            "selector_pool",
            "selector_pool",
            c.selector_pool_base,
            c.selector_pool_size,
            rw,
            Some(String::from_str("future ObjC selector/string pool")),
        ) {
            Ok(r) => r,
            Err(e) => return Err(e),
        };
        out.push(pool);
        let data = match simple_region(
            "extern_data",
            "extern_data",
            HLE_EXTERN_DATA_BASE,
            c.page_size,
            rw,
            Some(String::from_str("synthetic data extern page for imported CoreGraphics/UIEdgeInsets constants")),
        ) {
            Ok(r) => r,
            Err(e) => return Err(e),
        };
        out.push(data);
        let tramp = match simple_region(
            "trampoline",
            "trampoline",
            c.trampoline_addr,
            c.trampoline_size,
            GUEST_PROT_READ | GUEST_PROT_EXEC,
            Some(String::from_str("stub return/trap page; each unresolved import gets a tiny bx lr slot")),
        ) {
            Ok(r) => r,
            Err(e) => return Err(e),
        };
        out.push(tramp);
        Ok(out)
    }
}

} // verus!
