//! Guest-visible backing for Foundation objects the runtime makes up: the
//! characters of an `NSString` and the bytes of an `NSData`, each copied onto
//! the synthetic heap; and reading the text a guest value stands for.
use vstd::prelude::*;
use vstd::string::StringSliceAdditionalSpecFns;
use std::collections::HashMap;
use crate::error::CoreResult;
use crate::text::{chars_of, dec_seq, push_dec, remove_char, remove_char_exec, string_from_chars};
use crate::profiles::spec_payload_bytes;
use super::network::{
    spec_connection_state_code, spec_connection_state_name, spec_delivered_len, spec_error_description,
    spec_network_host, spec_network_path, spec_network_url, spec_should_retry,
};
use super::{span_bytes, span_mapped, MemoryArm32Backend};
use super::heap::{alloc_error, alloc_outcome, heap_after_alloc};
use super::guest_strings::{labels_view, lemma_labels_view_insert, mem_u32, spec_c_string};

verus! {

/// The `NSString` of the connection's absolute URL.
pub const HLE_FAKE_NSSTRING_URL_ABSOLUTE: u32 = 0x6fff05e0;
/// The `NSString` of the connection's host.
pub const HLE_FAKE_NSSTRING_URL_HOST: u32 = 0x6fff0600;
/// The `NSString` of the connection's path.
pub const HLE_FAKE_NSSTRING_URL_PATH: u32 = 0x6fff0620;
/// The `NSString` of the request's HTTP method.
pub const HLE_FAKE_NSSTRING_HTTP_METHOD: u32 = 0x6fff0640;
/// The `NSString` of the response's MIME type.
pub const HLE_FAKE_NSSTRING_MIME_TYPE: u32 = 0x6fff0660;
/// The `NSString` of the error domain.
pub const HLE_FAKE_NSSTRING_ERROR_DOMAIN: u32 = 0x6fff0680;
/// The `NSString` of the error description.
pub const HLE_FAKE_NSSTRING_ERROR_DESCRIPTION: u32 = 0x6fff06a0;

/// The characters of a synthetic `NSString`, copied onto the heap with a
/// NUL after them.
#[derive(Debug, Clone)]
pub struct SyntheticStringBacking {
    pub ptr: u32,
    /// The number of characters.
    pub len: u32,
    pub text: String,
    pub font_name: Option<String>,
    pub font_size_bits: u32,
    pub font_size_explicit: bool,
}

/// The bytes of a synthetic `NSData`, copied onto the heap (no copy when
/// there are none), and a printable preview of them.
#[derive(Debug, Clone)]
pub struct SyntheticBlobBacking {
    pub ptr: u32,
    pub len: u32,
    pub preview_ascii: String,
}

/// The backing of every synthetic string and data object.
#[derive(Debug, Clone)]
pub struct FoundationBackingState {
    pub synthetic_string_backing: HashMap<u32, SyntheticStringBacking>,
    pub synthetic_blob_backing: HashMap<u32, SyntheticBlobBacking>,
}

impl FoundationBackingState {
    /// No backing yet.
    pub fn new() -> (f: Self)
        ensures
            f.synthetic_string_backing@.len() == 0,
            f.synthetic_blob_backing@.len() == 0,
    {
        FoundationBackingState { synthetic_string_backing: HashMap::new(), synthetic_blob_backing: HashMap::new() }
    }
}

/// What `String::from_utf8_lossy` makes of `bytes`.
pub uninterp spec fn utf8_lossy(bytes: Seq<u8>) -> Seq<char>;

/// `String::from_utf8_lossy`: the text of `bytes`, with each invalid
/// sequence replaced by U+FFFD. Claimed here: the result is `utf8_lossy` of
/// the bytes, and for valid UTF-8 it is their decoding.
#[verifier::external_body]
fn string_from_utf8_lossy(bytes: &[u8]) -> (s: String)
    ensures
        s@ == utf8_lossy(bytes@),
        vstd::utf8::valid_utf8(bytes@) ==> s@ == vstd::utf8::decode_utf8(bytes@),
{
    String::from_utf8_lossy(bytes).into_owned()
}

/// Everything but the heap, guest memory, the write log, the object labels
/// and the Foundation backing is the same in `a` and `b`.
pub open spec fn backing_frame(a: MemoryArm32Backend, b: MemoryArm32Backend) -> bool {
    &&& b.cpu == a.cpu
    &&& b.tuning == a.tuning
    &&& b.execution == a.execution
    &&& b.profile == a.profile
    &&& b.address_space.trampoline_addr == a.address_space.trampoline_addr
    &&& b.address_space.trampoline_size == a.address_space.trampoline_size
    &&& b.diag.symbol_labels == a.diag.symbol_labels
    &&& b.runtime.objc == a.runtime.objc
    &&& b.runtime.ui_network == a.runtime.ui_network
    &&& b.runtime.network_fault_history == a.runtime.network_fault_history
    &&& b.runtime.ui_objects == a.runtime.ui_objects
    &&& b.runtime.ui_runtime == a.runtime.ui_runtime
    &&& b.runtime.openal == a.runtime.openal
    &&& b.runtime.audio_queue == a.runtime.audio_queue
    &&& b.runtime.graphics == a.runtime.graphics
    &&& b.runtime.recent_gl_calls == a.runtime.recent_gl_calls
    &&& b.runtime.gl_call_counts == a.runtime.gl_call_counts
    &&& b.runtime.textures == a.runtime.textures
    &&& b.runtime.ui_graphics == a.runtime.ui_graphics
}

/// The backing of `object` in `f1` is a fresh one at `ptr` holding `text`;
/// every other string backing and all data backing are as in `f0`.
pub open spec fn string_backing_set(
    f0: FoundationBackingState,
    f1: FoundationBackingState,
    object: u32,
    ptr: u32,
    text: Seq<char>,
) -> bool {
    let b = f1.synthetic_string_backing@[object];
    &&& f1.synthetic_string_backing@.dom() == f0.synthetic_string_backing@.dom().insert(object)
    &&& b.ptr == ptr && b.len == text.len() as u32 && b.text@ == text
    &&& b.font_name is None && b.font_size_bits == 0 && !b.font_size_explicit
    &&& forall|k: u32|
        k != object && #[trigger] f0.synthetic_string_backing@.contains_key(k) ==> f1.synthetic_string_backing@[k]
            == f0.synthetic_string_backing@[k]
    &&& f1.synthetic_blob_backing == f0.synthetic_blob_backing
}

/// `b` is `a` after `text` (and a NUL) was copied onto the heap at `start`
/// (reserving `reserved` bytes) as the backing of `object`, labelled
/// `label`.
pub open spec fn backed_with(
    a: MemoryArm32Backend,
    b: MemoryArm32Backend,
    object: u32,
    label: Seq<char>,
    text: Seq<char>,
    start: u32,
    reserved: u32,
) -> bool {
    let bytes = vstd::utf8::encode_utf8(text);
    &&& heap_after_alloc(a.runtime.heap, b.runtime.heap, start, (bytes.len() + 1) as u32, reserved, "synthetic-bytes"@)
    &&& bytes.len() > 0 ==> span_mapped(b.mem(), start, bytes.len() as u32) && span_bytes(
        b.mem(),
        start,
        bytes.len() as u32,
    ) == bytes
    &&& span_mapped(b.mem(), (start + bytes.len()) as u32, 1)
    &&& span_bytes(b.mem(), (start + bytes.len()) as u32, 1) == seq![0u8]
    &&& string_backing_set(a.runtime.foundation, b.runtime.foundation, object, start, text)
    &&& labels_view(b.diag.object_labels@) == labels_view(a.diag.object_labels@).insert(object, label)
}

/// `s` with each newline written as a backslash and an `n`.
pub open spec fn escape_newlines(s: Seq<char>) -> Seq<char>
    decreases s.len(),
{
    if s.len() == 0 {
        Seq::empty()
    } else {
        escape_newlines(s.drop_last()) + if s.last() == '\n' {
            seq!['\\', 'n']
        } else {
            seq![s.last()]
        }
    }
}

/// Escaping leaves no newline in the text, grows it by one character per
/// newline (each becomes a backslash and an `n`), and leaves a text with no
/// newline as it is.
pub proof fn lemma_escape_newlines(s: Seq<char>)
    ensures
        forall|i: int| 0 <= i < escape_newlines(s).len() ==> #[trigger] escape_newlines(s)[i] != '\n',
        escape_newlines(s).len() == s.len() + s.filter(|c: char| c == '\n').len(),
        (forall|i: int| 0 <= i < s.len() ==> s[i] != '\n') ==> escape_newlines(s) == s,
    decreases s.len(),
{
    reveal(Seq::filter);
    if s.len() > 0 {
        let p = s.drop_last();
        lemma_escape_newlines(p);
        let e = escape_newlines(p);
        let tail: Seq<char> = if s.last() == '\n' { seq!['\\', 'n'] } else { seq![s.last()] };
        assert(escape_newlines(s) == e + tail);
        assert forall|i: int| 0 <= i < escape_newlines(s).len() implies #[trigger] escape_newlines(s)[i] != '\n' by {
            if i < e.len() {
                assert(escape_newlines(s)[i] == e[i]);
            } else {
                assert(escape_newlines(s)[i] == tail[i - e.len()]);
            }
        }
        if forall|i: int| 0 <= i < s.len() ==> s[i] != '\n' {
            assert forall|i: int| 0 <= i < p.len() implies p[i] != '\n' by {
                assert(p[i] == s[i]);
            }
            assert(s.last() == s[s.len() - 1]);
            assert(escape_newlines(s) =~= s);
        }
    }
}

/// The label a value gets with its new string backing: its own label
/// (or `default` when it has none), unless that is empty or an address
/// (starts with `0x`); then `default` followed by the first 48 characters
/// of the text, newlines escaped, in `<'...'>`.
pub open spec fn backing_label(labels: Map<u32, Seq<char>>, object: u32, default: Seq<char>, text: Seq<char>) -> Seq<
    char,
> {
    let own = if labels.contains_key(object) {
        labels[object]
    } else {
        default
    };
    let n = if text.len() < 48 {
        text.len() as int
    } else {
        48
    };
    if own.len() == 0 || crate::text::seq_starts_with(own, "0x"@) {
        default + "<'"@ + escape_newlines(text.subrange(0, n)) + "'>"@
    } else {
        own
    }
}

/// The backing of data object `object` in `f1` is a fresh one at `ptr`
/// holding `bytes`; everything else is as in `f0`.
pub open spec fn blob_backing_set(
    f0: FoundationBackingState,
    f1: FoundationBackingState,
    object: u32,
    ptr: u32,
    bytes: Seq<u8>,
) -> bool {
    let b = f1.synthetic_blob_backing@[object];
    &&& f1.synthetic_blob_backing@.dom() == f0.synthetic_blob_backing@.dom().insert(object)
    &&& b.ptr == ptr && b.len == bytes.len() as u32
    &&& b.preview_ascii@ == remove_char(utf8_lossy(bytes), '\0')
    &&& forall|k: u32|
        k != object && #[trigger] f0.synthetic_blob_backing@.contains_key(k) ==> f1.synthetic_blob_backing@[k]
            == f0.synthetic_blob_backing@[k]
    &&& f1.synthetic_string_backing == f0.synthetic_string_backing
}

/// Whether guest address `addr` lies in the image's CFString section (false
/// when there is none).
pub open spec fn in_cfstring_section(m: MemoryArm32Backend, addr: u32) -> bool {
    match m.runtime.objc.objc_section_cfstring {
        Some(range) => addr >= range.addr && addr < crate::memory::sat_add_u32(range.addr, range.size),
        None => false,
    }
}

/// The text of the CFString constant at `addr` (see
/// `try_decode_cfstring_at`).
pub open spec fn cfstring_text(m: MemoryArm32Backend, addr: u32) -> Option<Seq<char>> {
    let in_section = match m.runtime.objc.objc_section_cfstring {
        Some(range) => addr >= range.addr && addr < crate::memory::sat_add_u32(range.addr, range.size),
        None => true,
    };
    let p = addr.wrapping_add(8);
    let l = addr.wrapping_add(12);
    if addr == 0 || !in_section || !span_mapped(m.mem(), p, 4) || !span_mapped(m.mem(), l, 4) {
        None
    } else {
        let ptr = mem_u32(m.mem(), p);
        let len = mem_u32(m.mem(), l);
        if ptr != 0 && 0 < len <= 1024 && span_mapped(m.mem(), ptr, len) && !span_bytes(m.mem(), ptr, len).contains(0)
            && vstd::utf8::valid_utf8(span_bytes(m.mem(), ptr, len)) {
            Some(vstd::utf8::decode_utf8(span_bytes(m.mem(), ptr, len)))
        } else {
            None
        }
    }
}

/// `a`, or `b` when `a` is `None`.
pub open spec fn or_else(a: Option<Seq<char>>, b: Option<Seq<char>>) -> Option<Seq<char>> {
    match a {
        Some(x) => Some(x),
        None => b,
    }
}

/// The text guest value `v` stands for: the text of its string backing;
/// else, inside the CFString section, the CFString there or the C string
/// at `v`; elsewhere the C string at `v` or the CFString there.
pub open spec fn guest_text(m: MemoryArm32Backend, v: u32) -> Option<Seq<char>> {
    if v == 0 {
        None
    } else if m.runtime.foundation.synthetic_string_backing@.contains_key(v) {
        Some(m.runtime.foundation.synthetic_string_backing@[v].text@)
    } else if in_cfstring_section(m, v) {
        or_else(cfstring_text(m, v), spec_c_string(m.mem(), v, 260))
    } else {
        or_else(spec_c_string(m.mem(), v, 260), cfstring_text(m, v))
    }
}

/// The objects whose string backing describes the connection.
pub open spec fn foundation_strings() -> Seq<u32> {
    seq![
        HLE_FAKE_NSSTRING_URL_ABSOLUTE,
        HLE_FAKE_NSSTRING_URL_HOST,
        HLE_FAKE_NSSTRING_URL_PATH,
        HLE_FAKE_NSSTRING_HTTP_METHOD,
        HLE_FAKE_NSSTRING_MIME_TYPE,
        HLE_FAKE_NSSTRING_ERROR_DOMAIN,
        HLE_FAKE_NSSTRING_ERROR_DESCRIPTION,
    ]
}

/// The string backings that describe the connection, in the order they
/// are made: each object with its label and its text.
pub open spec fn foundation_string_items(m: MemoryArm32Backend) -> Seq<(u32, Seq<char>, Seq<char>)> {
    let url = spec_network_url(m.profile);
    let host = spec_network_host(m.profile);
    let path = spec_network_path(m.profile);
    let desc = spec_error_description(m.runtime.ui_network.network_fault_mode);
    seq![
        (HLE_FAKE_NSSTRING_URL_ABSOLUTE, "NSString.synthetic.url.absoluteString<'"@ + url + "'>"@, url),
        (HLE_FAKE_NSSTRING_URL_HOST, "NSString.synthetic.url.host<'"@ + host + "'>"@, host),
        (HLE_FAKE_NSSTRING_URL_PATH, "NSString.synthetic.url.path<'"@ + path + "'>"@, path),
        (HLE_FAKE_NSSTRING_HTTP_METHOD, "NSString.synthetic.request.method<'"@ + "GET"@ + "'>"@, "GET"@),
        (
            HLE_FAKE_NSSTRING_MIME_TYPE,
            "NSString.synthetic.response.mimeType<'text/plain'>"@,
            "text/plain"@,
        ),
        (
            HLE_FAKE_NSSTRING_ERROR_DOMAIN,
            "NSString.synthetic.error.domain<'"@ + "NSURLErrorDomain"@ + "'>"@,
            "NSURLErrorDomain"@,
        ),
        (HLE_FAKE_NSSTRING_ERROR_DESCRIPTION, "NSString.synthetic.error.localizedDescription<'"@ + desc + "'>"@, desc),
    ]
}

/// The payload delivered so far (see `synthetic_payload_bytes`).
pub open spec fn foundation_payload(m: MemoryArm32Backend) -> Seq<u8> {
    spec_payload_bytes(
        vstd::utf8::encode_utf8(m.profile.spec_bundle_id()),
        vstd::utf8::encode_utf8(spec_connection_state_name(spec_connection_state_code(m.runtime.ui_network))),
        spec_should_retry(m.runtime.ui_network),
        spec_delivered_len(m.runtime.ui_network),
    )
}

/// The label of the connection's data object for `len` bytes delivered.
pub open spec fn data_label(m: MemoryArm32Backend, len: nat) -> Seq<char> {
    "NSData.synthetic#0<"@ + dec_seq(len) + " / "@ + dec_seq(128) + if m.runtime.ui_network.network_data_retained {
        " bytes retained>"@
    } else {
        " bytes>"@
    }
}

/// `b` is `a` after the string backing `item` (object, label, text) was
/// made.
pub open spec fn string_step(a: MemoryArm32Backend, b: MemoryArm32Backend, item: (u32, Seq<char>, Seq<char>)) -> bool {
    let n = (vstd::utf8::encode_utf8(item.2).len() + 1) as u32;
    &&& b.wf()
    &&& b.runtime.heap.heap_wf()
    &&& backing_frame(a, b)
    &&& match alloc_outcome(a, n) {
        Some((start, reserved)) => backed_with(a, b, item.0, item.1, item.2, start, reserved),
        None => false,
    }
}

/// `b` is `a` after the string backings `items` were made, one after the
/// other.
pub open spec fn strings_made(a: MemoryArm32Backend, b: MemoryArm32Backend, items: Seq<(u32, Seq<char>, Seq<char>)>) -> bool
    decreases items.len(),
{
    if items.len() == 0 {
        a == b
    } else {
        exists|m: MemoryArm32Backend| strings_made(a, m, items.drop_last()) && #[trigger] string_step(m, b, items.last())
    }
}

/// The first backings of `items` were made, turning `a` into `b`, and then
/// the heap could not hold the next text; `msg` is why.
pub open spec fn strings_failed(
    a: MemoryArm32Backend,
    b: MemoryArm32Backend,
    items: Seq<(u32, Seq<char>, Seq<char>)>,
    msg: Seq<char>,
) -> bool {
    exists|k: int|
        0 <= k < items.len() && #[trigger] strings_made(a, b, items.take(k)) && alloc_outcome(
            b,
            (vstd::utf8::encode_utf8(items[k].2).len() + 1) as u32,
        ) is None && msg == alloc_error(b, (vstd::utf8::encode_utf8(items[k].2).len() + 1) as u32)
}

/// `b` is `a` after the data backing of `object` was made from `bytes`
/// and labelled `label`.
pub open spec fn blob_step(a: MemoryArm32Backend, b: MemoryArm32Backend, object: u32, label: Seq<char>, bytes: Seq<u8>) -> bool {
    &&& b.wf()
    &&& b.runtime.heap.heap_wf()
    &&& backing_frame(a, b)
    &&& labels_view(b.diag.object_labels@) == labels_view(a.diag.object_labels@).insert(object, label)
    &&& if bytes.len() == 0 {
        &&& b.runtime.heap == a.runtime.heap
        &&& b.address_space == a.address_space
        &&& b.diag.writes == a.diag.writes
        &&& blob_backing_set(a.runtime.foundation, b.runtime.foundation, object, 0, bytes)
    } else {
        match alloc_outcome(a, bytes.len() as u32) {
            Some((start, reserved)) => {
                &&& heap_after_alloc(a.runtime.heap, b.runtime.heap, start, bytes.len() as u32, reserved, "synthetic-bytes"@)
                &&& span_mapped(b.mem(), start, bytes.len() as u32)
                &&& span_bytes(b.mem(), start, bytes.len() as u32) == bytes
                &&& blob_backing_set(a.runtime.foundation, b.runtime.foundation, object, start, bytes)
            },
            None => false,
        }
    }
}

/// `encode_utf8` takes at most four bytes a character.
pub proof fn lemma_encode_utf8_len(s: Seq<char>)
    ensures
        vstd::utf8::encode_utf8(s).len() <= 4 * s.len(),
    decreases s.len(),
{
    if s.len() > 0 {
        lemma_encode_utf8_len(s.drop_first());
    }
}

/// The connection's strings are short.
proof fn lemma_foundation_texts_short(m: MemoryArm32Backend)
    ensures
        forall|i: int|
            0 <= i < foundation_string_items(m).len() ==> vstd::utf8::encode_utf8(
                #[trigger] foundation_string_items(m)[i].2,
            ).len() < 1000,
{
    reveal_strlit("https://bootstrap.generic.local/bootstrap.txt");
    reveal_strlit("https://bootstrap.forever-entertainment.local/aboveandbelow/bootstrap.txt");
    reveal_strlit("bootstrap.generic.local");
    reveal_strlit("bootstrap.forever-entertainment.local");
    reveal_strlit("/bootstrap.txt");
    reveal_strlit("/aboveandbelow/bootstrap.txt");
    reveal_strlit("GET");
    reveal_strlit("text/plain");
    reveal_strlit("NSURLErrorDomain");
    reveal_strlit("The connection could not be established.");
    reveal_strlit("The network connection was lost.");
    reveal_strlit("The connection was cancelled.");
    reveal_strlit("The request timed out.");
    let items = foundation_string_items(m);
    assert forall|i: int| 0 <= i < items.len() implies vstd::utf8::encode_utf8(#[trigger] items[i].2).len() < 1000 by {
        lemma_encode_utf8_len(items[i].2);
    }
}

impl MemoryArm32Backend {
    /// Copies `text` (and a NUL) onto the heap as the backing of string
    /// object `object`, and labels the object `label`. When the heap cannot
    /// hold it, nothing changes and the allocation's error is returned.
    pub fn ensure_string_backing(&mut self, object: u32, label: String, text: &str) -> (r: CoreResult<()>)
        requires
            old(self).wf(),
            old(self).runtime.heap.heap_wf(),
            text.spec_bytes().len() < u32::MAX,
        ensures
            final(self).wf(),
            final(self).runtime.heap.heap_wf(),
            backing_frame(*old(self), *final(self)),
            ({
                let bytes = text.spec_bytes();
                let n = (bytes.len() + 1) as u32;
                match alloc_outcome(*old(self), n) {
                    None => {
                        &&& r is Err
                        &&& r->Err_0 is Backend
                        &&& r->Err_0.spec_message() == alloc_error(*old(self), n)
                        &&& *final(self) == *old(self)
                    },
                    Some((start, reserved)) => r is Ok && backed_with(
                        *old(self),
                        *final(self),
                        object,
                        label@,
                        text@,
                        start,
                        reserved,
                    ),
                }
            }),
    {
        let ptr = match self.alloc_synthetic_guest_bytes(text.as_bytes(), true) {
            Ok(p) => p,
            Err(e) => return Err(e),
        };
        let chars = chars_of(text);
        let backing = SyntheticStringBacking {
            ptr,
            len: chars.len() as u32,
            text: String::from_str(text),
            font_name: None,
            font_size_bits: 0,
            font_size_explicit: false,
        };
        let ghost l0 = self.diag.object_labels@;
        let ghost f0 = self.runtime.foundation;
        self.runtime.foundation.synthetic_string_backing.insert(object, backing);
        self.diag.object_labels.insert(object, label);
        proof {
            lemma_labels_view_insert(l0, object, label);
            assert(self.runtime.foundation.synthetic_string_backing@.dom() =~= f0.synthetic_string_backing@.dom().insert(
                object,
            ));
        }
        Ok(())
    }

    /// Copies `bytes` onto the heap (when there are any) as the backing of
    /// data object `object`, with a preview of them as text without NULs,
    /// and labels the object `label`. When the heap cannot hold them,
    /// nothing changes and the allocation's error is returned.
    pub fn ensure_blob_backing(&mut self, object: u32, label: String, bytes: &[u8]) -> (r: CoreResult<()>)
        requires
            old(self).wf(),
            old(self).runtime.heap.heap_wf(),
            bytes@.len() < u32::MAX,
        ensures
            final(self).wf(),
            final(self).runtime.heap.heap_wf(),
            backing_frame(*old(self), *final(self)),
            bytes@.len() == 0 ==> ({
                &&& r is Ok
                &&& final(self).runtime.heap == old(self).runtime.heap
                &&& final(self).address_space == old(self).address_space
                &&& final(self).diag.writes == old(self).diag.writes
                &&& blob_backing_set(old(self).runtime.foundation, final(self).runtime.foundation, object, 0, bytes@)
                &&& labels_view(final(self).diag.object_labels@) == labels_view(
                    old(self).diag.object_labels@,
                ).insert(object, label@)
            }),
            bytes@.len() > 0 ==> match alloc_outcome(*old(self), bytes@.len() as u32) {
                None => {
                    &&& r is Err
                    &&& r->Err_0 is Backend
                    &&& r->Err_0.spec_message() == alloc_error(*old(self), bytes@.len() as u32)
                    &&& *final(self) == *old(self)
                },
                Some((start, reserved)) => {
                    &&& r is Ok
                    &&& heap_after_alloc(
                        old(self).runtime.heap,
                        final(self).runtime.heap,
                        start,
                        bytes@.len() as u32,
                        reserved,
                        "synthetic-bytes"@,
                    )
                    &&& span_mapped(final(self).mem(), start, bytes@.len() as u32)
                    &&& span_bytes(final(self).mem(), start, bytes@.len() as u32) == bytes@
                    &&& blob_backing_set(old(self).runtime.foundation, final(self).runtime.foundation, object, start, bytes@)
                    &&& labels_view(final(self).diag.object_labels@) == labels_view(
                        old(self).diag.object_labels@,
                    ).insert(object, label@)
                },
            },
    {
        let ptr = if bytes.len() == 0 {
            0
        } else {
            match self.alloc_synthetic_guest_bytes(bytes, false) {
                Ok(p) => p,
                Err(e) => return Err(e),
            }
        };
        let text = string_from_utf8_lossy(bytes);
        let kept = remove_char_exec(&chars_of(text.as_str()), '\0');
        let backing = SyntheticBlobBacking { ptr, len: bytes.len() as u32, preview_ascii: string_from_chars(&kept) };
        let ghost l0 = self.diag.object_labels@;
        let ghost f0 = self.runtime.foundation;
        self.runtime.foundation.synthetic_blob_backing.insert(object, backing);
        self.diag.object_labels.insert(object, label);
        proof {
            lemma_labels_view_insert(l0, object, label);
            assert(self.runtime.foundation.synthetic_blob_backing@.dom() =~= f0.synthetic_blob_backing@.dom().insert(
                object,
            ));
        }
        Ok(())
    }

    /// Whether every string describing the connection has its backing.
    pub fn foundation_string_backing_ready(&self) -> (b: bool)
        ensures
            b == forall|i: int|
                0 <= i < foundation_strings().len() ==> self.runtime.foundation.synthetic_string_backing@.contains_key(
                    #[trigger] foundation_strings()[i],
                ),
    {
        let objects: [u32; 7] = [
            HLE_FAKE_NSSTRING_URL_ABSOLUTE,
            HLE_FAKE_NSSTRING_URL_HOST,
            HLE_FAKE_NSSTRING_URL_PATH,
            HLE_FAKE_NSSTRING_HTTP_METHOD,
            HLE_FAKE_NSSTRING_MIME_TYPE,
            HLE_FAKE_NSSTRING_ERROR_DOMAIN,
            HLE_FAKE_NSSTRING_ERROR_DESCRIPTION,
        ];
        assert(objects@ =~= foundation_strings());
        let mut i: usize = 0;
        while i < 7
            invariant
                i <= 7,
                objects@ == foundation_strings(),
                forall|j: int|
                    0 <= j < i ==> self.runtime.foundation.synthetic_string_backing@.contains_key(
                        #[trigger] foundation_strings()[j],
                    ),
            decreases 7 - i,
        {
            if !self.runtime.foundation.synthetic_string_backing.contains_key(&objects[i]) {
                return false;
            }
            i = i + 1;
        }
        true
    }

    /// Whether the connection's data object has its backing.
    pub fn foundation_data_backing_ready(&self) -> (b: bool)
        ensures
            b == self.runtime.foundation.synthetic_blob_backing@.contains_key(self.runtime.ui_network.network_data),
    {
        self.runtime.foundation.synthetic_blob_backing.contains_key(&self.runtime.ui_network.network_data)
    }

    /// The text guest value `value` stands for (see `guest_text`).
    pub fn guest_string_value(&self, value: u32) -> (r: Option<String>)
        requires
            self.wf(),
        ensures
            match r {
                Some(s) => guest_text(*self, value) == Some(s@),
                None => guest_text(*self, value) is None,
            },
    {
        if value == 0 {
            return None;
        }
        match self.runtime.foundation.synthetic_string_backing.get(&value) {
            Some(b) => {
                return Some(b.text.clone());
            },
            None => {},
        }
        let in_section = match self.runtime.objc.objc_section_cfstring {
            Some(range) => range.contains(value),
            None => false,
        };
        if in_section {
            match self.decode_cfstring_text(value) {
                Some(s) => Some(s),
                None => self.read_c_string(value, 260),
            }
        } else {
            match self.read_c_string(value, 260) {
                Some(s) => Some(s),
                None => self.decode_cfstring_text(value),
            }
        }
    }

    /// The CFString constant at `addr` as text (see `cfstring_text`).
    fn decode_cfstring_text(&self, addr: u32) -> (r: Option<String>)
        requires
            self.wf(),
        ensures
            match r {
                Some(s) => cfstring_text(*self, addr) == Some(s@),
                None => cfstring_text(*self, addr) is None,
            },
    {
        let r = self.try_decode_cfstring_at(addr);
        proof {
            if r is Some {
                vstd::utf8::encode_utf8_decode_utf8(r->Some_0@);
            }
        }
        r
    }

    /// Makes a string object labelled `label` whose backing holds `text`;
    /// returns it, or 0 when the heap cannot hold the text (the object is
    /// still made and labelled).
    pub fn materialize_host_string_object(&mut self, label: &str, text: &str) -> (obj: u32)
        requires
            old(self).wf(),
            old(self).runtime.heap.heap_wf(),
            text.spec_bytes().len() < u32::MAX,
        ensures
            final(self).wf(),
            final(self).runtime.heap.heap_wf(),
            ({
                let o = old(self).runtime.graphics.synthetic_ui_object_cursor;
                let n = (text.spec_bytes().len() + 1) as u32;
                &&& final(self).runtime.graphics == (super::nodes::BackendGraphicsState {
                    synthetic_ui_object_cursor: crate::memory::sat_add_u32(o, 0x20),
                    ..old(self).runtime.graphics
                })
                &&& backing_frame(
                    *old(self),
                    MemoryArm32Backend {
                        runtime: super::BackendRuntimeState {
                            graphics: old(self).runtime.graphics,
                            ..final(self).runtime
                        },
                        ..*final(self)
                    },
                )
                &&& match alloc_outcome(*old(self), n) {
                    None => {
                        &&& obj == 0
                        &&& labels_view(final(self).diag.object_labels@) == labels_view(
                            old(self).diag.object_labels@,
                        ).insert(o, label@)
                        &&& final(self).runtime.heap == old(self).runtime.heap
                        &&& final(self).address_space == old(self).address_space
                        &&& final(self).diag.writes == old(self).diag.writes
                        &&& final(self).runtime.foundation == old(self).runtime.foundation
                    },
                    Some((start, reserved)) => obj == o && backed_with(
                        *old(self),
                        *final(self),
                        o,
                        label@,
                        text@,
                        start,
                        reserved,
                    ),
                }
            }),
    {
        let ghost l0 = self.diag.object_labels@;
        let obj = self.alloc_synthetic_ui_object(String::from_str(label));
        proof {
            lemma_labels_view_insert(l0, obj, self.diag.object_labels@[obj]);
        }
        match self.ensure_string_backing(obj, String::from_str(label), text) {
            Ok(()) => {
                proof {
                    assert(labels_view(l0).insert(obj, label@).insert(obj, label@) =~= labels_view(l0).insert(
                        obj,
                        label@,
                    ));
                }
                obj
            },
            Err(_) => 0,
        }
    }

    /// A copy of a string backing.
    fn copy_string_backing(b: &SyntheticStringBacking) -> (c: SyntheticStringBacking)
        ensures
            c == *b,
    {
        SyntheticStringBacking {
            ptr: b.ptr,
            len: b.len,
            text: b.text.clone(),
            font_name: match &b.font_name {
                Some(n) => Some(n.clone()),
                None => None,
            },
            font_size_bits: b.font_size_bits,
            font_size_explicit: b.font_size_explicit,
        }
    }

    /// The first 48 characters of `text`, newlines escaped.
    fn label_snippet(text: &str) -> (s: String)
        ensures
            s@ == escape_newlines(text@.subrange(0, if text@.len() < 48 { text@.len() as int } else { 48 })),
    {
        let chars = chars_of(text);
        let n: usize = if chars.len() < 48 { chars.len() } else { 48 };
        let mut out = String::new();
        let mut i: usize = 0;
        assert(text@.subrange(0, 0) =~= Seq::<char>::empty());
        while i < n
            invariant
                n <= chars@.len(),
                chars@ == text@,
                i <= n,
                out@ == escape_newlines(text@.subrange(0, i as int)),
            decreases n - i,
        {
            let c = chars[i];
            if c == '\n' {
                crate::text::push_char(&mut out, '\\');
                crate::text::push_char(&mut out, 'n');
            } else {
                crate::text::push_char(&mut out, c);
            }
            proof {
                let t = text@.subrange(0, i + 1);
                assert(t.drop_last() =~= text@.subrange(0, i as int));
                assert(t.last() == c);
            }
            i = i + 1;
        }
        out
    }

    /// The label for the string backing of `object` (see `backing_label`).
    fn backing_label_for(&self, object: u32, default_label: &str, text: &str) -> (s: String)
        ensures
            s@ == backing_label(labels_view(self.diag.object_labels@), object, default_label@, text@),
    {
        let own = match self.object_label(object) {
            Some(l) => String::from_str(l),
            None => String::from_str(default_label),
        };
        if own.as_str().is_empty() || crate::text::str_starts_with(own.as_str(), "0x") {
            let mut s = String::from_str(default_label);
            s.append("<'");
            let snippet = Self::label_snippet(text);
            s.append(snippet.as_str());
            s.append("'>");
            s
        } else {
            own
        }
    }

    /// The string backing of `object`, made from the text the value stands
    /// for when it has none (labelled as `backing_label` says); `None` for
    /// null, for a value with no text, or when the heap cannot hold it.
    pub fn ensure_string_backing_for_value(&mut self, object: u32, default_label: &str) -> (r: Option<
        SyntheticStringBacking,
    >)
        requires
            old(self).wf(),
            old(self).runtime.heap.heap_wf(),
        ensures
            final(self).wf(),
            final(self).runtime.heap.heap_wf(),
            backing_frame(*old(self), *final(self)),
            ({
                let f0 = old(self).runtime.foundation.synthetic_string_backing@;
                if object == 0 {
                    r is None && *final(self) == *old(self)
                } else if f0.contains_key(object) {
                    r == Some(f0[object]) && *final(self) == *old(self)
                } else {
                    match guest_text(*old(self), object) {
                        None => r is None && *final(self) == *old(self),
                        Some(t) => {
                            let n = (vstd::utf8::encode_utf8(t).len() + 1) as u32;
                            if vstd::utf8::encode_utf8(t).len() >= u32::MAX {
                                r is None && *final(self) == *old(self)
                            } else {
                                match alloc_outcome(*old(self), n) {
                                    None => r is None && *final(self) == *old(self),
                                    Some((start, reserved)) => {
                                        &&& r == Some(final(self).runtime.foundation.synthetic_string_backing@[object])
                                        &&& backed_with(
                                            *old(self),
                                            *final(self),
                                            object,
                                            backing_label(
                                                labels_view(old(self).diag.object_labels@),
                                                object,
                                                default_label@,
                                                t,
                                            ),
                                            t,
                                            start,
                                            reserved,
                                        )
                                    },
                                }
                            }
                        },
                    }
                }
            }),
    {
        if object == 0 {
            return None;
        }
        match self.runtime.foundation.synthetic_string_backing.get(&object) {
            Some(b) => {
                return Some(Self::copy_string_backing(b));
            },
            None => {},
        }
        let text = match self.guest_string_value(object) {
            Some(t) => t,
            None => return None,
        };
        // Texts read from the guest are short; one too long for the heap has
        // no backing.
        if text.as_str().as_bytes().len() >= u32::MAX as usize {
            return None;
        }
        let label = self.backing_label_for(object, default_label, text.as_str());
        match self.ensure_string_backing(object, label, text.as_str()) {
            Ok(()) => {},
            Err(_) => return None,
        }
        match self.runtime.foundation.synthetic_string_backing.get(&object) {
            Some(b) => Some(Self::copy_string_backing(b)),
            None => None,
        }
    }


    /// `prefix`, then `text`, then `'>`.
    fn quoted_label(prefix: &str, text: &str) -> (s: String)
        ensures
            s@ == prefix@ + text@ + "'>"@,
    {
        let mut s = String::from_str(prefix);
        s.append(text);
        s.append("'>");
        s
    }

    /// The string backings that describe the connection (see
    /// `foundation_string_items`).
    fn foundation_string_items_exec(&self) -> (items: Vec<(u32, String, &'static str)>)
        ensures
            items@.len() == foundation_string_items(*self).len(),
            forall|i: int|
                0 <= i < items@.len() ==> (#[trigger] items@[i]).0 == foundation_string_items(*self)[i].0
                    && items@[i].1@ == foundation_string_items(*self)[i].1 && items@[i].2@ == foundation_string_items(
                    *self,
                )[i].2,
    {
        let url = self.network_url_string();
        let host = self.network_host_string();
        let path = self.network_path_string();
        let method = self.network_http_method();
        let domain = self.network_error_domain();
        let desc = self.network_error_description();
        let mut items: Vec<(u32, String, &'static str)> = Vec::new();
        items.push(
            (
                HLE_FAKE_NSSTRING_URL_ABSOLUTE,
                Self::quoted_label("NSString.synthetic.url.absoluteString<'", url),
                url,
            ),
        );
        items.push((HLE_FAKE_NSSTRING_URL_HOST, Self::quoted_label("NSString.synthetic.url.host<'", host), host));
        items.push((HLE_FAKE_NSSTRING_URL_PATH, Self::quoted_label("NSString.synthetic.url.path<'", path), path));
        items.push(
            (HLE_FAKE_NSSTRING_HTTP_METHOD, Self::quoted_label("NSString.synthetic.request.method<'", method), method),
        );
        items.push(
            (
                HLE_FAKE_NSSTRING_MIME_TYPE,
                String::from_str("NSString.synthetic.response.mimeType<'text/plain'>"),
                "text/plain",
            ),
        );
        items.push(
            (HLE_FAKE_NSSTRING_ERROR_DOMAIN, Self::quoted_label("NSString.synthetic.error.domain<'", domain), domain),
        );
        items.push(
            (
                HLE_FAKE_NSSTRING_ERROR_DESCRIPTION,
                Self::quoted_label("NSString.synthetic.error.localizedDescription<'", desc),
                desc,
            ),
        );
        items
    }

    /// The label of the connection's data object for `len` bytes
    /// delivered (see `data_label`).
    fn data_label_exec(&self, len: usize) -> (s: String)
        ensures
            s@ == data_label(*self, len as nat),
    {
        let mut s = String::from_str("NSData.synthetic#0<");
        push_dec(&mut s, len as u64);
        s.append(" / ");
        push_dec(&mut s, self.network_payload_len() as u64);
        if self.runtime.ui_network.network_data_retained {
            s.append(" bytes retained>");
        } else {
            s.append(" bytes>");
        }
        s
    }

    /// Makes the string backing of every string describing the connection
    /// and the data backing of its payload, in that order (see
    /// `foundation_string_items`, `data_label`); stops at the first text the
    /// heap cannot hold, with the allocation's error.
    pub fn refresh_foundation_backing_objects(&mut self) -> (r: CoreResult<()>)
        requires
            old(self).wf(),
            old(self).runtime.heap.heap_wf(),
            spec_delivered_len(old(self).runtime.ui_network) < u32::MAX,
        ensures
            final(self).wf(),
            final(self).runtime.heap.heap_wf(),
            backing_frame(*old(self), *final(self)),
            ({
                let items = foundation_string_items(*old(self));
                let payload = foundation_payload(*old(self));
                let object = old(self).runtime.ui_network.network_data;
                match r {
                    Ok(()) => exists|m: MemoryArm32Backend|
                        strings_made(*old(self), m, items) && #[trigger] blob_step(
                            m,
                            *final(self),
                            object,
                            data_label(*old(self), payload.len()),
                            payload,
                        ),
                    Err(e) => e is Backend && (strings_failed(*old(self), *final(self), items, e.spec_message()) || (
                    strings_made(*old(self), *final(self), items) && payload.len() > 0 && alloc_outcome(
                        *final(self),
                        payload.len() as u32,
                    ) is None && e.spec_message() == alloc_error(*final(self), payload.len() as u32))),
                }
            }),
    {
        let items = self.foundation_string_items_exec();
        let ghost iv = foundation_string_items(*self);
        let ghost s0 = *self;
        proof {
            lemma_foundation_texts_short(s0);
            assert(iv.take(0) =~= Seq::<(u32, Seq<char>, Seq<char>)>::empty());
        }
        let mut i: usize = 0;
        while i < items.len()
            invariant
                s0 == *old(self),
                iv == foundation_string_items(s0),
                items@.len() == iv.len(),
                forall|j: int|
                    0 <= j < items@.len() ==> (#[trigger] items@[j]).0 == iv[j].0 && items@[j].1@ == iv[j].1
                        && items@[j].2@ == iv[j].2,
                forall|j: int| 0 <= j < iv.len() ==> vstd::utf8::encode_utf8(#[trigger] iv[j].2).len() < 1000,
                i <= items@.len(),
                self.wf(),
                self.runtime.heap.heap_wf(),
                backing_frame(s0, *self),
                strings_made(s0, *self, iv.take(i as int)),
            decreases items@.len() - i,
        {
            let ghost before = *self;
            let object = items[i].0;
            let label = items[i].1.clone();
            let text = items[i].2;
            assert(iv[i as int].2 == text@);
            assert(vstd::utf8::encode_utf8(iv[i as int].2).len() < 1000);
            match self.ensure_string_backing(object, label, text) {
                Ok(()) => {},
                Err(e) => {
                    proof {
                        assert(strings_made(s0, *self, iv.take(i as int)));
                    }
                    return Err(e);
                },
            }
            proof {
                assert(string_step(before, *self, iv[i as int]));
                assert(iv.take(i + 1).drop_last() =~= iv.take(i as int));
                assert(iv.take(i + 1).last() == iv[i as int]);
            }
            i = i + 1;
        }
        proof {
            assert(iv.take(7) =~= iv);
        }
        let ghost mid = *self;
        let payload = self.synthetic_payload_bytes();
        let label = self.data_label_exec(payload.len());
        let object = self.runtime.ui_network.network_data;
        match self.ensure_blob_backing(object, label, payload.as_slice()) {
            Ok(()) => {
                proof {
                    assert(blob_step(mid, *self, object, data_label(s0, payload@.len()), payload@));
                }
                Ok(())
            },
            Err(e) => Err(e),
        }
    }

}

} // verus!
