//! AudioQueue emulation: output queues, their buffers and properties, and
//! the hand-off of output and property-listener callbacks to guest code.
use vstd::prelude::*;
use std::collections::HashMap;
use vstd::bytes::{spec_u32_from_le_bytes, spec_u32_to_le_bytes, spec_u64_from_le_bytes, spec_u64_to_le_bytes};
use crate::error::{CoreError, CoreResult};
use crate::text::{dec_seq, hex_prefixed, push_char, push_dec, push_hex_prefixed, str_eq};
use super::{
    span_bytes, span_mapped, views_wf, write_span, BackendCpuState, MemoryArm32Backend, RegionView, SyntheticHeapState,
};
use crate::bootstrap::HLE_STUB_AUDIOQUEUE_CALLBACK_RETURN_THUMB;
use super::guest_strings::{labels_view, lemma_labels_view_insert, lemma_labels_view_remove, mem_u32, spec_describe_ptr};
use super::guest_access::{
    lemma_read_after_write, lemma_subspan_bytes, lemma_subspan_mapped, lemma_write_keeps_mapped, lemma_write_span_wf,
    write_error_message,
};
use super::heap::{
    free_step, lemma_free_step, fill_seq, alloc_error, alloc_fill, alloc_outcome, heap_after_alloc, materialize_message, sat_add, spec_reserve,
};
use super::openal::write_words;

verus! {

/// Size in bytes of the guest `AudioQueueBuffer` structure.
pub const AUDIOQUEUE_BUFFER_STRUCT_SIZE: u32 = 28;

/// Size in bytes of one guest packet description.
pub const AUDIOQUEUE_PACKET_DESC_SIZE: u32 = 16;

/// Return address handed to an ARM-mode callback.
pub const HLE_STUB_AUDIOQUEUE_CALLBACK_RETURN_ARM: u32 = 0x6fff0fc0;

/// An `AudioStreamBasicDescription`; the sample rate is held as the bit
/// pattern of its IEEE-754 double.
#[derive(Debug, Clone, Copy)]
pub struct AudioStreamBasicDescriptionState {
    pub sample_rate_bits: u64,
    pub format_id: u32,
    pub format_flags: u32,
    pub bytes_per_packet: u32,
    pub frames_per_packet: u32,
    pub bytes_per_frame: u32,
    pub channels_per_frame: u32,
    pub bits_per_channel: u32,
    pub reserved: u32,
}

/// A property listener registered on a queue.
#[derive(Debug, Clone, Copy)]
pub struct BackendAudioQueuePropertyListenerState {
    pub property_id: u32,
    pub callback_ptr: u32,
    pub user_data_ptr: u32,
}

/// One buffer of a queue, mirroring the guest `AudioQueueBuffer`.
#[derive(Debug, Clone, Copy)]
pub struct BackendAudioQueueBufferState {
    pub queue_ptr: u32,
    pub buffer_ptr: u32,
    pub audio_data_ptr: u32,
    pub audio_data_capacity: u32,
    pub last_byte_size: u32,
    pub user_data_ptr: u32,
    pub packet_descs_ptr: u32,
    pub packet_desc_capacity: u32,
    pub packet_desc_count: u32,
    pub enqueued: bool,
    pub callback_inflight: bool,
    pub freed: bool,
}

/// One output queue. Parameter values are single-precision bit patterns.
#[derive(Debug, Clone)]
pub struct BackendAudioQueueHandleState {
    pub handle_ptr: u32,
    pub callback_ptr: u32,
    pub user_data_ptr: u32,
    pub callback_runloop: u32,
    pub callback_runloop_mode: u32,
    pub flags: u32,
    pub format: Option<AudioStreamBasicDescriptionState>,
    pub parameter_bits: HashMap<u32, u32>,
    pub properties: HashMap<u32, Vec<u8>>,
    pub property_listeners: Vec<BackendAudioQueuePropertyListenerState>,
    pub allocated_buffers: Vec<u32>,
    /// Buffers waiting to be played, oldest first, each at most once.
    pub queued_buffers: Vec<u32>,
    pub is_running: bool,
    pub start_count: u32,
    pub prime_count: u32,
    pub stop_count: u32,
    pub dispose_count: u32,
}

/// A guest callback waiting to be run.
#[derive(Debug, Clone, Copy)]
pub enum BackendAudioQueuePendingInvocation {
    OutputCallback { queue_ptr: u32, buffer_ptr: u32 },
    PropertyListener { queue_ptr: u32, property_id: u32, callback_ptr: u32, user_data_ptr: u32 },
}

/// Callbacks being handed to the guest one after another, and where the
/// guest resumes once they have all returned.
#[derive(Debug, Clone)]
pub struct BackendAudioQueueCallbackResumeState {
    pub origin_label: String,
    pub resume_lr: u32,
    pub return_status: u32,
    pub current: Option<BackendAudioQueuePendingInvocation>,
    /// Callbacks still to run, in order.
    pub pending: Vec<BackendAudioQueuePendingInvocation>,
}

/// Every queue and buffer, and the callback hand-off in progress.
#[derive(Debug, Clone)]
pub struct BackendAudioQueueState {
    pub next_queue_serial: u32,
    pub next_buffer_serial: u32,
    pub queues: HashMap<u32, BackendAudioQueueHandleState>,
    pub buffers: HashMap<u32, BackendAudioQueueBufferState>,
    pub callback_resume: Option<BackendAudioQueueCallbackResumeState>,
}

/// A buffer's recorded sizes stay within what it was allocated with.
pub open spec fn buffer_wf(b: BackendAudioQueueBufferState) -> bool {
    &&& b.last_byte_size <= b.audio_data_capacity
    &&& b.packet_desc_count <= b.packet_desc_capacity
}

/// A queue's property blobs fit a 32-bit size, and no buffer is queued
/// twice.
pub open spec fn handle_wf(h: BackendAudioQueueHandleState) -> bool {
    &&& forall|k: u32| #[trigger] h.properties@.contains_key(k) ==> h.properties@[k]@.len() <= u32::MAX
    &&& h.queued_buffers@.no_duplicates()
}

/// A buffer recorded under key `k` is well formed and describes the guest
/// structure at `k`.
pub open spec fn buffer_entry_wf(k: u32, b: BackendAudioQueueBufferState) -> bool {
    buffer_wf(b) && b.buffer_ptr == k
}

/// Invariant of the AudioQueue state.
pub open spec fn aq_wf(q: BackendAudioQueueState) -> bool {
    &&& forall|k: u32| #[trigger] q.buffers@.contains_key(k) ==> buffer_entry_wf(k, q.buffers@[k])
    &&& forall|k: u32| #[trigger] q.queues@.contains_key(k) ==> handle_wf(q.queues@[k])
}

impl BackendAudioQueueState {
    /// No queues, buffers or callbacks; serial numbers start at 1.
    pub fn new() -> (s: Self)
        ensures
            s.next_queue_serial == 1,
            s.next_buffer_serial == 1,
            s.queues@ == Map::<u32, BackendAudioQueueHandleState>::empty(),
            s.buffers@ == Map::<u32, BackendAudioQueueBufferState>::empty(),
            s.callback_resume is None,
            aq_wf(s),
    {
        BackendAudioQueueState {
            next_queue_serial: 1,
            next_buffer_serial: 1,
            queues: HashMap::new(),
            buffers: HashMap::new(),
            callback_resume: None,
        }
    }
}

/// The little-endian 64-bit value at `addr` (meaningful when it is mapped).
pub open spec fn mem_u64(s: Seq<RegionView>, addr: u32) -> u64 {
    spec_u64_from_le_bytes(span_bytes(s, addr, 8))
}

/// Every field of an `AudioStreamBasicDescription` at `ptr` is mapped.
pub open spec fn asbd_readable(s: Seq<RegionView>, ptr: u32) -> bool {
    &&& span_mapped(s, ptr, 8)
    &&& span_mapped(s, ptr.wrapping_add(8), 4)
    &&& span_mapped(s, ptr.wrapping_add(12), 4)
    &&& span_mapped(s, ptr.wrapping_add(16), 4)
    &&& span_mapped(s, ptr.wrapping_add(20), 4)
    &&& span_mapped(s, ptr.wrapping_add(24), 4)
    &&& span_mapped(s, ptr.wrapping_add(28), 4)
    &&& span_mapped(s, ptr.wrapping_add(32), 4)
    &&& span_mapped(s, ptr.wrapping_add(36), 4)
}

/// The stream description at `ptr`: `None` for a null pointer or when a
/// field is not mapped.
pub open spec fn spec_read_asbd(s: Seq<RegionView>, ptr: u32) -> Option<AudioStreamBasicDescriptionState> {
    if ptr == 0 || !asbd_readable(s, ptr) {
        None
    } else {
        Some(
            AudioStreamBasicDescriptionState {
                sample_rate_bits: mem_u64(s, ptr),
                format_id: mem_u32(s, ptr.wrapping_add(8)),
                format_flags: mem_u32(s, ptr.wrapping_add(12)),
                bytes_per_packet: mem_u32(s, ptr.wrapping_add(16)),
                frames_per_packet: mem_u32(s, ptr.wrapping_add(20)),
                bytes_per_frame: mem_u32(s, ptr.wrapping_add(24)),
                channels_per_frame: mem_u32(s, ptr.wrapping_add(28)),
                bits_per_channel: mem_u32(s, ptr.wrapping_add(32)),
                reserved: mem_u32(s, ptr.wrapping_add(36)),
            },
        )
    }
}

/// The 40-byte guest encoding of a stream description.
pub open spec fn spec_asbd_bytes(f: AudioStreamBasicDescriptionState) -> Seq<u8> {
    spec_u64_to_le_bytes(f.sample_rate_bits) + spec_u32_to_le_bytes(f.format_id) + spec_u32_to_le_bytes(
        f.format_flags,
    ) + spec_u32_to_le_bytes(f.bytes_per_packet) + spec_u32_to_le_bytes(f.frames_per_packet)
        + spec_u32_to_le_bytes(f.bytes_per_frame) + spec_u32_to_le_bytes(f.channels_per_frame)
        + spec_u32_to_le_bytes(f.bits_per_channel) + spec_u32_to_le_bytes(f.reserved)
}

/// A visible, non-space ASCII byte.
pub open spec fn ascii_graphic(b: u8) -> bool {
    0x21 <= b <= 0x7e
}

/// How a format id is shown: its four little-endian bytes as text when
/// they are all visible ASCII, its hexadecimal value otherwise.
pub open spec fn spec_format_tag(id: u32) -> Seq<char> {
    let b0 = (id % 256) as u8;
    let b1 = (id / 256 % 256) as u8;
    let b2 = (id / 65536 % 256) as u8;
    let b3 = (id / 16777216) as u8;
    if ascii_graphic(b0) && ascii_graphic(b1) && ascii_graphic(b2) && ascii_graphic(b3) {
        seq![b0 as char, b1 as char, b2 as char, b3 as char]
    } else {
        hex_prefixed(id as nat, 8)
    }
}

/// Every field of a stream description but the sample rate, as shown in
/// queue labels.
pub open spec fn spec_format_fields(f: AudioStreamBasicDescriptionState) -> Seq<char> {
    "fmt="@ + spec_format_tag(f.format_id) + " flags="@ + hex_prefixed(f.format_flags as nat, 8) + " bpp="@
        + dec_seq(f.bytes_per_packet as nat) + " fpp="@ + dec_seq(f.frames_per_packet as nat) + " bpf="@ + dec_seq(
        f.bytes_per_frame as nat,
    ) + " ch="@ + dec_seq(f.channels_per_frame as nat) + " bits="@ + dec_seq(f.bits_per_channel as nat)
}

/// The serial number handed out next: `next`, but at least 1.
pub open spec fn serial_of(next: u32) -> u32 {
    if next == 0 {
        1
    } else {
        next
    }
}

/// The name of a queue or buffer by its serial number.
pub open spec fn serial_label(queue: bool, serial: u32) -> Seq<char> {
    (if queue {
        "AudioQueue.synthetic#"@
    } else {
        "AudioQueueBuffer.synthetic#"@
    }) + dec_seq(serial as nat)
}

/// Only the AudioQueue state differs between `a` and `b`.
pub open spec fn only_audio_queue_changed(a: MemoryArm32Backend, b: MemoryArm32Backend) -> bool {
    &&& b.cpu == a.cpu
    &&& b.execution == a.execution
    &&& b.address_space == a.address_space
    &&& b.diag == a.diag
    &&& b.runtime.heap == a.runtime.heap
    &&& b.runtime.objc == a.runtime.objc
    &&& b.runtime.ui_network == a.runtime.ui_network
    &&& b.runtime.network_fault_history == a.runtime.network_fault_history
    &&& b.runtime.ui_objects == a.runtime.ui_objects
    &&& b.runtime.ui_runtime == a.runtime.ui_runtime
    &&& b.runtime.openal == a.runtime.openal
    &&& b.runtime.graphics == a.runtime.graphics
    &&& b.runtime.recent_gl_calls == a.runtime.recent_gl_calls
    &&& b.runtime.gl_call_counts == a.runtime.gl_call_counts
    &&& b.runtime.foundation == a.runtime.foundation
    &&& b.runtime.textures == a.runtime.textures
    &&& b.runtime.ui_graphics == a.runtime.ui_graphics
    &&& b.profile == a.profile
    &&& b.tuning == a.tuning
}

/// `b` is `a` with other parameter values, properties and listeners.
pub open spec fn handle_tables_changed(a: BackendAudioQueueHandleState, b: BackendAudioQueueHandleState) -> bool {
    &&& b.handle_ptr == a.handle_ptr
    &&& b.callback_ptr == a.callback_ptr
    &&& b.user_data_ptr == a.user_data_ptr
    &&& b.callback_runloop == a.callback_runloop
    &&& b.callback_runloop_mode == a.callback_runloop_mode
    &&& b.flags == a.flags
    &&& b.format == a.format
    &&& b.allocated_buffers@ == a.allocated_buffers@
    &&& b.queued_buffers@ == a.queued_buffers@
    &&& b.is_running == a.is_running
    &&& b.start_count == a.start_count
    &&& b.prime_count == a.prime_count
    &&& b.stop_count == a.stop_count
    &&& b.dispose_count == a.dispose_count
}

/// `(property_id, callback_ptr, user_data_ptr)` is among `ls`.
pub open spec fn listener_registered(
    ls: Seq<BackendAudioQueuePropertyListenerState>,
    property_id: u32,
    callback_ptr: u32,
    user_data_ptr: u32,
) -> bool {
    exists|i: int|
        0 <= i < ls.len() && (#[trigger] ls[i]).property_id == property_id && ls[i].callback_ptr == callback_ptr
            && ls[i].user_data_ptr == user_data_ptr
}

/// Some listener of `ls` watches `property_id`.
pub open spec fn property_watched(ls: Seq<BackendAudioQueuePropertyListenerState>, property_id: u32) -> bool {
    exists|i: int| 0 <= i < ls.len() && (#[trigger] ls[i]).property_id == property_id
}

/// The bytes a property read of `property_id` reports: a stored value; for
/// a watched property, whether the queue runs (a 32-bit 0 or 1); otherwise
/// the stream description when the caller has room for all of it; nothing
/// else.
pub open spec fn spec_property_payload(h: BackendAudioQueueHandleState, property_id: u32, requested: u32) -> Seq<u8> {
    if h.properties@.contains_key(property_id) {
        h.properties@[property_id]@
    } else if property_watched(h.property_listeners@, property_id) {
        spec_u32_to_le_bytes(if h.is_running { 1u32 } else { 0u32 })
    } else {
        match h.format {
            Some(f) => if requested >= 40 {
                spec_asbd_bytes(f)
            } else {
                Seq::empty()
            },
            None => Seq::empty(),
        }
    }
}

/// The size the caller offers at `io_size_ptr`: 0 when the pointer is null
/// or unreadable.
pub open spec fn spec_requested_size(s: Seq<RegionView>, io_size_ptr: u32) -> u32 {
    if io_size_ptr != 0 && span_mapped(s, io_size_ptr, 4) {
        mem_u32(s, io_size_ptr)
    } else {
        0
    }
}

/// Storing `bytes` at `addr` (nothing for a null address): the memory and
/// write log after it, or `None` when the span is not mapped.
pub open spec fn store_at(m: Seq<RegionView>, l: Seq<(u32, usize)>, addr: u32, bytes: Seq<u8>) -> Option<
    (Seq<RegionView>, Seq<(u32, usize)>),
> {
    if addr == 0 {
        Some((m, l))
    } else if span_mapped(m, addr, bytes.len() as u32) {
        Some((write_span(m, addr, bytes), l.push((addr, bytes.len() as usize))))
    } else {
        None
    }
}

/// The seven words of the guest `AudioQueueBuffer` structure.
pub open spec fn buffer_struct_words(b: BackendAudioQueueBufferState) -> Seq<u32> {
    seq![
        b.audio_data_capacity,
        b.audio_data_ptr,
        b.last_byte_size,
        b.user_data_ptr,
        b.packet_desc_capacity,
        b.packet_descs_ptr,
        b.packet_desc_count,
    ]
}

/// The word at `addr`, or 0 when it is not mapped.
pub open spec fn word_or_zero(s: Seq<RegionView>, addr: u32) -> u32 {
    if span_mapped(s, addr, 4) {
        mem_u32(s, addr)
    } else {
        0
    }
}

/// The smaller of two values.
pub open spec fn min_u32(a: u32, b: u32) -> u32 {
    if a < b {
        a
    } else {
        b
    }
}

/// Buffer `b` after taking in what the guest wrote into its structure at
/// `at`: the byte size (capped at the capacity), the user data, the packet
/// descriptions pointer (when not null) and their count (capped at their
/// capacity). Unreadable words read as 0.
pub open spec fn synced_from_guest(b: BackendAudioQueueBufferState, s: Seq<RegionView>, at: u32) -> BackendAudioQueueBufferState {
    let size = word_or_zero(s, at.wrapping_add(8));
    let pd = word_or_zero(s, at.wrapping_add(20));
    BackendAudioQueueBufferState {
        last_byte_size: min_u32(size, b.audio_data_capacity),
        user_data_ptr: word_or_zero(s, at.wrapping_add(12)),
        packet_descs_ptr: if pd != 0 {
            pd
        } else {
            b.packet_descs_ptr
        },
        packet_desc_count: min_u32(word_or_zero(s, at.wrapping_add(24)), b.packet_desc_capacity),
        ..b
    }
}

/// A queue just created with these callback settings and stream format.
pub open spec fn handle_fresh(
    h: BackendAudioQueueHandleState,
    handle_ptr: u32,
    callback_ptr: u32,
    user_data_ptr: u32,
    callback_runloop: u32,
    callback_runloop_mode: u32,
    flags: u32,
    format: Option<AudioStreamBasicDescriptionState>,
) -> bool {
    &&& h.handle_ptr == handle_ptr
    &&& h.callback_ptr == callback_ptr
    &&& h.user_data_ptr == user_data_ptr
    &&& h.callback_runloop == callback_runloop
    &&& h.callback_runloop_mode == callback_runloop_mode
    &&& h.flags == flags
    &&& h.format == format
    &&& h.parameter_bits@ == Map::<u32, u32>::empty()
    &&& h.properties@ == Map::<u32, Vec<u8>>::empty()
    &&& h.property_listeners@ == Seq::<BackendAudioQueuePropertyListenerState>::empty()
    &&& h.allocated_buffers@ == Seq::<u32>::empty()
    &&& h.queued_buffers@ == Seq::<u32>::empty()
    &&& !h.is_running
    &&& h.start_count == 0 && h.prime_count == 0 && h.stop_count == 0 && h.dispose_count == 0
}

/// A buffer just allocated for `queue_ptr` with its data block.
pub open spec fn buffer_fresh(queue_ptr: u32, buffer_ptr: u32, audio_data_ptr: u32, capacity: u32) -> BackendAudioQueueBufferState {
    BackendAudioQueueBufferState {
        queue_ptr,
        buffer_ptr,
        audio_data_ptr,
        audio_data_capacity: capacity,
        last_byte_size: 0,
        user_data_ptr: 0,
        packet_descs_ptr: 0,
        packet_desc_capacity: 0,
        packet_desc_count: 0,
        enqueued: false,
        callback_inflight: false,
        freed: false,
    }
}

/// Storing `words` into a mapped, non-wrapping span that holds them all
/// cannot fail, and keeps the address space well formed.
pub proof fn lemma_words_land(s: Seq<RegionView>, l: Seq<(u32, usize)>, addr: u32, words: Seq<u32>)
    requires
        views_wf(s),
        addr + 4 * words.len() <= u32::MAX,
        words.len() > 0 ==> span_mapped(s, addr, (4 * words.len()) as u32),
    ensures
        write_words(s, l, addr, words).2 is None,
        views_wf(write_words(s, l, addr, words).0),
    decreases words.len(),
{
    if words.len() > 0 {
        vstd::bytes::lemma_auto_spec_u32_to_from_le_bytes();
        let n = (4 * words.len()) as u32;
        let bytes = spec_u32_to_le_bytes(words[0]);
        lemma_subspan_mapped(s, addr, n, addr, 4);
        lemma_write_span_wf(s, addr, bytes);
        let s1 = write_span(s, addr, bytes);
        if words.len() > 1 {
            lemma_write_keeps_mapped(s, addr, bytes, addr, n);
            lemma_subspan_mapped(s1, addr, n, (addr + 4) as u32, (n - 4) as u32);
        }
        assert(addr.wrapping_add(4) == addr + 4);
        lemma_words_land(s1, l.push((addr, 4usize)), (addr + 4) as u32, words.drop_first());
    }
}

/// Everything but the heap, the AudioQueue state, guest memory, the write
/// log and the object labels is the same in `a` and `b`.
pub open spec fn aq_alloc_frame(a: MemoryArm32Backend, b: MemoryArm32Backend) -> bool {
    &&& b.cpu == a.cpu
    &&& b.execution == a.execution
    &&& b.profile == a.profile
    &&& b.tuning == a.tuning
    &&& b.address_space.trampoline_addr == a.address_space.trampoline_addr
    &&& b.address_space.trampoline_size == a.address_space.trampoline_size
    &&& b.diag.symbol_labels == a.diag.symbol_labels
    &&& b.runtime.objc == a.runtime.objc
    &&& b.runtime.ui_network == a.runtime.ui_network
    &&& b.runtime.network_fault_history == a.runtime.network_fault_history
    &&& b.runtime.ui_objects == a.runtime.ui_objects
    &&& b.runtime.ui_runtime == a.runtime.ui_runtime
    &&& b.runtime.openal == a.runtime.openal
    &&& b.runtime.graphics == a.runtime.graphics
    &&& b.runtime.recent_gl_calls == a.runtime.recent_gl_calls
    &&& b.runtime.gl_call_counts == a.runtime.gl_call_counts
    &&& b.runtime.foundation == a.runtime.foundation
    &&& b.runtime.textures == a.runtime.textures
    &&& b.runtime.ui_graphics == a.runtime.ui_graphics
}

/// Where a heap block of `requested` bytes (at least one) lands given the
/// heap cursor and end and the address space: its start and reserved size,
/// or why it cannot be placed.
pub open spec fn reserve_outcome(cursor: u32, end: u32, mem: Seq<RegionView>, requested: u32) -> Result<
    (u32, u32),
    Seq<char>,
> {
    let req: u32 = if requested == 0 { 1 } else { requested };
    match spec_reserve(cursor, end, req, 16, 16) {
        Err(m) => Err(m),
        Ok((start, reserved)) => if span_mapped(mem, start, reserved) {
            Ok((start, reserved))
        } else {
            Err(materialize_message(start))
        },
    }
}

/// `b` is `a` with other allocated and queued buffer lists.
pub open spec fn handle_lists_changed(a: BackendAudioQueueHandleState, b: BackendAudioQueueHandleState) -> bool {
    &&& b.handle_ptr == a.handle_ptr
    &&& b.callback_ptr == a.callback_ptr
    &&& b.user_data_ptr == a.user_data_ptr
    &&& b.callback_runloop == a.callback_runloop
    &&& b.callback_runloop_mode == a.callback_runloop_mode
    &&& b.flags == a.flags
    &&& b.format == a.format
    &&& b.parameter_bits == a.parameter_bits
    &&& b.properties == a.properties
    &&& b.property_listeners == a.property_listeners
    &&& b.is_running == a.is_running
    &&& b.start_count == a.start_count
    &&& b.prime_count == a.prime_count
    &&& b.stop_count == a.stop_count
    &&& b.dispose_count == a.dispose_count
}

/// Whether a pending callback can run: an output callback needs its queue
/// to exist with a callback set, a listener needs a callback set.
pub open spec fn inv_live(queues: Map<u32, BackendAudioQueueHandleState>, inv: BackendAudioQueuePendingInvocation) -> bool {
    match inv {
        BackendAudioQueuePendingInvocation::OutputCallback { queue_ptr, .. } => queues.contains_key(queue_ptr)
            && queues[queue_ptr].callback_ptr != 0,
        BackendAudioQueuePendingInvocation::PropertyListener { callback_ptr, .. } => callback_ptr != 0,
    }
}

/// The index of the first pending callback that can run, or the length of
/// `p` when none can.
pub open spec fn first_live(queues: Map<u32, BackendAudioQueueHandleState>, p: Seq<BackendAudioQueuePendingInvocation>) -> int
    decreases p.len(),
{
    if p.len() == 0 {
        0
    } else if inv_live(queues, p[0]) {
        0
    } else {
        1 + first_live(queues, p.drop_first())
    }
}

/// The guest function a callback runs and its first three arguments:
/// user data, queue and buffer for an output callback; user data, queue
/// and property for a listener.
pub open spec fn inv_call(queues: Map<u32, BackendAudioQueueHandleState>, inv: BackendAudioQueuePendingInvocation) -> (
    u32,
    u32,
    u32,
    u32,
) {
    match inv {
        BackendAudioQueuePendingInvocation::OutputCallback { queue_ptr, buffer_ptr } => (
            queues[queue_ptr].callback_ptr,
            queues[queue_ptr].user_data_ptr,
            queue_ptr,
            buffer_ptr,
        ),
        BackendAudioQueuePendingInvocation::PropertyListener { queue_ptr, property_id, callback_ptr, user_data_ptr } => (
            callback_ptr,
            user_data_ptr,
            queue_ptr,
            property_id,
        ),
    }
}

/// Where a callback returns to: the Thumb return stub (with its Thumb bit)
/// for a Thumb callback, the ARM stub otherwise.
pub open spec fn return_stub(callback: u32) -> u32 {
    if (callback & 1) != 0 {
        HLE_STUB_AUDIOQUEUE_CALLBACK_RETURN_THUMB | 1
    } else {
        HLE_STUB_AUDIOQUEUE_CALLBACK_RETURN_ARM
    }
}

/// The registers for calling `callback(a0, a1, a2, 0)`.
pub open spec fn call_regs(regs: Seq<u32>, callback: u32, a0: u32, a1: u32, a2: u32) -> Seq<u32> {
    regs.update(0, a0).update(1, a1).update(2, a2).update(3, 0).update(14, return_stub(callback)).update(
        15,
        callback & !1u32,
    )
}

/// A callback is entered with the ARM calling convention for
/// `callback(a0, a1, a2, 0)`: the three arguments in `r0`-`r2` and zero in
/// `r3`; the link register holds a return stub of the callback's own
/// instruction set (its Thumb bit set exactly for a Thumb callback), and the
/// program counter the callback's address without its Thumb bit. No other
/// register changes.
pub proof fn lemma_callback_calling_convention(regs: Seq<u32>, callback: u32, a0: u32, a1: u32, a2: u32)
    requires
        regs.len() == 16,
    ensures
        call_regs(regs, callback, a0, a1, a2).len() == 16,
        call_regs(regs, callback, a0, a1, a2)[0] == a0,
        call_regs(regs, callback, a0, a1, a2)[1] == a1,
        call_regs(regs, callback, a0, a1, a2)[2] == a2,
        call_regs(regs, callback, a0, a1, a2)[3] == 0,
        forall|i: int| 4 <= i < 14 ==> #[trigger] call_regs(regs, callback, a0, a1, a2)[i] == regs[i],
        (call_regs(regs, callback, a0, a1, a2)[14] & 1 != 0) == (callback & 1 != 0),
        call_regs(regs, callback, a0, a1, a2)[15] % 2 == 0,
        call_regs(regs, callback, a0, a1, a2)[15] + (callback & 1) == callback,
{
    let pc = callback & !1u32;
    let lr = return_stub(callback);
    assert(pc % 2 == 0 && pc + (callback & 1) == callback && (callback & 1 == 0 || callback & 1 == 1)) by (bit_vector)
        requires
            pc == callback & !1u32,
    ;
    assert((HLE_STUB_AUDIOQUEUE_CALLBACK_RETURN_THUMB | 1) & 1 != 0 && HLE_STUB_AUDIOQUEUE_CALLBACK_RETURN_ARM & 1
        == 0) by (bit_vector);
}

/// Handing the next runnable callback to the guest: callbacks that cannot
/// run are dropped from the front of `pending`; the first one that can is
/// made current and the CPU is set up to call it. When none can, the
/// pending list ends up empty, nothing is current (unless nothing was
/// pending) and the CPU is untouched. `rs1` and `cpu1` are the resulting
/// hand-off and CPU state.
pub open spec fn dispatched(
    queues: Map<u32, BackendAudioQueueHandleState>,
    origin: Seq<char>,
    resume_lr: u32,
    return_status: u32,
    current: Option<BackendAudioQueuePendingInvocation>,
    pending: Seq<BackendAudioQueuePendingInvocation>,
    cpu0: BackendCpuState,
    rs1: Option<BackendAudioQueueCallbackResumeState>,
    cpu1: BackendCpuState,
) -> bool {
    let i = first_live(queues, pending);
    &&& rs1 is Some
    &&& rs1->0.origin_label@ == origin
    &&& rs1->0.resume_lr == resume_lr
    &&& rs1->0.return_status == return_status
    &&& if i < pending.len() {
        let (callback, a0, a1, a2) = inv_call(queues, pending[i]);
        &&& rs1->0.pending@ == pending.skip(i + 1)
        &&& rs1->0.current == Some(pending[i])
        &&& cpu1.regs@ == call_regs(cpu0.regs@, callback, a0, a1, a2)
        &&& cpu1.thumb == ((callback & 1) != 0)
        &&& cpu1.flags == cpu0.flags
    } else {
        &&& rs1->0.pending@ == Seq::<BackendAudioQueuePendingInvocation>::empty()
        &&& rs1->0.current == (if pending.len() == 0 {
            current
        } else {
            None
        })
        &&& cpu1 == cpu0
    }
}

/// Only the CPU and the callback hand-off differ between `a` and `b`.
pub open spec fn only_handoff_changed(a: MemoryArm32Backend, b: MemoryArm32Backend) -> bool {
    &&& b.execution == a.execution
    &&& b.address_space == a.address_space
    &&& b.diag == a.diag
    &&& b.runtime.heap == a.runtime.heap
    &&& b.runtime.objc == a.runtime.objc
    &&& b.runtime.ui_network == a.runtime.ui_network
    &&& b.runtime.network_fault_history == a.runtime.network_fault_history
    &&& b.runtime.ui_objects == a.runtime.ui_objects
    &&& b.runtime.ui_runtime == a.runtime.ui_runtime
    &&& b.runtime.openal == a.runtime.openal
    &&& b.runtime.graphics == a.runtime.graphics
    &&& b.runtime.recent_gl_calls == a.runtime.recent_gl_calls
    &&& b.runtime.gl_call_counts == a.runtime.gl_call_counts
    &&& b.runtime.foundation == a.runtime.foundation
    &&& b.runtime.textures == a.runtime.textures
    &&& b.runtime.ui_graphics == a.runtime.ui_graphics
    &&& b.runtime.audio_queue.queues == a.runtime.audio_queue.queues
    &&& b.runtime.audio_queue.next_queue_serial == a.runtime.audio_queue.next_queue_serial
    &&& b.runtime.audio_queue.next_buffer_serial == a.runtime.audio_queue.next_buffer_serial
    &&& b.profile == a.profile
    &&& b.tuning == a.tuning
}

/// Whether a buffer is idle: not freed, not queued, not in a callback.
pub open spec fn wants_callback(b: BackendAudioQueueBufferState) -> bool {
    !b.freed && !b.enqueued && !b.callback_inflight
}

/// Output callbacks for the idle buffers of `alloc` (in order, each buffer
/// once), and the buffer table with those buffers marked in flight.
pub open spec fn collect_outputs(
    queue_ptr: u32,
    alloc: Seq<u32>,
    bufs: Map<u32, BackendAudioQueueBufferState>,
) -> (Seq<BackendAudioQueuePendingInvocation>, Map<u32, BackendAudioQueueBufferState>)
    decreases alloc.len(),
{
    if alloc.len() == 0 {
        (Seq::empty(), bufs)
    } else {
        let last = alloc.last();
        let (invs, b) = collect_outputs(queue_ptr, alloc.drop_last(), bufs);
        if b.contains_key(last) && wants_callback(b[last]) {
            (
                invs.push(BackendAudioQueuePendingInvocation::OutputCallback { queue_ptr, buffer_ptr: last }),
                b.insert(last, BackendAudioQueueBufferState { callback_inflight: true, ..b[last] }),
            )
        } else {
            (invs, b)
        }
    }
}

/// Listener callbacks for the listeners of `ls` that have a callback, in
/// order.
pub open spec fn listener_invs(queue_ptr: u32, ls: Seq<BackendAudioQueuePropertyListenerState>) -> Seq<
    BackendAudioQueuePendingInvocation,
>
    decreases ls.len(),
{
    if ls.len() == 0 {
        Seq::empty()
    } else {
        let l = ls.last();
        let prev = listener_invs(queue_ptr, ls.drop_last());
        if l.callback_ptr != 0 {
            prev.push(
                BackendAudioQueuePendingInvocation::PropertyListener {
                    queue_ptr,
                    property_id: l.property_id,
                    callback_ptr: l.callback_ptr,
                    user_data_ptr: l.user_data_ptr,
                },
            )
        } else {
            prev
        }
    }
}

/// The hand-off with nothing current any more.
pub open spec fn without_current(o: Option<BackendAudioQueueCallbackResumeState>) -> Option<
    BackendAudioQueueCallbackResumeState,
> {
    match o {
        Some(rs) => Some(BackendAudioQueueCallbackResumeState { current: None, ..rs }),
        None => None,
    }
}

/// The buffer table once the current callback returned: an output
/// callback's buffer is no longer in flight.
pub open spec fn completed_buffers(
    o: Option<BackendAudioQueueCallbackResumeState>,
    bufs: Map<u32, BackendAudioQueueBufferState>,
) -> Map<u32, BackendAudioQueueBufferState> {
    match o {
        Some(rs) => match rs.current {
            Some(BackendAudioQueuePendingInvocation::OutputCallback { buffer_ptr, .. }) => if bufs.contains_key(
                buffer_ptr,
            ) {
                bufs.insert(buffer_ptr, BackendAudioQueueBufferState { callback_inflight: false, ..bufs[buffer_ptr] })
            } else {
                bufs
            },
            _ => bufs,
        },
        None => bufs,
    }
}

/// The first `k` callbacks of `p` cannot run, and the one at `k` (if any)
/// can: it is the first that can.
pub proof fn lemma_first_live(
    queues: Map<u32, BackendAudioQueueHandleState>,
    p: Seq<BackendAudioQueuePendingInvocation>,
    k: int,
)
    requires
        0 <= k <= p.len(),
        forall|j: int| 0 <= j < k ==> !inv_live(queues, #[trigger] p[j]),
    ensures
        k < p.len() && inv_live(queues, p[k]) ==> first_live(queues, p) == k,
        k == p.len() ==> first_live(queues, p) == p.len(),
    decreases k,
{
    if k > 0 {
        let q = p.drop_first();
        assert forall|j: int| 0 <= j < k - 1 implies !inv_live(queues, #[trigger] q[j]) by {
            assert(q[j] == p[j + 1]);
        }
        lemma_first_live(queues, q, k - 1);
        assert(!inv_live(queues, p[0]));
        if k < p.len() {
            assert(q[k - 1] == p[k]);
        }
    }
}

/// `b` with its packet descriptions dropped (when it has any).
pub open spec fn descs_cleared(b: BackendAudioQueueBufferState) -> BackendAudioQueueBufferState {
    if b.packet_descs_ptr != 0 {
        BackendAudioQueueBufferState { packet_descs_ptr: 0, packet_desc_capacity: 0, packet_desc_count: 0, ..b }
    } else {
        b
    }
}

/// The heap, memory and write log after the packet descriptions block of
/// `b` (if any) is freed.
pub open spec fn descs_dropped(
    h0: SyntheticHeapState,
    m0: Seq<RegionView>,
    l0: Seq<(u32, usize)>,
    b: BackendAudioQueueBufferState,
    h1: SyntheticHeapState,
    m1: Seq<RegionView>,
    l1: Seq<(u32, usize)>,
) -> bool {
    if b.packet_descs_ptr != 0 {
        free_step(h0, m0, l0, h1, m1, l1, b.packet_descs_ptr)
    } else {
        h1 == h0 && m1 == m0 && l1 == l0
    }
}

/// `s` without any occurrence of `x`.
pub open spec fn without(s: Seq<u32>, x: u32) -> Seq<u32>
    decreases s.len(),
{
    if s.len() == 0 {
        s
    } else {
        let r = without(s.drop_last(), x);
        if s.last() == x {
            r
        } else {
            r.push(s.last())
        }
    }
}

/// `s`, with `x` appended unless it is already there.
pub open spec fn queued_once(s: Seq<u32>, x: u32) -> Seq<u32> {
    if s.contains(x) {
        s
    } else {
        s.push(x)
    }
}

/// `count * 16`, saturated at `u32::MAX`.
pub open spec fn desc_bytes(count: u32) -> u32 {
    if count * 16 > u32::MAX {
        u32::MAX
    } else {
        (count * 16) as u32
    }
}

/// Removing `x` keeps exactly the other elements, and no element twice if
/// there was none.
pub proof fn lemma_without(s: Seq<u32>, x: u32)
    ensures
        forall|y: u32| #[trigger] without(s, x).contains(y) <==> s.contains(y) && y != x,
        s.no_duplicates() ==> without(s, x).no_duplicates(),
    decreases s.len(),
{
    if s.len() > 0 {
        let d = s.drop_last();
        lemma_without(d, x);
        let r = without(d, x);
        assert forall|y: u32| #[trigger] without(s, x).contains(y) <==> s.contains(y) && y != x by {
            assert(s =~= d.push(s.last()));
            if s.contains(y) && y != x {
                let i = choose|i: int| 0 <= i < s.len() && s[i] == y;
                if i < d.len() {
                    assert(d[i] == y);
                    assert(r.contains(y));
                    if s.last() != x {
                        let j = choose|j: int| 0 <= j < r.len() && r[j] == y;
                        assert(r.push(s.last())[j] == y);
                    }
                } else {
                    assert(s.last() == y);
                    assert(r.push(s.last())[r.len() as int] == y);
                }
            }
            if without(s, x).contains(y) {
                if s.last() != x {
                    let j = choose|j: int| 0 <= j < r.len() + 1 && r.push(s.last())[j] == y;
                    if j < r.len() {
                        assert(r[j] == y);
                        assert(r.contains(y));
                        let i = choose|i: int| 0 <= i < d.len() && d[i] == y;
                        assert(s[i] == y);
                    } else {
                        assert(s[s.len() - 1] == y);
                    }
                } else {
                    assert(r.contains(y));
                    let i = choose|i: int| 0 <= i < d.len() && d[i] == y;
                    assert(s[i] == y);
                }
            }
        }
        if s.no_duplicates() {
            assert(d.no_duplicates()) by {
                assert forall|i: int, j: int| 0 <= i < d.len() && 0 <= j < d.len() && i != j implies d[i] != d[j] by {
                    assert(s[i] == d[i] && s[j] == d[j]);
                }
            }
            if s.last() != x {
                assert(!d.contains(s.last())) by {
                    if d.contains(s.last()) {
                        let i = choose|i: int| 0 <= i < d.len() && d[i] == s.last();
                        assert(s[i] == s[s.len() - 1]);
                    }
                }
                assert(!r.contains(s.last()));
                assert forall|i: int, j: int|
                    0 <= i < r.len() + 1 && 0 <= j < r.len() + 1 && i != j implies r.push(s.last())[i] != r.push(
                    s.last(),
                )[j] by {
                    if i < r.len() && j < r.len() {
                    } else if i < r.len() {
                        assert(r.contains(r[i]));
                    } else if j < r.len() {
                        assert(r.contains(r[j]));
                    }
                }
            }
        }
    }
}

/// What enqueueing buffer `buffer_ptr` on queue `queue_ptr` does once the
/// buffer took in the guest structure (table `bufs1`) and its old packet
/// descriptions were dropped (heap `h1`, memory `m1`, log `l1`): the
/// `count` packet descriptions at `descs_ptr` (when both are non-zero) are
/// copied into a new zeroed heap block; the buffer is marked queued and not
/// in flight with its byte size capped at its capacity; it joins the
/// queue's list unless already there; its guest structure is rewritten.
/// Fails when the descriptions cannot be read or copied, or a word of the
/// structure does not land in mapped memory. `q1`, `h`, `m`, `l` and `r` are
/// the resulting state and result.
pub open spec fn enqueue_after_drop(
    q0: BackendAudioQueueState,
    bufs1: Map<u32, BackendAudioQueueBufferState>,
    queue_ptr: u32,
    buffer_ptr: u32,
    count: u32,
    descs_ptr: u32,
    h1: SyntheticHeapState,
    m1: Seq<RegionView>,
    l1: Seq<(u32, usize)>,
    q1: BackendAudioQueueState,
    h: SyntheticHeapState,
    m: Seq<RegionView>,
    l: Seq<(u32, usize)>,
    r: CoreResult<(u32, u32)>,
) -> bool {
    let b1 = bufs1[buffer_ptr];
    let b2 = descs_cleared(b1);
    let cap = b1.audio_data_capacity;
    let size = min_u32(b1.last_byte_size, cap);
    let n = desc_bytes(count);
    let copies = count != 0 && descs_ptr != 0;
    let hq0 = q0.queues@[queue_ptr];
    let hq1 = q1.queues@[queue_ptr];
    &&& q1.callback_resume == q0.callback_resume
    &&& q1.next_queue_serial == q0.next_queue_serial
    &&& q1.next_buffer_serial == q0.next_buffer_serial
    &&& if copies && !span_mapped(m1, descs_ptr, n) {
        &&& r is Err
        &&& r->Err_0 is Backend
        &&& r->Err_0.spec_message() == "backend cannot read "@ + dec_seq(n as nat) + " bytes at "@ + hex_prefixed(
            descs_ptr as nat,
            8,
        )
        &&& h == h1 && m == m1 && l == l1
        &&& q1.buffers@ == bufs1.insert(buffer_ptr, b2)
        &&& q1.queues == q0.queues
    } else if copies && reserve_outcome(h1.synthetic_heap_cursor, h1.synthetic_heap_end, m1, n) is Err {
        &&& r is Err
        &&& r->Err_0 is Backend
        &&& r->Err_0.spec_message() == reserve_outcome(h1.synthetic_heap_cursor, h1.synthetic_heap_end, m1, n)->Err_0
        &&& h == h1 && m == m1 && l == l1
        &&& q1.buffers@ == bufs1.insert(buffer_ptr, b2)
        &&& q1.queues == q0.queues
    } else {
        let placed = reserve_outcome(h1.synthetic_heap_cursor, h1.synthetic_heap_end, m1, n)->Ok_0;
        let c = placed.0;
        let res = placed.1;
        let mw = if copies {
            write_span(alloc_fill(m1, c, n, res, true), c, span_bytes(m1, descs_ptr, n))
        } else {
            m1
        };
        let lw = if copies {
            l1.push((c, res as usize)).push((c, n as usize))
        } else {
            l1
        };
        let bd = if copies {
            BackendAudioQueueBufferState {
                packet_descs_ptr: c,
                packet_desc_capacity: count,
                packet_desc_count: count,
                ..b2
            }
        } else {
            b2
        };
        let bfin = BackendAudioQueueBufferState {
            enqueued: true,
            callback_inflight: false,
            last_byte_size: size,
            ..bd
        };
        let (m4, l4, failed) = write_words(mw, lw, buffer_ptr, buffer_struct_words(bfin));
        &&& if copies {
            heap_after_alloc(h1, h, c, n, res, "audioqueue.packet_descs"@)
        } else {
            h == h1
        }
        &&& m == m4
        &&& l == l4
        &&& q1.buffers@ == bufs1.insert(buffer_ptr, bfin)
        &&& q1.queues@ == q0.queues@.insert(queue_ptr, hq1)
        &&& handle_lists_changed(hq0, hq1)
        &&& hq1.allocated_buffers@ == hq0.allocated_buffers@
        &&& hq1.queued_buffers@ == queued_once(hq0.queued_buffers@, buffer_ptr)
        &&& match failed {
            None => r == Ok::<(u32, u32), CoreError>((size, cap)),
            Some(a) => r is Err && r->Err_0 is Backend && r->Err_0.spec_message() == write_error_message(m4, a, 4),
        }
    }
}

/// The buffer table of `b0` once buffer `buffer_ptr` (if known) took in
/// its guest structure.
pub open spec fn synced_table(b0: MemoryArm32Backend, buffer_ptr: u32) -> Map<u32, BackendAudioQueueBufferState> {
    let q0 = b0.runtime.audio_queue;
    if q0.buffers@.contains_key(buffer_ptr) {
        q0.buffers@.insert(buffer_ptr, synced_from_guest(q0.buffers@[buffer_ptr], b0.mem(), buffer_ptr))
    } else {
        q0.buffers@
    }
}

/// An enqueue that got past its checks is described by its two phases.
proof fn lemma_enqueue_effect_intro(
    b0: MemoryArm32Backend,
    b1: MemoryArm32Backend,
    queue_ptr: u32,
    buffer_ptr: u32,
    count: u32,
    descs_ptr: u32,
    r: CoreResult<(u32, u32)>,
    h1: SyntheticHeapState,
    m1: Seq<RegionView>,
    l1: Seq<(u32, usize)>,
)
    requires
        b0.runtime.audio_queue.queues@.contains_key(queue_ptr),
        synced_table(b0, buffer_ptr).contains_key(buffer_ptr),
        synced_table(b0, buffer_ptr)[buffer_ptr].queue_ptr == queue_ptr,
        !synced_table(b0, buffer_ptr)[buffer_ptr].freed,
        descs_dropped(
            b0.runtime.heap,
            b0.mem(),
            b0.diag.writes@,
            synced_table(b0, buffer_ptr)[buffer_ptr],
            h1,
            m1,
            l1,
        ),
        enqueue_after_drop(
            b0.runtime.audio_queue,
            synced_table(b0, buffer_ptr),
            queue_ptr,
            buffer_ptr,
            count,
            descs_ptr,
            h1,
            m1,
            l1,
            b1.runtime.audio_queue,
            b1.runtime.heap,
            b1.mem(),
            b1.diag.writes@,
            r,
        ),
    ensures
        enqueue_effect(b0, b1, queue_ptr, buffer_ptr, count, descs_ptr, r),
{
}

/// What enqueueing buffer `buffer_ptr` on queue `queue_ptr` with `count`
/// packet descriptions at `descs_ptr` does to backend `b0`, giving `b1`
/// and result `r`: the buffer first takes in its guest structure; an
/// unknown queue or buffer, or a buffer of another queue or already freed,
/// fails; otherwise its old packet descriptions are dropped and the rest is
/// `enqueue_after_drop`.
pub open spec fn enqueue_effect(
    b0: MemoryArm32Backend,
    b1: MemoryArm32Backend,
    queue_ptr: u32,
    buffer_ptr: u32,
    packet_desc_count: u32,
    packet_descs_ptr: u32,
    r: CoreResult<(u32, u32)>,
) -> bool {
    let q0 = b0.runtime.audio_queue;
    let q1 = b1.runtime.audio_queue;
    let h0 = b0.runtime.heap;
    let m0 = b0.mem();
    let l0 = b0.diag.writes@;
    let bufs1 = synced_table(b0, buffer_ptr);
    if !q0.queues@.contains_key(queue_ptr) {
        &&& r is Err
        &&& r->Err_0 is Backend
        &&& r->Err_0.spec_message() == "AudioQueue "@ + spec_describe_ptr(b0, queue_ptr)
            + " does not exist"@
        &&& b1.runtime == b0.runtime
        &&& b1.mem() == m0
        &&& b1.diag.writes@ == l0
    } else if !bufs1.contains_key(buffer_ptr) {
        &&& r is Err
        &&& r->Err_0 is Backend
        &&& r->Err_0.spec_message() == "AudioQueueBuffer "@ + spec_describe_ptr(b0, buffer_ptr)
            + " does not exist"@
        &&& b1.runtime == b0.runtime
        &&& b1.mem() == m0
        &&& b1.diag.writes@ == l0
    } else if bufs1[buffer_ptr].queue_ptr != queue_ptr || bufs1[buffer_ptr].freed {
        &&& r is Err
        &&& r->Err_0 is Backend
        &&& r->Err_0.spec_message() == "AudioQueueBuffer "@ + spec_describe_ptr(b0, buffer_ptr)
            + " does not belong to "@ + spec_describe_ptr(b0, queue_ptr)
        &&& b1.runtime.heap == h0
        &&& b1.mem() == m0
        &&& b1.diag.writes@ == l0
        &&& q1.buffers@ == bufs1
        &&& q1.queues == q0.queues
        &&& q1.callback_resume == q0.callback_resume
        &&& q1.next_queue_serial == q0.next_queue_serial
        &&& q1.next_buffer_serial == q0.next_buffer_serial
    } else {
        exists|h1: SyntheticHeapState, m1: Seq<RegionView>, l1: Seq<(u32, usize)>|
            #[trigger] descs_dropped(h0, m0, l0, bufs1[buffer_ptr], h1, m1, l1) && enqueue_after_drop(
                q0,
                bufs1,
                queue_ptr,
                buffer_ptr,
                packet_desc_count,
                packet_descs_ptr,
                h1,
                m1,
                l1,
                q1,
                b1.runtime.heap,
                b1.mem(),
                b1.diag.writes@,
                r,
            )
    }
}

/// Where each field lies in the guest encoding of a stream description.
proof fn lemma_asbd_bytes_layout(f: AudioStreamBasicDescriptionState)
    ensures
        spec_asbd_bytes(f).len() == 40,
        spec_asbd_bytes(f).subrange(0, 8) == spec_u64_to_le_bytes(f.sample_rate_bits),
        spec_asbd_bytes(f).subrange(8, 12) == spec_u32_to_le_bytes(f.format_id),
        spec_asbd_bytes(f).subrange(12, 16) == spec_u32_to_le_bytes(f.format_flags),
        spec_asbd_bytes(f).subrange(16, 20) == spec_u32_to_le_bytes(f.bytes_per_packet),
        spec_asbd_bytes(f).subrange(20, 24) == spec_u32_to_le_bytes(f.frames_per_packet),
        spec_asbd_bytes(f).subrange(24, 28) == spec_u32_to_le_bytes(f.bytes_per_frame),
        spec_asbd_bytes(f).subrange(28, 32) == spec_u32_to_le_bytes(f.channels_per_frame),
        spec_asbd_bytes(f).subrange(32, 36) == spec_u32_to_le_bytes(f.bits_per_channel),
        spec_asbd_bytes(f).subrange(36, 40) == spec_u32_to_le_bytes(f.reserved),
{
    vstd::bytes::lemma_auto_spec_u32_to_from_le_bytes();
    vstd::bytes::lemma_auto_spec_u64_to_from_le_bytes();
    let b = spec_asbd_bytes(f);
    assert(b.subrange(0, 8) =~= spec_u64_to_le_bytes(f.sample_rate_bits));
    assert(b.subrange(8, 12) =~= spec_u32_to_le_bytes(f.format_id));
    assert(b.subrange(12, 16) =~= spec_u32_to_le_bytes(f.format_flags));
    assert(b.subrange(16, 20) =~= spec_u32_to_le_bytes(f.bytes_per_packet));
    assert(b.subrange(20, 24) =~= spec_u32_to_le_bytes(f.frames_per_packet));
    assert(b.subrange(24, 28) =~= spec_u32_to_le_bytes(f.bytes_per_frame));
    assert(b.subrange(28, 32) =~= spec_u32_to_le_bytes(f.channels_per_frame));
    assert(b.subrange(32, 36) =~= spec_u32_to_le_bytes(f.bits_per_channel));
    assert(b.subrange(36, 40) =~= spec_u32_to_le_bytes(f.reserved));
}

/// A word stored little-endian at offset `k` of a mapped span reads back.
proof fn lemma_word_in_span(t: Seq<RegionView>, ptr: u32, bytes: Seq<u8>, k: int, w: u32)
    requires
        views_wf(t),
        span_mapped(t, ptr, 40),
        span_bytes(t, ptr, 40) == bytes,
        ptr + 40 <= u32::MAX,
        0 <= k,
        k + 4 <= 40,
        bytes.subrange(k, k + 4) == spec_u32_to_le_bytes(w),
    ensures
        span_mapped(t, (ptr + k) as u32, 4),
        mem_u32(t, (ptr + k) as u32) == w,
{
    vstd::bytes::lemma_auto_spec_u32_to_from_le_bytes();
    let a = (ptr + k) as u32;
    assert(a - ptr == k);
    lemma_subspan_bytes(t, ptr, 40, a, 4);
    assert(span_bytes(t, a, 4) == bytes.subrange(k, k + 4));
    assert(spec_u32_from_le_bytes(spec_u32_to_le_bytes(w)) == w);
}

/// A stream description stored in its guest encoding at a non-null, mapped
/// address reads back unchanged.
pub proof fn lemma_asbd_round_trip(s: Seq<RegionView>, ptr: u32, f: AudioStreamBasicDescriptionState)
    requires
        views_wf(s),
        ptr != 0,
        ptr + 40 <= u32::MAX,
        span_mapped(s, ptr, 40),
    ensures
        spec_read_asbd(write_span(s, ptr, spec_asbd_bytes(f)), ptr) == Some(f),
{
    let bytes = spec_asbd_bytes(f);
    lemma_asbd_bytes_layout(f);
    lemma_read_after_write(s, ptr, bytes);
    let t = write_span(s, ptr, bytes);
    lemma_subspan_bytes(t, ptr, 40, ptr, 8);
    assert(mem_u64(t, ptr) == f.sample_rate_bits) by {
        vstd::bytes::lemma_auto_spec_u64_to_from_le_bytes();
    }
    lemma_word_in_span(t, ptr, bytes, 8, f.format_id);
    lemma_word_in_span(t, ptr, bytes, 12, f.format_flags);
    lemma_word_in_span(t, ptr, bytes, 16, f.bytes_per_packet);
    lemma_word_in_span(t, ptr, bytes, 20, f.frames_per_packet);
    lemma_word_in_span(t, ptr, bytes, 24, f.bytes_per_frame);
    lemma_word_in_span(t, ptr, bytes, 28, f.channels_per_frame);
    lemma_word_in_span(t, ptr, bytes, 32, f.bits_per_channel);
    lemma_word_in_span(t, ptr, bytes, 36, f.reserved);
    assert(ptr.wrapping_add(8) == ptr + 8);
    assert(ptr.wrapping_add(12) == ptr + 12);
    assert(ptr.wrapping_add(16) == ptr + 16);
    assert(ptr.wrapping_add(20) == ptr + 20);
    assert(ptr.wrapping_add(24) == ptr + 24);
    assert(ptr.wrapping_add(28) == ptr + 28);
    assert(ptr.wrapping_add(32) == ptr + 32);
    assert(ptr.wrapping_add(36) == ptr + 36);
}

/// Output callbacks collected for a queue each name a distinct buffer of
/// its allocation list that was idle before and is in flight after; every
/// other buffer is left as it was.
pub proof fn lemma_collect_outputs_in_flight(
    queue_ptr: u32,
    alloc: Seq<u32>,
    bufs: Map<u32, BackendAudioQueueBufferState>,
)
    ensures
        ({
            let (invs, b1) = collect_outputs(queue_ptr, alloc, bufs);
            &&& b1.dom() == bufs.dom()
            &&& forall|k: u32|
                #[trigger] b1.contains_key(k) ==> b1[k] == bufs[k] || b1[k] == (BackendAudioQueueBufferState {
                    callback_inflight: true,
                    ..bufs[k]
                })
            &&& forall|i: int|
                0 <= i < invs.len() ==> (#[trigger] invs[i] matches BackendAudioQueuePendingInvocation::OutputCallback {
                    queue_ptr: q,
                    buffer_ptr: bp,
                } && q == queue_ptr && alloc.contains(bp) && bufs.contains_key(bp) && wants_callback(bufs[bp])
                    && b1[bp].callback_inflight)
            &&& forall|i: int, j: int|
                0 <= i < j < invs.len() ==> (#[trigger] invs[i])->buffer_ptr != (#[trigger] invs[j])->buffer_ptr
        }),
    decreases alloc.len(),
{
    if alloc.len() > 0 {
        let d = alloc.drop_last();
        lemma_collect_outputs_in_flight(queue_ptr, d, bufs);
        let (invs0, b0) = collect_outputs(queue_ptr, d, bufs);
        let last = alloc.last();
        assert forall|x: u32| d.contains(x) implies alloc.contains(x) by {
            let i = choose|i: int| 0 <= i < d.len() && d[i] == x;
            assert(alloc[i] == x);
        }
        if b0.contains_key(last) && wants_callback(b0[last]) {
            let (invs, b1) = collect_outputs(queue_ptr, alloc, bufs);
            assert(b0[last] == bufs[last]);
            assert(alloc.contains(last)) by {
                assert(alloc[alloc.len() - 1] == last);
            }
            assert forall|i: int| 0 <= i < invs0.len() implies (#[trigger] invs0[i])->buffer_ptr != last by {
                let bp = invs0[i]->buffer_ptr;
                assert(b0[bp].callback_inflight);
            }
            assert forall|i: int|
                0 <= i < invs.len() implies (#[trigger] invs[i] matches BackendAudioQueuePendingInvocation::OutputCallback {
                queue_ptr: q,
                buffer_ptr: bp,
            } && q == queue_ptr && alloc.contains(bp) && bufs.contains_key(bp) && wants_callback(bufs[bp])
                && b1[bp].callback_inflight) by {
                if i < invs0.len() {
                    assert(invs[i] == invs0[i]);
                }
            }
            assert forall|i: int, j: int| 0 <= i < j < invs.len() implies (#[trigger] invs[i])->buffer_ptr != (
            #[trigger] invs[j])->buffer_ptr by {
                if j < invs0.len() {
                    assert(invs[i] == invs0[i] && invs[j] == invs0[j]);
                } else {
                    assert(invs[i] == invs0[i]);
                }
            }
            assert(b1.dom() =~= bufs.dom());
        }
    }
}

/// Appends the four bytes of `v`, least significant first.
fn push_le32(out: &mut Vec<u8>, v: u32)
    ensures
        final(out)@ == old(out)@ + spec_u32_to_le_bytes(v),
{
    let w = vstd::bytes::u32_to_le_bytes(v);
    out.extend_from_slice(w.as_slice());
}

/// The guest encoding of a stream description.
pub fn audioqueue_asbd_bytes(format: &AudioStreamBasicDescriptionState) -> (bytes: Vec<u8>)
    ensures
        bytes@ == spec_asbd_bytes(*format),
        bytes@.len() == 40,
{
    proof {
        vstd::bytes::lemma_auto_spec_u32_to_from_le_bytes();
        vstd::bytes::lemma_auto_spec_u64_to_from_le_bytes();
    }
    let mut bytes = vstd::bytes::u64_to_le_bytes(format.sample_rate_bits);
    push_le32(&mut bytes, format.format_id);
    push_le32(&mut bytes, format.format_flags);
    push_le32(&mut bytes, format.bytes_per_packet);
    push_le32(&mut bytes, format.frames_per_packet);
    push_le32(&mut bytes, format.bytes_per_frame);
    push_le32(&mut bytes, format.channels_per_frame);
    push_le32(&mut bytes, format.bits_per_channel);
    push_le32(&mut bytes, format.reserved);
    bytes
}

/// Whether a byte is visible, non-space ASCII.
fn is_ascii_graphic(b: u8) -> (r: bool)
    ensures
        r == ascii_graphic(b),
{
    0x21 <= b && b <= 0x7e
}

/// Shows a format id as its four-character code or, failing that, in hex.
pub fn audioqueue_format_tag(format_id: u32) -> (s: String)
    ensures
        s@ == spec_format_tag(format_id),
{
    let b0 = (format_id % 256) as u8;
    let b1 = (format_id / 256 % 256) as u8;
    let b2 = (format_id / 65536 % 256) as u8;
    let b3 = (format_id / 16777216) as u8;
    let mut s = String::new();
    if is_ascii_graphic(b0) && is_ascii_graphic(b1) && is_ascii_graphic(b2) && is_ascii_graphic(b3) {
        push_char(&mut s, b0 as char);
        push_char(&mut s, b1 as char);
        push_char(&mut s, b2 as char);
        push_char(&mut s, b3 as char);
        assert(s@ =~= seq![b0 as char, b1 as char, b2 as char, b3 as char]);
    } else {
        push_hex_prefixed(&mut s, format_id as u64, 8);
        assert(s@ =~= hex_prefixed(format_id as nat, 8));
    }
    s
}

/// Every field of a stream description but the sample rate, as shown in
/// queue labels.
pub fn audioqueue_format_fields(format: &AudioStreamBasicDescriptionState) -> (s: String)
    ensures
        s@ == spec_format_fields(*format),
{
    let mut s = String::new();
    s.append("fmt=");
    let tag = audioqueue_format_tag(format.format_id);
    s.append(tag.as_str());
    s.append(" flags=");
    push_hex_prefixed(&mut s, format.format_flags as u64, 8);
    s.append(" bpp=");
    push_dec(&mut s, format.bytes_per_packet as u64);
    s.append(" fpp=");
    push_dec(&mut s, format.frames_per_packet as u64);
    s.append(" bpf=");
    push_dec(&mut s, format.bytes_per_frame as u64);
    s.append(" ch=");
    push_dec(&mut s, format.channels_per_frame as u64);
    s.append(" bits=");
    push_dec(&mut s, format.bits_per_channel as u64);
    s
}

/// Whether `(property_id, callback_ptr, user_data_ptr)` is among `ls`.
fn has_listener(
    ls: &Vec<BackendAudioQueuePropertyListenerState>,
    property_id: u32,
    callback_ptr: u32,
    user_data_ptr: u32,
) -> (b: bool)
    ensures
        b == listener_registered(ls@, property_id, callback_ptr, user_data_ptr),
{
    let mut i: usize = 0;
    while i < ls.len()
        invariant
            i <= ls@.len(),
            forall|j: int|
                0 <= j < i ==> !((#[trigger] ls@[j]).property_id == property_id && ls@[j].callback_ptr == callback_ptr
                    && ls@[j].user_data_ptr == user_data_ptr),
        decreases ls@.len() - i,
    {
        let l = ls[i];
        if l.property_id == property_id && l.callback_ptr == callback_ptr && l.user_data_ptr == user_data_ptr {
            return true;
        }
        i = i + 1;
    }
    false
}

/// Whether some listener of `ls` watches `property_id`.
fn watches_property(ls: &Vec<BackendAudioQueuePropertyListenerState>, property_id: u32) -> (b: bool)
    ensures
        b == property_watched(ls@, property_id),
{
    let mut i: usize = 0;
    while i < ls.len()
        invariant
            i <= ls@.len(),
            forall|j: int| 0 <= j < i ==> (#[trigger] ls@[j]).property_id != property_id,
        decreases ls@.len() - i,
    {
        if ls[i].property_id == property_id {
            return true;
        }
        i = i + 1;
    }
    false
}

/// The bytes a property read reports for queue `h`.
fn property_payload(h: &BackendAudioQueueHandleState, property_id: u32, requested: u32) -> (p: Vec<u8>)
    ensures
        p@ == spec_property_payload(*h, property_id, requested),
{
    match h.properties.get(&property_id) {
        Some(blob) => {
            let c = blob.clone();
            assert(c@ =~= blob@);
            c
        },
        None => {
            if watches_property(&h.property_listeners, property_id) {
                vstd::bytes::u32_to_le_bytes(
                    if h.is_running {
                        1u32
                    } else {
                        0u32
                    },
                )
            } else {
                match &h.format {
                    Some(f) => {
                        if requested >= 40 {
                            audioqueue_asbd_bytes(f)
                        } else {
                            Vec::new()
                        }
                    },
                    None => Vec::new(),
                }
            }
        },
    }
}

/// `v` without any occurrence of `x`.
fn vec_without(v: &Vec<u32>, x: u32) -> (r: Vec<u32>)
    ensures
        r@ == without(v@, x),
{
    let mut r: Vec<u32> = Vec::new();
    let mut i: usize = 0;
    while i < v.len()
        invariant
            i <= v@.len(),
            r@ == without(v@.take(i as int), x),
        decreases v@.len() - i,
    {
        proof {
            assert(v@.take(i + 1).drop_last() =~= v@.take(i as int));
            assert(v@.take(i + 1).last() == v@[i as int]);
        }
        if v[i] != x {
            r.push(v[i]);
        }
        i = i + 1;
    }
    assert(v@.take(v@.len() as int) =~= v@);
    r
}

/// Whether `v` holds `x`.
fn vec_has(v: &Vec<u32>, x: u32) -> (b: bool)
    ensures
        b == v@.contains(x),
{
    let mut i: usize = 0;
    while i < v.len()
        invariant
            i <= v@.len(),
            forall|j: int| 0 <= j < i ==> v@[j] != x,
        decreases v@.len() - i,
    {
        if v[i] == x {
            assert(v@[i as int] == x);
            return true;
        }
        i = i + 1;
    }
    false
}

impl MemoryArm32Backend {
    /// Reads the stream description at `ptr`; `None` for a null pointer or
    /// when a field cannot be read.
    pub fn audioqueue_read_asbd(&self, ptr: u32) -> (r: Option<AudioStreamBasicDescriptionState>)
        requires
            self.wf(),
        ensures
            r == spec_read_asbd(self.mem(), ptr),
    {
        if ptr == 0 {
            return None;
        }
        let sample_rate_bits = match self.read_u64_le(ptr) {
            Ok(v) => v,
            Err(_) => return None,
        };
        let format_id = match self.read_u32_le(ptr.wrapping_add(8)) {
            Ok(v) => v,
            Err(_) => return None,
        };
        let format_flags = match self.read_u32_le(ptr.wrapping_add(12)) {
            Ok(v) => v,
            Err(_) => return None,
        };
        let bytes_per_packet = match self.read_u32_le(ptr.wrapping_add(16)) {
            Ok(v) => v,
            Err(_) => return None,
        };
        let frames_per_packet = match self.read_u32_le(ptr.wrapping_add(20)) {
            Ok(v) => v,
            Err(_) => return None,
        };
        let bytes_per_frame = match self.read_u32_le(ptr.wrapping_add(24)) {
            Ok(v) => v,
            Err(_) => return None,
        };
        let channels_per_frame = match self.read_u32_le(ptr.wrapping_add(28)) {
            Ok(v) => v,
            Err(_) => return None,
        };
        let bits_per_channel = match self.read_u32_le(ptr.wrapping_add(32)) {
            Ok(v) => v,
            Err(_) => return None,
        };
        let reserved = match self.read_u32_le(ptr.wrapping_add(36)) {
            Ok(v) => v,
            Err(_) => return None,
        };
        Some(
            AudioStreamBasicDescriptionState {
                sample_rate_bits,
                format_id,
                format_flags,
                bytes_per_packet,
                frames_per_packet,
                bytes_per_frame,
                channels_per_frame,
                bits_per_channel,
                reserved,
            },
        )
    }

    /// Names the next queue (`kind` is `queue`) or buffer (any other kind)
    /// and advances that serial number.
    pub fn audioqueue_next_serial_label(&mut self, kind: &str) -> (label: String)
        ensures
            only_audio_queue_changed(*old(self), *final(self)),
            ({
                let q0 = old(self).runtime.audio_queue;
                let q1 = final(self).runtime.audio_queue;
                &&& q1.queues == q0.queues
                &&& q1.buffers == q0.buffers
                &&& q1.callback_resume == q0.callback_resume
                &&& if kind@ == "queue"@ {
                    &&& label@ == serial_label(true, serial_of(q0.next_queue_serial))
                    &&& q1.next_queue_serial == sat_add(serial_of(q0.next_queue_serial), 1)
                    &&& q1.next_buffer_serial == q0.next_buffer_serial
                } else {
                    &&& label@ == serial_label(false, serial_of(q0.next_buffer_serial))
                    &&& q1.next_buffer_serial == sat_add(serial_of(q0.next_buffer_serial), 1)
                    &&& q1.next_queue_serial == q0.next_queue_serial
                }
            }),
    {
        let is_queue = str_eq(kind, "queue");
        let mut label = String::new();
        if is_queue {
            let next = self.runtime.audio_queue.next_queue_serial;
            let serial = if next == 0 {
                1
            } else {
                next
            };
            self.runtime.audio_queue.next_queue_serial = serial.saturating_add(1);
            label.append("AudioQueue.synthetic#");
            push_dec(&mut label, serial as u64);
        } else {
            let next = self.runtime.audio_queue.next_buffer_serial;
            let serial = if next == 0 {
                1
            } else {
                next
            };
            self.runtime.audio_queue.next_buffer_serial = serial.saturating_add(1);
            label.append("AudioQueueBuffer.synthetic#");
            push_dec(&mut label, serial as u64);
        }
        label
    }

    /// Sets parameter `parameter_id` of queue `queue_ptr` to the
    /// single-precision value with bits `value_bits`; fails for an unknown
    /// queue.
    pub fn audioqueue_set_parameter(&mut self, queue_ptr: u32, parameter_id: u32, value_bits: u32) -> (ok: bool)
        requires
            aq_wf(old(self).runtime.audio_queue),
        ensures
            aq_wf(final(self).runtime.audio_queue),
            only_audio_queue_changed(*old(self), *final(self)),
            ok == old(self).runtime.audio_queue.queues@.contains_key(queue_ptr),
            !ok ==> final(self).runtime.audio_queue == old(self).runtime.audio_queue,
            ok ==> {
                let q0 = old(self).runtime.audio_queue;
                let q1 = final(self).runtime.audio_queue;
                let h0 = q0.queues@[queue_ptr];
                let h1 = q1.queues@[queue_ptr];
                &&& q1.queues@ == q0.queues@.insert(queue_ptr, h1)
                &&& handle_tables_changed(h0, h1)
                &&& h1.parameter_bits@ == h0.parameter_bits@.insert(parameter_id, value_bits)
                &&& h1.properties == h0.properties
                &&& h1.property_listeners == h0.property_listeners
                &&& q1.buffers == q0.buffers
                &&& q1.callback_resume == q0.callback_resume
                &&& q1.next_queue_serial == q0.next_queue_serial
                &&& q1.next_buffer_serial == q0.next_buffer_serial
            },
    {
        if !self.runtime.audio_queue.queues.contains_key(&queue_ptr) {
            return false;
        }
        let mut h = match self.runtime.audio_queue.queues.remove(&queue_ptr) {
            Some(h) => h,
            None => return false,
        };
        h.parameter_bits.insert(parameter_id, value_bits);
        self.runtime.audio_queue.queues.insert(queue_ptr, h);
        proof {
            let m0 = old(self).runtime.audio_queue.queues@;
            let m1 = self.runtime.audio_queue.queues@;
            assert(m1 =~= m0.insert(queue_ptr, m1[queue_ptr]));
            assert forall|k: u32| #[trigger] m1.contains_key(k) implies handle_wf(m1[k]) by {
                if k != queue_ptr {
                    assert(m0.contains_key(k));
                }
            }
        }
        true
    }

    /// Marks queue `queue_ptr` running or stopped; fails for an unknown
    /// queue.
    pub fn audioqueue_set_running(&mut self, queue_ptr: u32, running: bool) -> (ok: bool)
        requires
            aq_wf(old(self).runtime.audio_queue),
        ensures
            aq_wf(final(self).runtime.audio_queue),
            only_audio_queue_changed(*old(self), *final(self)),
            ok == old(self).runtime.audio_queue.queues@.contains_key(queue_ptr),
            !ok ==> final(self).runtime.audio_queue == old(self).runtime.audio_queue,
            ok ==> {
                let q0 = old(self).runtime.audio_queue;
                let q1 = final(self).runtime.audio_queue;
                let h0 = q0.queues@[queue_ptr];
                let h1 = q1.queues@[queue_ptr];
                &&& q1.queues@ == q0.queues@.insert(queue_ptr, h1)
                &&& h1 == (BackendAudioQueueHandleState { is_running: running, ..h0 })
                &&& q1.buffers == q0.buffers
                &&& q1.callback_resume == q0.callback_resume
                &&& q1.next_queue_serial == q0.next_queue_serial
                &&& q1.next_buffer_serial == q0.next_buffer_serial
            },
    {
        if !self.runtime.audio_queue.queues.contains_key(&queue_ptr) {
            return false;
        }
        let mut h = match self.runtime.audio_queue.queues.remove(&queue_ptr) {
            Some(h) => h,
            None => return false,
        };
        h.is_running = running;
        self.runtime.audio_queue.queues.insert(queue_ptr, h);
        proof {
            let m0 = old(self).runtime.audio_queue.queues@;
            let m1 = self.runtime.audio_queue.queues@;
            assert(m1 =~= m0.insert(queue_ptr, m1[queue_ptr]));
            assert forall|k: u32| #[trigger] m1.contains_key(k) implies handle_wf(m1[k]) by {
                if k != queue_ptr {
                    assert(m0.contains_key(k));
                }
            }
        }
        true
    }
    /// Registers a property listener on queue `queue_ptr` unless the same
    /// one is already registered; fails for an unknown queue.
    pub fn audioqueue_add_property_listener(
        &mut self,
        queue_ptr: u32,
        property_id: u32,
        callback_ptr: u32,
        user_data_ptr: u32,
    ) -> (ok: bool)
        requires
            aq_wf(old(self).runtime.audio_queue),
        ensures
            aq_wf(final(self).runtime.audio_queue),
            only_audio_queue_changed(*old(self), *final(self)),
            ok == old(self).runtime.audio_queue.queues@.contains_key(queue_ptr),
            !ok || listener_registered(
                old(self).runtime.audio_queue.queues@[queue_ptr].property_listeners@,
                property_id,
                callback_ptr,
                user_data_ptr,
            ) ==> final(self).runtime.audio_queue == old(self).runtime.audio_queue,
            ok && !listener_registered(
                old(self).runtime.audio_queue.queues@[queue_ptr].property_listeners@,
                property_id,
                callback_ptr,
                user_data_ptr,
            ) ==> {
                let q0 = old(self).runtime.audio_queue;
                let q1 = final(self).runtime.audio_queue;
                let h0 = q0.queues@[queue_ptr];
                let h1 = q1.queues@[queue_ptr];
                &&& q1.queues@ == q0.queues@.insert(queue_ptr, h1)
                &&& handle_tables_changed(h0, h1)
                &&& h1.property_listeners@ == h0.property_listeners@.push(
                    BackendAudioQueuePropertyListenerState { property_id, callback_ptr, user_data_ptr },
                )
                &&& h1.parameter_bits == h0.parameter_bits
                &&& h1.properties == h0.properties
                &&& q1.buffers == q0.buffers
                &&& q1.callback_resume == q0.callback_resume
                &&& q1.next_queue_serial == q0.next_queue_serial
                &&& q1.next_buffer_serial == q0.next_buffer_serial
            },
    {
        match self.runtime.audio_queue.queues.get(&queue_ptr) {
            None => return false,
            Some(h) => {
                if has_listener(&h.property_listeners, property_id, callback_ptr, user_data_ptr) {
                    return true;
                }
            },
        }
        let mut h = match self.runtime.audio_queue.queues.remove(&queue_ptr) {
            Some(h) => h,
            None => return false,
        };
        h.property_listeners.push(BackendAudioQueuePropertyListenerState { property_id, callback_ptr, user_data_ptr });
        self.runtime.audio_queue.queues.insert(queue_ptr, h);
        proof {
            let m0 = old(self).runtime.audio_queue.queues@;
            let m1 = self.runtime.audio_queue.queues@;
            assert(m1 =~= m0.insert(queue_ptr, m1[queue_ptr]));
            assert forall|k: u32| #[trigger] m1.contains_key(k) implies handle_wf(m1[k]) by {
                if k != queue_ptr {
                    assert(m0.contains_key(k));
                }
            }
        }
        true
    }

    /// Stores property `property_id` of queue `queue_ptr` as the
    /// `data_size` bytes at `data_ptr` (nothing for a null pointer or a zero
    /// size). Fails when those bytes cannot be read; reports `false` for an
    /// unknown queue.
    pub fn audioqueue_set_property(&mut self, queue_ptr: u32, property_id: u32, data_ptr: u32, data_size: u32) -> (r:
        CoreResult<bool>)
        requires
            old(self).wf(),
            aq_wf(old(self).runtime.audio_queue),
        ensures
            aq_wf(final(self).runtime.audio_queue),
            only_audio_queue_changed(*old(self), *final(self)),
            ({
                let reads = data_ptr != 0 && data_size != 0;
                let q0 = old(self).runtime.audio_queue;
                let q1 = final(self).runtime.audio_queue;
                if reads && !span_mapped(old(self).mem(), data_ptr, data_size) {
                    &&& r is Err
                    &&& r->Err_0 is Backend
                    &&& r->Err_0.spec_message() == "backend cannot read "@ + dec_seq(data_size as nat) + " bytes at "@
                        + hex_prefixed(data_ptr as nat, 8)
                    &&& q1 == q0
                } else if !q0.queues@.contains_key(queue_ptr) {
                    r == Ok::<bool, CoreError>(false) && q1 == q0
                } else {
                    let h0 = q0.queues@[queue_ptr];
                    let h1 = q1.queues@[queue_ptr];
                    &&& r == Ok::<bool, CoreError>(true)
                    &&& q1.queues@ == q0.queues@.insert(queue_ptr, h1)
                    &&& handle_tables_changed(h0, h1)
                    &&& h1.properties@ == h0.properties@.insert(property_id, h1.properties@[property_id])
                    &&& h1.properties@[property_id]@ == (if reads {
                        span_bytes(old(self).mem(), data_ptr, data_size)
                    } else {
                        Seq::empty()
                    })
                    &&& h1.parameter_bits == h0.parameter_bits
                    &&& h1.property_listeners == h0.property_listeners
                    &&& q1.buffers == q0.buffers
                    &&& q1.callback_resume == q0.callback_resume
                    &&& q1.next_queue_serial == q0.next_queue_serial
                    &&& q1.next_buffer_serial == q0.next_buffer_serial
                }
            }),
    {
        let payload: Vec<u8> = if data_ptr == 0 || data_size == 0 {
            Vec::new()
        } else {
            match self.read_guest_bytes(data_ptr, data_size) {
                Ok(p) => p,
                Err(e) => return Err(e),
            }
        };
        if !self.runtime.audio_queue.queues.contains_key(&queue_ptr) {
            return Ok(false);
        }
        let mut h = match self.runtime.audio_queue.queues.remove(&queue_ptr) {
            Some(h) => h,
            None => return Ok(false),
        };
        let ghost h0 = h;
        h.properties.insert(property_id, payload);
        proof {
            assert(handle_wf(h0));
            assert forall|k: u32| #[trigger] h.properties@.contains_key(k) implies h.properties@[k]@.len()
                <= u32::MAX by {
                if k != property_id {
                    assert(h0.properties@.contains_key(k));
                }
            }
        }
        self.runtime.audio_queue.queues.insert(queue_ptr, h);
        proof {
            let m0 = old(self).runtime.audio_queue.queues@;
            let m1 = self.runtime.audio_queue.queues@;
            assert(m1 =~= m0.insert(queue_ptr, m1[queue_ptr]));
            assert(m1[queue_ptr].properties@ =~= h0.properties@.insert(property_id, m1[queue_ptr].properties@[property_id]));
            assert forall|k: u32| #[trigger] m1.contains_key(k) implies handle_wf(m1[k]) by {
                if k != queue_ptr {
                    assert(m0.contains_key(k));
                }
            }
        }
        Ok(true)
    }

    /// Reads property `property_id` of queue `queue_ptr` into `out_data_ptr`
    /// (when not null) and stores its size at `io_size_ptr` (when not
    /// null), which also offers the caller's room for a stream description.
    /// Returns whether a value was found and its size; with no value the
    /// size stored is 0. Fails when a store does not land in mapped memory.
    #[verifier::spinoff_prover]
    pub fn audioqueue_get_property(&mut self, queue_ptr: u32, property_id: u32, out_data_ptr: u32, io_size_ptr: u32) -> (r:
        CoreResult<(bool, u32)>)
        requires
            old(self).wf(),
            aq_wf(old(self).runtime.audio_queue),
        ensures
            final(self).wf(),
            final(self).runtime == old(self).runtime,
            final(self).cpu == old(self).cpu,
            final(self).execution == old(self).execution,
            final(self).diag.object_labels == old(self).diag.object_labels,
            final(self).diag.symbol_labels == old(self).diag.symbol_labels,
            final(self).profile == old(self).profile,
            final(self).tuning == old(self).tuning,
            ({
                let m0 = old(self).mem();
                let l0 = old(self).diag.writes@;
                let qs = old(self).runtime.audio_queue.queues@;
                let p = if qs.contains_key(queue_ptr) {
                    spec_property_payload(qs[queue_ptr], property_id, spec_requested_size(m0, io_size_ptr))
                } else {
                    Seq::empty()
                };
                if p.len() == 0 {
                    match store_at(m0, l0, io_size_ptr, spec_u32_to_le_bytes(0)) {
                        Some((m1, l1)) => r == Ok::<(bool, u32), CoreError>((false, 0u32)) && final(self).mem()
                            == m1 && final(self).diag.writes@ == l1,
                        None => r is Err && r->Err_0 is Backend && r->Err_0.spec_message() == write_error_message(
                            m0,
                            io_size_ptr,
                            4,
                        ) && final(self).mem() == m0 && final(self).diag.writes@ == l0,
                    }
                } else {
                    match store_at(m0, l0, out_data_ptr, p) {
                        None => r is Err && r->Err_0 is Backend && r->Err_0.spec_message() == write_error_message(
                            m0,
                            out_data_ptr,
                            p.len(),
                        ) && final(self).mem() == m0 && final(self).diag.writes@ == l0,
                        Some((m1, l1)) => match store_at(m1, l1, io_size_ptr, spec_u32_to_le_bytes(p.len() as u32)) {
                            None => r is Err && r->Err_0 is Backend && r->Err_0.spec_message() == write_error_message(
                                m1,
                                io_size_ptr,
                                4,
                            ) && final(self).mem() == m1 && final(self).diag.writes@ == l1,
                            Some((m2, l2)) => r == Ok::<(bool, u32), CoreError>((true, p.len() as u32))
                                && final(self).mem() == m2 && final(self).diag.writes@ == l2,
                        },
                    }
                }
            }),
    {
        proof {
            vstd::bytes::lemma_auto_spec_u32_to_from_le_bytes();
        }
        let requested: u32 = if io_size_ptr != 0 {
            match self.read_u32_le(io_size_ptr) {
                Ok(v) => v,
                Err(_) => 0,
            }
        } else {
            0
        };
        let payload: Vec<u8> = match self.runtime.audio_queue.queues.get(&queue_ptr) {
            Some(h) => {
                proof {
                    assert(handle_wf(*h));
                    vstd::bytes::lemma_auto_spec_u64_to_from_le_bytes();
                }
                property_payload(h, property_id, requested)
            },
            None => Vec::new(),
        };
        if payload.len() == 0 {
            if io_size_ptr != 0 {
                match self.write_u32_le(io_size_ptr, 0) {
                    Ok(()) => {},
                    Err(e) => return Err(e),
                }
            }
            return Ok((false, 0));
        }
        let actual_size = payload.len() as u32;
        if out_data_ptr != 0 {
            match self.write_bytes(out_data_ptr, payload.as_slice()) {
                Ok(()) => {},
                Err(e) => return Err(e),
            }
        }
        if io_size_ptr != 0 {
            match self.write_u32_le(io_size_ptr, actual_size) {
                Ok(()) => {},
                Err(e) => return Err(e),
            }
        }
        Ok((true, actual_size))
    }
    /// Writes the guest structure of buffer `buffer_ptr` from its recorded
    /// state; fails for an unknown buffer or when a word does not land in
    /// mapped memory.
    pub fn audioqueue_write_buffer_guest_struct(&mut self, buffer_ptr: u32) -> (r: CoreResult<()>)
        requires
            old(self).wf(),
        ensures
            final(self).wf(),
            final(self).runtime == old(self).runtime,
            final(self).cpu == old(self).cpu,
            final(self).execution == old(self).execution,
            final(self).diag.object_labels == old(self).diag.object_labels,
            final(self).diag.symbol_labels == old(self).diag.symbol_labels,
            final(self).profile == old(self).profile,
            final(self).tuning == old(self).tuning,
            final(self).address_space.trampoline_addr == old(self).address_space.trampoline_addr,
            final(self).address_space.trampoline_size == old(self).address_space.trampoline_size,
            !old(self).runtime.audio_queue.buffers@.contains_key(buffer_ptr) ==> {
                &&& r is Err
                &&& r->Err_0 is Backend
                &&& r->Err_0.spec_message() == "AudioQueueBuffer "@ + spec_describe_ptr(*old(self), buffer_ptr)
                    + " not found"@
                &&& final(self).mem() == old(self).mem()
                &&& final(self).diag.writes == old(self).diag.writes
            },
            old(self).runtime.audio_queue.buffers@.contains_key(buffer_ptr) ==> {
                let b = old(self).runtime.audio_queue.buffers@[buffer_ptr];
                let (m, log, failed) = write_words(
                    old(self).mem(),
                    old(self).diag.writes@,
                    b.buffer_ptr,
                    buffer_struct_words(b),
                );
                &&& final(self).mem() == m
                &&& final(self).diag.writes@ == log
                &&& match failed {
                    None => r is Ok,
                    Some(a) => r is Err && r->Err_0 is Backend && r->Err_0.spec_message() == write_error_message(
                        m,
                        a,
                        4,
                    ),
                }
            },
    {
        let b = match self.runtime.audio_queue.buffers.get(&buffer_ptr) {
            Some(b) => *b,
            None => {
                let mut msg = String::new();
                msg.append("AudioQueueBuffer ");
                let d = self.describe_ptr(buffer_ptr);
                msg.append(d.as_str());
                msg.append(" not found");
                return Err(CoreError::Backend(msg));
            },
        };
        let words = vec![
            b.audio_data_capacity,
            b.audio_data_ptr,
            b.last_byte_size,
            b.user_data_ptr,
            b.packet_desc_capacity,
            b.packet_descs_ptr,
            b.packet_desc_count,
        ];
        assert(words@ =~= buffer_struct_words(b));
        self.write_u32_words(b.buffer_ptr, &words)
    }

    /// Takes in what the guest wrote into the structure of buffer
    /// `buffer_ptr`: its byte size (capped at the capacity), user data,
    /// packet descriptions pointer (when not null) and count (capped).
    /// Nothing happens for an unknown buffer.
    pub fn audioqueue_sync_buffer_from_guest(&mut self, buffer_ptr: u32) -> (r: CoreResult<()>)
        requires
            old(self).wf(),
            aq_wf(old(self).runtime.audio_queue),
        ensures
            r is Ok,
            aq_wf(final(self).runtime.audio_queue),
            only_audio_queue_changed(*old(self), *final(self)),
            ({
                let q0 = old(self).runtime.audio_queue;
                let q1 = final(self).runtime.audio_queue;
                &&& !q0.buffers@.contains_key(buffer_ptr) ==> q1 == q0
                &&& q1.buffers@ == if q0.buffers@.contains_key(buffer_ptr) {
                    q0.buffers@.insert(buffer_ptr, synced_from_guest(q0.buffers@[buffer_ptr], old(self).mem(), buffer_ptr))
                } else {
                    q0.buffers@
                }
                &&& q1.queues == q0.queues
                &&& q1.callback_resume == q0.callback_resume
                &&& q1.next_queue_serial == q0.next_queue_serial
                &&& q1.next_buffer_serial == q0.next_buffer_serial
            }),
    {
        let byte_size = match self.read_u32_le(buffer_ptr.wrapping_add(8)) {
            Ok(v) => v,
            Err(_) => 0,
        };
        let user_data_ptr = match self.read_u32_le(buffer_ptr.wrapping_add(12)) {
            Ok(v) => v,
            Err(_) => 0,
        };
        let packet_descs_ptr = match self.read_u32_le(buffer_ptr.wrapping_add(20)) {
            Ok(v) => v,
            Err(_) => 0,
        };
        let packet_desc_count = match self.read_u32_le(buffer_ptr.wrapping_add(24)) {
            Ok(v) => v,
            Err(_) => 0,
        };
        let mut b = match self.runtime.audio_queue.buffers.get(&buffer_ptr) {
            Some(b) => *b,
            None => return Ok(()),
        };
        b.last_byte_size = if byte_size < b.audio_data_capacity {
            byte_size
        } else {
            b.audio_data_capacity
        };
        b.user_data_ptr = user_data_ptr;
        if packet_descs_ptr != 0 {
            b.packet_descs_ptr = packet_descs_ptr;
        }
        b.packet_desc_count = if packet_desc_count < b.packet_desc_capacity {
            packet_desc_count
        } else {
            b.packet_desc_capacity
        };
        self.runtime.audio_queue.buffers.insert(buffer_ptr, b);
        proof {
            let m0 = old(self).runtime.audio_queue.buffers@;
            let m1 = self.runtime.audio_queue.buffers@;
            assert forall|k: u32| #[trigger] m1.contains_key(k) implies buffer_entry_wf(k, m1[k]) by {
                if k != buffer_ptr {
                    assert(m0.contains_key(k));
                }
            }
        }
        Ok(())
    }
    /// Creates an output queue: a zeroed 32-byte heap handle, labelled with
    /// the queue's serial name and the text `summarize` gives for the stream
    /// description read at `format_ptr`, registered with the callback
    /// settings and that description. Fails, changing nothing, when the
    /// handle cannot be allocated.
    #[verifier::spinoff_prover]
    pub fn audioqueue_create_output<F: Fn(Option<AudioStreamBasicDescriptionState>) -> String>(
        &mut self,
        format_ptr: u32,
        callback_ptr: u32,
        user_data_ptr: u32,
        callback_runloop: u32,
        callback_runloop_mode: u32,
        flags: u32,
        summarize: F,
    ) -> (r: CoreResult<u32>)
        requires
            old(self).wf(),
            old(self).runtime.heap.heap_wf(),
            aq_wf(old(self).runtime.audio_queue),
            forall|f: Option<AudioStreamBasicDescriptionState>| #[trigger] summarize.requires((f,)),
        ensures
            final(self).wf(),
            final(self).runtime.heap.heap_wf(),
            aq_wf(final(self).runtime.audio_queue),
            aq_alloc_frame(*old(self), *final(self)),
            match alloc_outcome(*old(self), 32) {
                None => {
                    &&& r is Err
                    &&& r->Err_0 is Backend
                    &&& r->Err_0.spec_message() == alloc_error(*old(self), 32)
                    &&& final(self).runtime == old(self).runtime
                    &&& final(self).mem() == old(self).mem()
                    &&& final(self).diag == old(self).diag
                },
                Some((start, reserved)) => {
                    let m1 = alloc_fill(old(self).mem(), start, 32, reserved, true);
                    let q0 = old(self).runtime.audio_queue;
                    let q1 = final(self).runtime.audio_queue;
                    let serial = serial_of(q0.next_queue_serial);
                    let fmt = spec_read_asbd(m1, format_ptr);
                    &&& r == Ok::<u32, CoreError>(start)
                    &&& heap_after_alloc(
                        old(self).runtime.heap,
                        final(self).runtime.heap,
                        start,
                        32,
                        reserved,
                        "audioqueue.handle"@,
                    )
                    &&& final(self).mem() == m1
                    &&& final(self).diag.writes@ == old(self).diag.writes@.push((start, reserved as usize))
                    &&& q1.next_queue_serial == sat_add(serial, 1)
                    &&& q1.next_buffer_serial == q0.next_buffer_serial
                    &&& q1.buffers == q0.buffers
                    &&& q1.callback_resume == q0.callback_resume
                    &&& q1.queues@ == q0.queues@.insert(start, q1.queues@[start])
                    &&& handle_fresh(
                        q1.queues@[start],
                        start,
                        callback_ptr,
                        user_data_ptr,
                        callback_runloop,
                        callback_runloop_mode,
                        flags,
                        fmt,
                    )
                    &&& final(self).diag.object_labels@ == old(self).diag.object_labels@.insert(
                        start,
                        final(self).diag.object_labels@[start],
                    )
                    &&& exists|text: String|
                        #[trigger] summarize.ensures((fmt,), text) && final(self).diag.object_labels@[start]@
                            == serial_label(true, serial) + "<"@ + text@ + ">"@
                },
            },
    {
        let handle_ptr = match self.alloc_synthetic_heap_block(32, true, String::from_str("audioqueue.handle")) {
            Ok(p) => p,
            Err(e) => return Err(e),
        };
        let label = self.audioqueue_next_serial_label("queue");
        let format = self.audioqueue_read_asbd(format_ptr);
        let summary = summarize(format);
        let mut text = label;
        text.append("<");
        text.append(summary.as_str());
        text.append(">");
        self.diag.object_labels.insert(handle_ptr, text);
        let h = BackendAudioQueueHandleState {
            handle_ptr,
            callback_ptr,
            user_data_ptr,
            callback_runloop,
            callback_runloop_mode,
            flags,
            format,
            parameter_bits: HashMap::new(),
            properties: HashMap::new(),
            property_listeners: Vec::new(),
            allocated_buffers: Vec::new(),
            queued_buffers: Vec::new(),
            is_running: false,
            start_count: 0,
            prime_count: 0,
            stop_count: 0,
            dispose_count: 0,
        };
        self.runtime.audio_queue.queues.insert(handle_ptr, h);
        proof {
            let m0 = old(self).runtime.audio_queue.queues@;
            let m1 = self.runtime.audio_queue.queues@;
            assert(m1 =~= m0.insert(handle_ptr, m1[handle_ptr]));
            assert forall|k: u32| #[trigger] m1.contains_key(k) implies handle_wf(m1[k]) by {
                if k != handle_ptr {
                    assert(m0.contains_key(k));
                }
            }
            let l0 = old(self).diag.object_labels@;
            let l1 = self.diag.object_labels@;
            assert(l1 =~= l0.insert(handle_ptr, l1[handle_ptr]));
            assert(summarize.ensures((format,), summary));
        }
        Ok(handle_ptr)
    }

    /// Allocates a buffer of `capacity` bytes for queue `queue_ptr`: a zeroed
    /// guest `AudioQueueBuffer` structure and a zeroed data block (at least
    /// one byte), labelled with the buffer's serial name, recorded on the
    /// queue and described in the guest structure. Fails for an unknown
    /// queue, or when a block cannot be allocated (a structure already
    /// allocated then stays allocated).
    #[verifier::spinoff_prover]
    #[verifier::rlimit(40)]
    pub fn audioqueue_allocate_buffer(&mut self, queue_ptr: u32, capacity: u32) -> (r: CoreResult<u32>)
        requires
            old(self).wf(),
            old(self).runtime.heap.heap_wf(),
            aq_wf(old(self).runtime.audio_queue),
        ensures
            final(self).wf(),
            final(self).runtime.heap.heap_wf(),
            aq_wf(final(self).runtime.audio_queue),
            aq_alloc_frame(*old(self), *final(self)),
            !old(self).runtime.audio_queue.queues@.contains_key(queue_ptr) ==> {
                &&& r is Err
                &&& r->Err_0 is Backend
                &&& r->Err_0.spec_message() == "AudioQueue "@ + spec_describe_ptr(*old(self), queue_ptr)
                    + " does not exist"@
                &&& final(self).runtime == old(self).runtime
                &&& final(self).mem() == old(self).mem()
                &&& final(self).diag == old(self).diag
            },
            old(self).runtime.audio_queue.queues@.contains_key(queue_ptr) ==> match alloc_outcome(*old(self), 28) {
                None => {
                    &&& r is Err
                    &&& r->Err_0 is Backend
                    &&& r->Err_0.spec_message() == alloc_error(*old(self), 28)
                    &&& final(self).runtime == old(self).runtime
                    &&& final(self).mem() == old(self).mem()
                    &&& final(self).diag == old(self).diag
                },
                Some((p1, res1)) => {
                    let h0 = old(self).runtime.heap;
                    let m1 = alloc_fill(old(self).mem(), p1, 28, res1, true);
                    let l1 = old(self).diag.writes@.push((p1, res1 as usize));
                    let want: u32 = if capacity == 0 { 1 } else { capacity };
                    match reserve_outcome((p1 + res1) as u32, h0.synthetic_heap_end, m1, want) {
                        Err(msg) => {
                            &&& r is Err
                            &&& r->Err_0 is Backend
                            &&& r->Err_0.spec_message() == msg
                            &&& heap_after_alloc(h0, final(self).runtime.heap, p1, 28, res1, "audioqueue.buffer"@)
                            &&& final(self).mem() == m1
                            &&& final(self).diag.writes@ == l1
                            &&& final(self).runtime.audio_queue == old(self).runtime.audio_queue
                            &&& final(self).diag.object_labels == old(self).diag.object_labels
                        },
                        Ok((p2, res2)) => {
                            let m2 = alloc_fill(m1, p2, want, res2, true);
                            let l2 = l1.push((p2, res2 as usize));
                            let q0 = old(self).runtime.audio_queue;
                            let q1 = final(self).runtime.audio_queue;
                            let serial = serial_of(q0.next_buffer_serial);
                            let buf = buffer_fresh(queue_ptr, p1, p2, capacity);
                            let (m3, l3, _) = write_words(m2, l2, p1, buffer_struct_words(buf));
                            &&& r == Ok::<u32, CoreError>(p1)
                            &&& exists|hm: SyntheticHeapState|
                                #[trigger] heap_after_alloc(h0, hm, p1, 28, res1, "audioqueue.buffer"@)
                                    && heap_after_alloc(
                                    hm,
                                    final(self).runtime.heap,
                                    p2,
                                    want,
                                    res2,
                                    "audioqueue.buffer.data"@,
                                )
                            &&& final(self).mem() == m3
                            &&& final(self).diag.writes@ == l3
                            &&& q1.buffers@ == q0.buffers@.insert(p1, buf)
                            &&& q1.queues@ == q0.queues@.insert(queue_ptr, q1.queues@[queue_ptr])
                            &&& handle_lists_changed(q0.queues@[queue_ptr], q1.queues@[queue_ptr])
                            &&& q1.queues@[queue_ptr].allocated_buffers@ == q0.queues@[queue_ptr].allocated_buffers@.push(p1)
                            &&& q1.queues@[queue_ptr].queued_buffers@ == q0.queues@[queue_ptr].queued_buffers@
                            &&& q1.next_buffer_serial == sat_add(serial, 1)
                            &&& q1.next_queue_serial == q0.next_queue_serial
                            &&& q1.callback_resume == q0.callback_resume
                            &&& labels_view(final(self).diag.object_labels@) == labels_view(
                                old(self).diag.object_labels@,
                            ).insert(p1, serial_label(false, serial)).insert(
                                p2,
                                serial_label(false, serial) + ".mAudioData"@,
                            )
                        },
                    }
                },
            },
    {
        if !self.runtime.audio_queue.queues.contains_key(&queue_ptr) {
            let mut msg = String::new();
            msg.append("AudioQueue ");
            let d = self.describe_ptr(queue_ptr);
            msg.append(d.as_str());
            msg.append(" does not exist");
            return Err(CoreError::Backend(msg));
        }
        let buffer_ptr = match self.alloc_synthetic_heap_block(
            AUDIOQUEUE_BUFFER_STRUCT_SIZE,
            true,
            String::from_str("audioqueue.buffer"),
        ) {
            Ok(p) => p,
            Err(e) => return Err(e),
        };
        let ghost hm = self.runtime.heap;
        let ghost m1 = self.mem();
        let want: u32 = if capacity == 0 {
            1
        } else {
            capacity
        };
        let audio_data_ptr = match self.alloc_synthetic_heap_block(
            want,
            true,
            String::from_str("audioqueue.buffer.data"),
        ) {
            Ok(p) => p,
            Err(e) => return Err(e),
        };
        let ghost m2 = self.mem();
        let ghost l2 = self.diag.writes@;
        proof {
            reveal_strlit("buffer");
            reveal_strlit("queue");
            assert("buffer"@.len() != "queue"@.len());
            assert("buffer"@ != "queue"@);
        }
        let label = self.audioqueue_next_serial_label("buffer");
        let mut data_label = String::from_str(label.as_str());
        data_label.append(".mAudioData");
        let ghost lab0 = self.diag.object_labels@;
        proof {
            lemma_labels_view_insert(lab0, buffer_ptr, label);
            lemma_labels_view_insert(lab0.insert(buffer_ptr, label), audio_data_ptr, data_label);
        }
        self.diag.object_labels.insert(buffer_ptr, label);
        self.diag.object_labels.insert(audio_data_ptr, data_label);
        let buf = BackendAudioQueueBufferState {
            queue_ptr,
            buffer_ptr,
            audio_data_ptr,
            audio_data_capacity: capacity,
            last_byte_size: 0,
            user_data_ptr: 0,
            packet_descs_ptr: 0,
            packet_desc_capacity: 0,
            packet_desc_count: 0,
            enqueued: false,
            callback_inflight: false,
            freed: false,
        };
        self.runtime.audio_queue.buffers.insert(buffer_ptr, buf);
        let mut h = match self.runtime.audio_queue.queues.remove(&queue_ptr) {
            Some(h) => h,
            None => return Err(CoreError::Backend(String::from_str("AudioQueue vanished"))),
        };
        h.allocated_buffers.push(buffer_ptr);
        self.runtime.audio_queue.queues.insert(queue_ptr, h);
        proof {
            let qm0 = old(self).runtime.audio_queue.queues@;
            let qm1 = self.runtime.audio_queue.queues@;
            assert(qm1 =~= qm0.insert(queue_ptr, qm1[queue_ptr]));
            assert forall|k: u32| #[trigger] qm1.contains_key(k) implies handle_wf(qm1[k]) by {
                if k != queue_ptr {
                    assert(qm0.contains_key(k));
                }
            }
            let bm0 = old(self).runtime.audio_queue.buffers@;
            let bm1 = self.runtime.audio_queue.buffers@;
            assert forall|k: u32| #[trigger] bm1.contains_key(k) implies buffer_entry_wf(k, bm1[k]) by {
                if k != buffer_ptr {
                    assert(bm0.contains_key(k));
                }
            }
            let res1 = (hm.synthetic_heap_cursor - buffer_ptr) as u32;
            lemma_write_keeps_mapped(old(self).mem(), buffer_ptr, fill_seq(res1 as nat, 0), buffer_ptr, res1);
            let res2 = (self.runtime.heap.synthetic_heap_cursor - audio_data_ptr) as u32;
            lemma_write_keeps_mapped(m1, audio_data_ptr, fill_seq(res2 as nat, 0), buffer_ptr, res1);
            lemma_subspan_mapped(m2, buffer_ptr, res1, buffer_ptr, 28);
            assert(buffer_struct_words(buf).len() == 7);
            lemma_words_land(m2, l2, buffer_ptr, buffer_struct_words(buf));
        }
        match self.audioqueue_write_buffer_guest_struct(buffer_ptr) {
            Ok(()) => {},
            Err(e) => return Err(e),
        }
        Ok(buffer_ptr)
    }
    /// Hands the next runnable pending callback to the guest: callbacks that
    /// cannot run are dropped, the first that can becomes current and the
    /// CPU is set up to call it (arguments in `r0`-`r3`, the return stub in
    /// `lr`, Thumb state from bit 0 of the callback address). Nothing
    /// happens without a hand-off in progress.
    #[verifier::spinoff_prover]
    pub fn audioqueue_dispatch_next_pending_callback(&mut self) -> (r: CoreResult<()>)
        requires
            old(self).wf(),
        ensures
            r is Ok,
            final(self).wf(),
            only_handoff_changed(*old(self), *final(self)),
            final(self).runtime.audio_queue.buffers == old(self).runtime.audio_queue.buffers,
            match old(self).runtime.audio_queue.callback_resume {
                None => final(self).runtime.audio_queue.callback_resume is None && final(self).cpu == old(self).cpu,
                Some(rs) => dispatched(
                    old(self).runtime.audio_queue.queues@,
                    rs.origin_label@,
                    rs.resume_lr,
                    rs.return_status,
                    rs.current,
                    rs.pending@,
                    old(self).cpu,
                    final(self).runtime.audio_queue.callback_resume,
                    final(self).cpu,
                ),
            },
    {
        let mut rs = match self.runtime.audio_queue.callback_resume.take() {
            Some(rs) => rs,
            None => return Ok(()),
        };
        let ghost rs0 = rs;
        let ghost p0 = rs.pending@;
        let ghost qs = self.runtime.audio_queue.queues@;
        let ghost mut k: int = 0;
        while rs.pending.len() > 0
            invariant
                self.wf(),
                qs == self.runtime.audio_queue.queues@,
                self.runtime.audio_queue.callback_resume is None,
                self.cpu == old(self).cpu,
                only_handoff_changed(*old(self), *self),
                self.runtime.audio_queue.buffers == old(self).runtime.audio_queue.buffers,
                0 <= k <= p0.len(),
                rs.pending@ == p0.skip(k),
                forall|j: int| 0 <= j < k ==> !inv_live(qs, #[trigger] p0[j]),
                rs.origin_label == rs0.origin_label,
                rs.resume_lr == rs0.resume_lr,
                rs.return_status == rs0.return_status,
                k == 0 ==> rs.current == rs0.current,
                k > 0 ==> rs.current is None,
            decreases rs.pending@.len(),
        {
            let next = rs.pending.remove(0);
            proof {
                assert(next == p0[k]);
                assert(rs.pending@ =~= p0.skip(k + 1));
            }
            rs.current = Some(next);
            let call: Option<(u32, u32, u32, u32)> = match next {
                BackendAudioQueuePendingInvocation::OutputCallback { queue_ptr, buffer_ptr } => {
                    match self.runtime.audio_queue.queues.get(&queue_ptr) {
                        Some(h) => {
                            if h.callback_ptr != 0 {
                                Some((h.callback_ptr, h.user_data_ptr, queue_ptr, buffer_ptr))
                            } else {
                                None
                            }
                        },
                        None => None,
                    }
                },
                BackendAudioQueuePendingInvocation::PropertyListener {
                    queue_ptr,
                    property_id,
                    callback_ptr,
                    user_data_ptr,
                } => {
                    if callback_ptr != 0 {
                        Some((callback_ptr, user_data_ptr, queue_ptr, property_id))
                    } else {
                        None
                    }
                },
            };
            match call {
                Some((callback, a0, a1, a2)) => {
                    proof {
                        assert(inv_live(qs, p0[k]));
                        assert((callback, a0, a1, a2) == inv_call(qs, p0[k]));
                        lemma_first_live(qs, p0, k);
                    }
                    let stub = if (callback & 1) != 0 {
                        HLE_STUB_AUDIOQUEUE_CALLBACK_RETURN_THUMB | 1
                    } else {
                        HLE_STUB_AUDIOQUEUE_CALLBACK_RETURN_ARM
                    };
                    self.cpu.regs.set(0, a0);
                    self.cpu.regs.set(1, a1);
                    self.cpu.regs.set(2, a2);
                    self.cpu.regs.set(3, 0);
                    self.cpu.regs.set(14, stub);
                    self.cpu.regs.set(15, callback & !1u32);
                    self.cpu.thumb = (callback & 1) != 0;
                    self.runtime.audio_queue.callback_resume = Some(rs);
                    proof {
                        assert(self.cpu.regs@ =~= call_regs(old(self).cpu.regs@, callback, a0, a1, a2));
                    }
                    return Ok(());
                },
                None => {
                    proof {
                        assert(!inv_live(qs, p0[k]));
                    }
                    rs.current = None;
                },
            }
            proof {
                k = k + 1;
            }
        }
        proof {
            assert(rs.pending@ =~= Seq::<BackendAudioQueuePendingInvocation>::empty());
            lemma_first_live(qs, p0, k);
        }
        self.runtime.audio_queue.callback_resume = Some(rs);
        Ok(())
    }

    /// Starts handing `pending` to the guest, to resume at `resume_lr` with
    /// `return_status` in `r0` once every callback has returned, and hands
    /// over the first runnable one. Does nothing and reports `false` when
    /// nothing is pending or a hand-off is already in progress.
    pub fn audioqueue_begin_pending_callbacks(
        &mut self,
        origin_label: &str,
        resume_lr: u32,
        return_status: u32,
        pending: Vec<BackendAudioQueuePendingInvocation>,
    ) -> (r: CoreResult<bool>)
        requires
            old(self).wf(),
        ensures
            final(self).wf(),
            only_handoff_changed(*old(self), *final(self)),
            final(self).runtime.audio_queue.buffers == old(self).runtime.audio_queue.buffers,
            r == Ok::<bool, CoreError>(pending@.len() > 0 && old(self).runtime.audio_queue.callback_resume is None),
            !(pending@.len() > 0 && old(self).runtime.audio_queue.callback_resume is None) ==> {
                &&& final(self).runtime.audio_queue.callback_resume == old(self).runtime.audio_queue.callback_resume
                &&& final(self).cpu == old(self).cpu
            },
            pending@.len() > 0 && old(self).runtime.audio_queue.callback_resume is None ==> dispatched(
                old(self).runtime.audio_queue.queues@,
                origin_label@,
                resume_lr,
                return_status,
                None,
                pending@,
                old(self).cpu,
                final(self).runtime.audio_queue.callback_resume,
                final(self).cpu,
            ),
    {
        if pending.len() == 0 {
            return Ok(false);
        }
        if self.runtime.audio_queue.callback_resume.is_some() {
            return Ok(false);
        }
        self.runtime.audio_queue.callback_resume = Some(
            BackendAudioQueueCallbackResumeState {
                origin_label: String::from_str(origin_label),
                resume_lr,
                return_status,
                current: None,
                pending,
            },
        );
        match self.audioqueue_dispatch_next_pending_callback() {
            Ok(()) => {},
            Err(e) => return Err(e),
        }
        Ok(true)
    }

    /// Marks the current callback as returned: an output callback's buffer
    /// is no longer in flight, and nothing is current.
    pub fn audioqueue_complete_current_callback(&mut self)
        requires
            aq_wf(old(self).runtime.audio_queue),
        ensures
            aq_wf(final(self).runtime.audio_queue),
            only_handoff_changed(*old(self), *final(self)),
            final(self).cpu == old(self).cpu,
            final(self).runtime.audio_queue.callback_resume == without_current(
                old(self).runtime.audio_queue.callback_resume,
            ),
            final(self).runtime.audio_queue.buffers@ == completed_buffers(
                old(self).runtime.audio_queue.callback_resume,
                old(self).runtime.audio_queue.buffers@,
            ),
    {
        let current = match &self.runtime.audio_queue.callback_resume {
            Some(rs) => rs.current,
            None => None,
        };
        match current {
            Some(BackendAudioQueuePendingInvocation::OutputCallback { buffer_ptr, .. }) => {
                match self.runtime.audio_queue.buffers.get(&buffer_ptr) {
                    Some(b) => {
                        let mut nb = *b;
                        nb.callback_inflight = false;
                        self.runtime.audio_queue.buffers.insert(buffer_ptr, nb);
                        proof {
                            let m0 = old(self).runtime.audio_queue.buffers@;
                            let m1 = self.runtime.audio_queue.buffers@;
                            assert forall|k: u32| #[trigger] m1.contains_key(k) implies buffer_entry_wf(k, m1[k]) by {
                                if k != buffer_ptr {
                                    assert(m0.contains_key(k));
                                }
                            }
                        }
                    },
                    None => {},
                }
            },
            _ => {},
        }
        match self.runtime.audio_queue.callback_resume.take() {
            Some(mut rs) => {
                rs.current = None;
                self.runtime.audio_queue.callback_resume = Some(rs);
            },
            None => {},
        }
    }

    /// After a callback returned: marks it complete, then hands over the next
    /// pending one; when none is pending, ends the hand-off and resumes the
    /// guest at the recorded return address (Thumb state from its bit 0)
    /// with the recorded status in `r0`.
    pub fn audioqueue_resume_after_callback_return(&mut self) -> (r: CoreResult<()>)
        requires
            old(self).wf(),
            aq_wf(old(self).runtime.audio_queue),
        ensures
            r is Ok,
            final(self).wf(),
            aq_wf(final(self).runtime.audio_queue),
            only_handoff_changed(*old(self), *final(self)),
            final(self).runtime.audio_queue.buffers@ == completed_buffers(
                old(self).runtime.audio_queue.callback_resume,
                old(self).runtime.audio_queue.buffers@,
            ),
            match old(self).runtime.audio_queue.callback_resume {
                None => final(self).runtime.audio_queue.callback_resume is None && final(self).cpu == old(self).cpu,
                Some(rs) => if rs.pending@.len() > 0 {
                    dispatched(
                        old(self).runtime.audio_queue.queues@,
                        rs.origin_label@,
                        rs.resume_lr,
                        rs.return_status,
                        None,
                        rs.pending@,
                        old(self).cpu,
                        final(self).runtime.audio_queue.callback_resume,
                        final(self).cpu,
                    )
                } else {
                    &&& final(self).runtime.audio_queue.callback_resume is None
                    &&& final(self).cpu.regs@ == old(self).cpu.regs@.update(0, rs.return_status).update(
                        15,
                        rs.resume_lr & !1u32,
                    )
                    &&& final(self).cpu.thumb == ((rs.resume_lr & 1) != 0)
                    &&& final(self).cpu.flags == old(self).cpu.flags
                },
            },
    {
        self.audioqueue_complete_current_callback();
        let should_continue = match &self.runtime.audio_queue.callback_resume {
            Some(rs) => rs.pending.len() > 0,
            None => false,
        };
        if should_continue {
            match self.audioqueue_dispatch_next_pending_callback() {
                Ok(()) => {},
                Err(e) => return Err(e),
            }
            return Ok(());
        }
        let rs = match self.runtime.audio_queue.callback_resume.take() {
            Some(rs) => rs,
            None => return Ok(()),
        };
        self.cpu.regs.set(0, rs.return_status);
        self.cpu.regs.set(15, rs.resume_lr & !1u32);
        self.cpu.thumb = (rs.resume_lr & 1) != 0;
        Ok(())
    }

    /// The callbacks a state change of queue `queue_ptr` triggers: with
    /// `request_output_callbacks` and a queue callback set, an output
    /// callback for each idle allocated buffer (which is marked in flight);
    /// then, with `notify_listeners`, one per listener that has a callback.
    /// None for an unknown queue.
    pub fn audioqueue_collect_state_change_callbacks(
        &mut self,
        queue_ptr: u32,
        notify_listeners: bool,
        request_output_callbacks: bool,
    ) -> (pending: Vec<BackendAudioQueuePendingInvocation>)
        requires
            aq_wf(old(self).runtime.audio_queue),
        ensures
            aq_wf(final(self).runtime.audio_queue),
            only_handoff_changed(*old(self), *final(self)),
            final(self).cpu == old(self).cpu,
            final(self).runtime.audio_queue.callback_resume == old(self).runtime.audio_queue.callback_resume,
            ({
                let q0 = old(self).runtime.audio_queue;
                let q1 = final(self).runtime.audio_queue;
                if !q0.queues@.contains_key(queue_ptr) {
                    pending@.len() == 0 && q1.buffers@ == q0.buffers@
                } else {
                    let h = q0.queues@[queue_ptr];
                    let outs = collect_outputs(queue_ptr, h.allocated_buffers@, q0.buffers@);
                    let wants = request_output_callbacks && h.callback_ptr != 0;
                    &&& pending@ == (if wants {
                        outs.0
                    } else {
                        Seq::empty()
                    }) + (if notify_listeners {
                        listener_invs(queue_ptr, h.property_listeners@)
                    } else {
                        Seq::empty()
                    })
                    &&& q1.buffers@ == if wants {
                        outs.1
                    } else {
                        q0.buffers@
                    }
                }
            }),
    {
        let mut pending: Vec<BackendAudioQueuePendingInvocation> = Vec::new();
        let (callback_ptr, allocated, listeners) = match self.runtime.audio_queue.queues.get(&queue_ptr) {
            Some(h) => (h.callback_ptr, h.allocated_buffers.clone(), h.property_listeners.clone()),
            None => return pending,
        };
        proof {
            assert(allocated@ =~= old(self).runtime.audio_queue.queues@[queue_ptr].allocated_buffers@);
            assert(listeners@ =~= old(self).runtime.audio_queue.queues@[queue_ptr].property_listeners@);
        }
        if request_output_callbacks && callback_ptr != 0 {
            let mut i: usize = 0;
            while i < allocated.len()
                invariant
                    i <= allocated@.len(),
                    aq_wf(self.runtime.audio_queue),
                    only_handoff_changed(*old(self), *self),
                    self.cpu == old(self).cpu,
                    self.runtime.audio_queue.callback_resume == old(self).runtime.audio_queue.callback_resume,
                    (pending@, self.runtime.audio_queue.buffers@) == collect_outputs(
                        queue_ptr,
                        allocated@.take(i as int),
                        old(self).runtime.audio_queue.buffers@,
                    ),
                decreases allocated@.len() - i,
            {
                let buffer_ptr = allocated[i];
                proof {
                    assert(allocated@.take(i + 1).drop_last() =~= allocated@.take(i as int));
                    assert(allocated@.take(i + 1).last() == buffer_ptr);
                }
                match self.runtime.audio_queue.buffers.get(&buffer_ptr) {
                    Some(b) => {
                        if !b.freed && !b.enqueued && !b.callback_inflight {
                            let mut nb = *b;
                            nb.callback_inflight = true;
                            self.runtime.audio_queue.buffers.insert(buffer_ptr, nb);
                            pending.push(BackendAudioQueuePendingInvocation::OutputCallback { queue_ptr, buffer_ptr });
                            proof {
                                let m1 = self.runtime.audio_queue.buffers@;
                                assert forall|k: u32| #[trigger] m1.contains_key(k) implies buffer_entry_wf(k, m1[k]) by {
                                    if k != buffer_ptr {
                                        assert(old(self).runtime.audio_queue.buffers@.contains_key(k) || true);
                                    }
                                }
                            }
                        }
                    },
                    None => {},
                }
                i = i + 1;
            }
            assert(allocated@.take(allocated@.len() as int) =~= allocated@);
        }
        let ghost outs = pending@;
        let mut j: usize = 0;
        if notify_listeners {
            while j < listeners.len()
                invariant
                    j <= listeners@.len(),
                    pending@ == outs + listener_invs(queue_ptr, listeners@.take(j as int)),
                decreases listeners@.len() - j,
            {
                let l = listeners[j];
                proof {
                    assert(listeners@.take(j + 1).drop_last() =~= listeners@.take(j as int));
                    assert(listeners@.take(j + 1).last() == l);
                }
                if l.callback_ptr != 0 {
                    pending.push(
                        BackendAudioQueuePendingInvocation::PropertyListener {
                            queue_ptr,
                            property_id: l.property_id,
                            callback_ptr: l.callback_ptr,
                            user_data_ptr: l.user_data_ptr,
                        },
                    );
                }
                proof {
                    assert(pending@ =~= outs + listener_invs(queue_ptr, listeners@.take(j + 1)));
                }
                j = j + 1;
            }
            assert(listeners@.take(listeners@.len() as int) =~= listeners@);
        } else {
            assert(pending@ =~= outs + Seq::<BackendAudioQueuePendingInvocation>::empty());
        }
        pending
    }
    /// Frees the packet descriptions block of buffer `buffer_ptr`, if it
    /// has one, and forgets it.
    pub fn audioqueue_free_packet_descs(&mut self, buffer_ptr: u32)
        requires
            old(self).wf(),
            old(self).runtime.heap.heap_wf(),
            aq_wf(old(self).runtime.audio_queue),
        ensures
            final(self).wf(),
            final(self).runtime.heap.heap_wf(),
            aq_wf(final(self).runtime.audio_queue),
            aq_alloc_frame(*old(self), *final(self)),
            final(self).diag.object_labels == old(self).diag.object_labels,
            ({
                let q0 = old(self).runtime.audio_queue;
                let q1 = final(self).runtime.audio_queue;
                &&& q1.queues == q0.queues
                &&& q1.callback_resume == q0.callback_resume
                &&& q1.next_queue_serial == q0.next_queue_serial
                &&& q1.next_buffer_serial == q0.next_buffer_serial
                &&& if q0.buffers@.contains_key(buffer_ptr) {
                    &&& descs_dropped(
                        old(self).runtime.heap,
                        old(self).mem(),
                        old(self).diag.writes@,
                        q0.buffers@[buffer_ptr],
                        final(self).runtime.heap,
                        final(self).mem(),
                        final(self).diag.writes@,
                    )
                    &&& q1.buffers@ == q0.buffers@.insert(buffer_ptr, descs_cleared(q0.buffers@[buffer_ptr]))
                } else {
                    &&& final(self).runtime.heap == old(self).runtime.heap
                    &&& final(self).mem() == old(self).mem()
                    &&& final(self).diag.writes == old(self).diag.writes
                    &&& q1.buffers == q0.buffers
                }
            }),
    {
        let mut b = match self.runtime.audio_queue.buffers.get(&buffer_ptr) {
            Some(b) => *b,
            None => {
                return;
            },
        };
        if b.packet_descs_ptr != 0 {
            let freed = self.free_synthetic_heap_block(b.packet_descs_ptr);
            proof {
                lemma_free_step(*old(self), *self, b.packet_descs_ptr, freed);
            }
            b.packet_descs_ptr = 0;
            b.packet_desc_capacity = 0;
            b.packet_desc_count = 0;
            self.runtime.audio_queue.buffers.insert(buffer_ptr, b);
            proof {
                let m0 = old(self).runtime.audio_queue.buffers@;
                let m1 = self.runtime.audio_queue.buffers@;
                assert forall|k: u32| #[trigger] m1.contains_key(k) implies buffer_entry_wf(k, m1[k]) by {
                    if k != buffer_ptr {
                        assert(m0.contains_key(k));
                    }
                }
            }
        } else {
            assert(old(self).runtime.audio_queue.buffers@.insert(buffer_ptr, b) =~= old(
                self,
            ).runtime.audio_queue.buffers@);
        }
    }

    /// Frees buffer `buffer_ptr` of queue `queue_ptr`: its packet
    /// descriptions, data block and structure are freed, their labels
    /// dropped, and the buffer is forgotten and taken off the queue's lists.
    /// Fails, changing nothing, for an unknown or already freed buffer or
    /// one of another queue.
    #[verifier::spinoff_prover]
    #[verifier::rlimit(40)]
    pub fn audioqueue_free_buffer(&mut self, queue_ptr: u32, buffer_ptr: u32) -> (ok: bool)
        requires
            old(self).wf(),
            old(self).runtime.heap.heap_wf(),
            aq_wf(old(self).runtime.audio_queue),
        ensures
            final(self).wf(),
            final(self).runtime.heap.heap_wf(),
            aq_wf(final(self).runtime.audio_queue),
            aq_alloc_frame(*old(self), *final(self)),
            ({
                let q0 = old(self).runtime.audio_queue;
                let bufs = q0.buffers@;
                ok == (bufs.contains_key(buffer_ptr) && bufs[buffer_ptr].queue_ptr == queue_ptr
                    && !bufs[buffer_ptr].freed)
            }),
            !ok ==> {
                &&& final(self).runtime == old(self).runtime
                &&& final(self).mem() == old(self).mem()
                &&& final(self).diag == old(self).diag
            },
            ok ==> {
                let q0 = old(self).runtime.audio_queue;
                let q1 = final(self).runtime.audio_queue;
                let b = q0.buffers@[buffer_ptr];
                let h0 = old(self).runtime.heap;
                let m0 = old(self).mem();
                let l0 = old(self).diag.writes@;
                &&& exists|
                    h1: SyntheticHeapState,
                    m1: Seq<RegionView>,
                    l1: Seq<(u32, usize)>,
                    h2: SyntheticHeapState,
                    m2: Seq<RegionView>,
                    l2: Seq<(u32, usize)>,
                |
                    #![trigger descs_dropped(h0, m0, l0, b, h1, m1, l1), free_step(h1, m1, l1, h2, m2, l2, b.audio_data_ptr)]
                    descs_dropped(h0, m0, l0, b, h1, m1, l1) && free_step(h1, m1, l1, h2, m2, l2, b.audio_data_ptr)
                        && free_step(
                        h2,
                        m2,
                        l2,
                        final(self).runtime.heap,
                        final(self).mem(),
                        final(self).diag.writes@,
                        buffer_ptr,
                    )
                &&& labels_view(final(self).diag.object_labels@) == labels_view(old(self).diag.object_labels@).remove(
                    b.audio_data_ptr,
                ).remove(buffer_ptr)
                &&& q1.buffers@ == q0.buffers@.remove(buffer_ptr)
                &&& q1.callback_resume == q0.callback_resume
                &&& q1.next_queue_serial == q0.next_queue_serial
                &&& q1.next_buffer_serial == q0.next_buffer_serial
                &&& if q0.queues@.contains_key(queue_ptr) {
                    let hq0 = q0.queues@[queue_ptr];
                    let hq1 = q1.queues@[queue_ptr];
                    &&& q1.queues@ == q0.queues@.insert(queue_ptr, hq1)
                    &&& handle_lists_changed(hq0, hq1)
                    &&& hq1.allocated_buffers@ == without(hq0.allocated_buffers@, buffer_ptr)
                    &&& hq1.queued_buffers@ == without(hq0.queued_buffers@, buffer_ptr)
                } else {
                    q1.queues == q0.queues
                }
            },
    {
        let b = match self.runtime.audio_queue.buffers.get(&buffer_ptr) {
            Some(b) => *b,
            None => return false,
        };
        if b.queue_ptr != queue_ptr || b.freed {
            return false;
        }
        self.audioqueue_free_packet_descs(buffer_ptr);
        let ghost h1 = self.runtime.heap;
        let ghost m1 = self.mem();
        let ghost l1 = self.diag.writes@;
        let ghost s1 = *self;
        let f1 = self.free_synthetic_heap_block(b.audio_data_ptr);
        proof {
            lemma_free_step(s1, *self, b.audio_data_ptr, f1);
        }
        let ghost h2 = self.runtime.heap;
        let ghost m2 = self.mem();
        let ghost l2 = self.diag.writes@;
        let ghost s2 = *self;
        let f2 = self.free_synthetic_heap_block(buffer_ptr);
        proof {
            lemma_free_step(s2, *self, buffer_ptr, f2);
            assert(descs_dropped(
                old(self).runtime.heap,
                old(self).mem(),
                old(self).diag.writes@,
                b,
                h1,
                m1,
                l1,
            ));
            assert(free_step(h1, m1, l1, h2, m2, l2, b.audio_data_ptr));
        }
        let ghost lab0 = self.diag.object_labels@;
        proof {
            lemma_labels_view_remove(lab0, b.audio_data_ptr);
            lemma_labels_view_remove(lab0.remove(b.audio_data_ptr), buffer_ptr);
        }
        self.diag.object_labels.remove(&b.audio_data_ptr);
        self.diag.object_labels.remove(&buffer_ptr);
        if self.runtime.audio_queue.queues.contains_key(&queue_ptr) {
            let mut h = match self.runtime.audio_queue.queues.remove(&queue_ptr) {
                Some(h) => h,
                None => return true,
            };
            let ghost hq0 = h;
            let allocated = vec_without(&h.allocated_buffers, buffer_ptr);
            let queued = vec_without(&h.queued_buffers, buffer_ptr);
            h.allocated_buffers = allocated;
            h.queued_buffers = queued;
            proof {
                lemma_without(hq0.queued_buffers@, buffer_ptr);
                assert(handle_wf(hq0));
            }
            self.runtime.audio_queue.queues.insert(queue_ptr, h);
            proof {
                let qm0 = old(self).runtime.audio_queue.queues@;
                let qm1 = self.runtime.audio_queue.queues@;
                assert(qm1 =~= qm0.insert(queue_ptr, qm1[queue_ptr]));
                assert forall|k: u32| #[trigger] qm1.contains_key(k) implies handle_wf(qm1[k]) by {
                    if k != queue_ptr {
                        assert(qm0.contains_key(k));
                    }
                }
            }
        }
        self.runtime.audio_queue.buffers.remove(&buffer_ptr);
        proof {
            let bm0 = old(self).runtime.audio_queue.buffers@;
            let bm1 = self.runtime.audio_queue.buffers@;
            assert(bm1 =~= bm0.remove(buffer_ptr));
            assert forall|k: u32| #[trigger] bm1.contains_key(k) implies buffer_entry_wf(k, bm1[k]) by {
                assert(bm0.contains_key(k));
            }
        }
        true
    }
    /// Queues buffer `buffer_ptr` on queue `queue_ptr` with `packet_desc_count`
    /// packet descriptions at `packet_descs_ptr`, after taking in what the
    /// guest wrote into the buffer structure, and returns the byte size
    /// queued and the buffer's capacity (see `enqueue_after_drop`). Fails for
    /// an unknown queue or buffer, or a buffer of another queue or already
    /// freed.
    #[verifier::spinoff_prover]
    #[verifier::rlimit(60)]
    pub fn audioqueue_enqueue_buffer(
        &mut self,
        queue_ptr: u32,
        buffer_ptr: u32,
        packet_desc_count: u32,
        packet_descs_ptr: u32,
    ) -> (r: CoreResult<(u32, u32)>)
        requires
            old(self).wf(),
            old(self).runtime.heap.heap_wf(),
            aq_wf(old(self).runtime.audio_queue),
        ensures
            final(self).wf(),
            final(self).runtime.heap.heap_wf(),
            aq_wf(final(self).runtime.audio_queue),
            aq_alloc_frame(*old(self), *final(self)),
            final(self).diag.object_labels == old(self).diag.object_labels,
            enqueue_effect(*old(self), *final(self), queue_ptr, buffer_ptr, packet_desc_count, packet_descs_ptr, r),
    {
        if !self.runtime.audio_queue.queues.contains_key(&queue_ptr) {
            let mut msg = String::new();
            msg.append("AudioQueue ");
            let d = self.describe_ptr(queue_ptr);
            msg.append(d.as_str());
            msg.append(" does not exist");
            return Err(CoreError::Backend(msg));
        }
        let _ = self.audioqueue_sync_buffer_from_guest(buffer_ptr);
        let b = match self.runtime.audio_queue.buffers.get(&buffer_ptr) {
            Some(b) => *b,
            None => {
                let mut msg = String::new();
                msg.append("AudioQueueBuffer ");
                let d = self.describe_ptr(buffer_ptr);
                msg.append(d.as_str());
                msg.append(" does not exist");
                return Err(CoreError::Backend(msg));
            },
        };
        if b.queue_ptr != queue_ptr || b.freed {
            let mut msg = String::new();
            msg.append("AudioQueueBuffer ");
            let d = self.describe_ptr(buffer_ptr);
            msg.append(d.as_str());
            msg.append(" does not belong to ");
            let dq = self.describe_ptr(queue_ptr);
            msg.append(dq.as_str());
            return Err(CoreError::Backend(msg));
        }
        let cap = b.audio_data_capacity;
        let size = if b.last_byte_size < cap {
            b.last_byte_size
        } else {
            cap
        };
        self.audioqueue_free_packet_descs(buffer_ptr);
        let ghost h1 = self.runtime.heap;
        let ghost m1 = self.mem();
        let ghost l1 = self.diag.writes@;
        let ghost bufs1 = if old(self).runtime.audio_queue.buffers@.contains_key(buffer_ptr) {
            old(self).runtime.audio_queue.buffers@.insert(
                buffer_ptr,
                synced_from_guest(old(self).runtime.audio_queue.buffers@[buffer_ptr], old(self).mem(), buffer_ptr),
            )
        } else {
            old(self).runtime.audio_queue.buffers@
        };
        proof {
            assert(descs_dropped(
                old(self).runtime.heap,
                old(self).mem(),
                old(self).diag.writes@,
                bufs1[buffer_ptr],
                h1,
                m1,
                l1,
            ));
        }
        let mut nb = match self.runtime.audio_queue.buffers.get(&buffer_ptr) {
            Some(x) => *x,
            None => return Err(CoreError::Backend(String::from_str("AudioQueueBuffer vanished"))),
        };
        if packet_desc_count != 0 && packet_descs_ptr != 0 {
            let n = match packet_desc_count.checked_mul(AUDIOQUEUE_PACKET_DESC_SIZE) {
                Some(v) => v,
                None => u32::MAX,
            };
            assert(n == desc_bytes(packet_desc_count));
            let payload = match self.read_guest_bytes(packet_descs_ptr, n) {
                Ok(p) => p,
                Err(e) => {
                    proof {
                        lemma_enqueue_effect_intro(
                            *old(self),
                            *self,
                            queue_ptr,
                            buffer_ptr,
                            packet_desc_count,
                            packet_descs_ptr,
                            Err(e),
                            h1,
                            m1,
                            l1,
                        );
                    }
                    return Err(e);
                },
            };
            let copy = match self.alloc_synthetic_heap_block(n, true, String::from_str("audioqueue.packet_descs")) {
                Ok(p) => p,
                Err(e) => {
                    proof {
                        lemma_enqueue_effect_intro(
                            *old(self),
                            *self,
                            queue_ptr,
                            buffer_ptr,
                            packet_desc_count,
                            packet_descs_ptr,
                            Err(e),
                            h1,
                            m1,
                            l1,
                        );
                    }
                    return Err(e);
                },
            };
            let ghost res = (self.runtime.heap.synthetic_heap_cursor - copy) as u32;
            proof {
                lemma_write_keeps_mapped(m1, copy, fill_seq(res as nat, 0), copy, res);
                lemma_subspan_mapped(self.mem(), copy, res, copy, n);
                assert(reserve_outcome(h1.synthetic_heap_cursor, h1.synthetic_heap_end, m1, n) == Ok::<
                    (u32, u32),
                    Seq<char>,
                >((copy, res)));
                assert(heap_after_alloc(h1, self.runtime.heap, copy, n, res, "audioqueue.packet_descs"@));
                assert(self.mem() == alloc_fill(m1, copy, n, res, true));
            }
            match self.write_bytes(copy, payload.as_slice()) {
                Ok(()) => {},
                Err(e) => return Err(e),
            }
            proof {
                assert(self.mem() == write_span(alloc_fill(m1, copy, n, res, true), copy, span_bytes(m1, packet_descs_ptr, n)));
                assert(self.diag.writes@ == l1.push((copy, res as usize)).push((copy, n as usize)));
            }
            nb.packet_descs_ptr = copy;
            nb.packet_desc_capacity = packet_desc_count;
            nb.packet_desc_count = packet_desc_count;
        }
        let ghost mw = self.mem();
        let ghost lw = self.diag.writes@;
        let ghost hw = self.runtime.heap;
        nb.enqueued = true;
        nb.callback_inflight = false;
        nb.last_byte_size = if size < cap {
            size
        } else {
            cap
        };
        self.runtime.audio_queue.buffers.insert(buffer_ptr, nb);
        let mut h = match self.runtime.audio_queue.queues.remove(&queue_ptr) {
            Some(h) => h,
            None => return Err(CoreError::Backend(String::from_str("AudioQueue vanished"))),
        };
        let ghost hq0 = h;
        if !vec_has(&h.queued_buffers, buffer_ptr) {
            h.queued_buffers.push(buffer_ptr);
        }
        proof {
            assert(handle_wf(hq0));
            if !hq0.queued_buffers@.contains(buffer_ptr) {
                assert forall|i: int, j: int|
                    0 <= i < h.queued_buffers@.len() && 0 <= j < h.queued_buffers@.len() && i != j implies h.queued_buffers@[i]
                    != h.queued_buffers@[j] by {
                    if i < hq0.queued_buffers@.len() && j < hq0.queued_buffers@.len() {
                    } else if i < hq0.queued_buffers@.len() {
                        assert(hq0.queued_buffers@.contains(h.queued_buffers@[i]));
                    } else {
                        assert(hq0.queued_buffers@.contains(h.queued_buffers@[j]));
                    }
                }
            }
        }
        self.runtime.audio_queue.queues.insert(queue_ptr, h);
        proof {
            let qm0 = old(self).runtime.audio_queue.queues@;
            let qm1 = self.runtime.audio_queue.queues@;
            assert(qm1 =~= qm0.insert(queue_ptr, qm1[queue_ptr]));
            assert forall|k: u32| #[trigger] qm1.contains_key(k) implies handle_wf(qm1[k]) by {
                if k != queue_ptr {
                    assert(qm0.contains_key(k));
                }
            }
            let bm1 = self.runtime.audio_queue.buffers@;
            assert forall|k: u32| #[trigger] bm1.contains_key(k) implies buffer_entry_wf(k, bm1[k]) by {
                if k != buffer_ptr {
                    assert(old(self).runtime.audio_queue.buffers@.contains_key(k));
                }
            }
            assert(descs_dropped(
                old(self).runtime.heap,
                old(self).mem(),
                old(self).diag.writes@,
                bufs1[buffer_ptr],
                h1,
                m1,
                l1,
            ));
        }
        proof {
            let b1 = bufs1[buffer_ptr];
            assert(nb.buffer_ptr == buffer_ptr);
            assert(self.mem() == mw);
            assert(self.runtime.audio_queue.buffers@ == bufs1.insert(buffer_ptr, nb));
            assert(nb.last_byte_size == min_u32(b1.last_byte_size, b1.audio_data_capacity));
            assert(self.runtime.audio_queue.buffers@[buffer_ptr] == nb);
        }
        let written = self.audioqueue_write_buffer_guest_struct(buffer_ptr);
        let r: CoreResult<(u32, u32)> = match written {
            Ok(()) => Ok((nb.last_byte_size, cap)),
            Err(e) => Err(e),
        };
        proof {
            lemma_enqueue_effect_intro(
                *old(self),
                *self,
                queue_ptr,
                buffer_ptr,
                packet_desc_count,
                packet_descs_ptr,
                r,
                h1,
                m1,
                l1,
            );
        }
        r
    }
}

} // verus!
