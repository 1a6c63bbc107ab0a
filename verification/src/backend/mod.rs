//! The memory-backed ARM32 execution backend: guest address space, register
//! file, synthetic heap, Objective-C selector pool, synthetic network
//! transport and OpenAL bookkeeping.
use vstd::prelude::*;
use std::collections::HashMap;
use crate::memory::sat_add_u32;
use crate::profiles::TitleProfile;
use self::audioqueue::BackendAudioQueueState;
use self::nodes::BackendGraphicsState;
use self::textures::BackendTextureState;
use self::foundation::FoundationBackingState;


pub mod atlas;
pub mod attach;
pub mod audioqueue;
pub mod construct;
pub mod counters;
pub mod font;
pub mod foundation;
pub mod guest_access;
pub mod guest_graph;
pub mod guest_strings;
pub mod heap;
pub mod multiplex;
pub mod network;
pub mod nodes;
pub mod node_walk;
pub mod node_textures;
pub mod network_runloop;
pub mod openal;
pub mod pixels;
pub mod registers;
pub mod report;
pub mod sprite_region;
pub mod textures;
pub mod variants;

verus! {

/// Which execution strategy a backend follows.
#[derive(Debug, Clone, Copy, PartialEq, Eq)]
pub enum BackendPolicy {
    ProbeOnly,
    SyntheticRuntime,
    HybridExecution,
}

impl BackendPolicy {
    /// The policy's name as reported in execution summaries.
    pub fn label(&self) -> (s: &'static str)
        ensures
            s@ == spec_policy_label(*self),
    {
        match self {
            BackendPolicy::ProbeOnly => "probe-only",
            BackendPolicy::SyntheticRuntime => "synthetic-runtime",
            BackendPolicy::HybridExecution => "hybrid-execution",
        }
    }
}

/// The name of a backend policy in execution summaries.
pub open spec fn spec_policy_label(p: BackendPolicy) -> Seq<char> {
    match p {
        BackendPolicy::ProbeOnly => "probe-only"@,
        BackendPolicy::SyntheticRuntime => "synthetic-runtime"@,
        BackendPolicy::HybridExecution => "hybrid-execution"@,
    }
}

/// What a backend reports after a run.
#[derive(Debug, Clone)]
pub struct BackendSnapshot {
    pub backend: String,
    pub status: String,
    pub stop_reason: String,
    pub first_instruction_addr: Option<u32>,
    pub first_instruction: Option<u32>,
    pub first_instruction_text: Option<String>,
    pub entry_bytes_present: bool,
    pub executed_instructions: u64,
    pub final_pc: Option<u32>,
    pub final_sp: Option<u32>,
    pub final_lr: Option<u32>,
    pub trace: Vec<String>,
}

/// A mapped guest region together with its bytes.
#[derive(Debug, Clone)]
pub struct BackendRegion {
    pub addr: u32,
    pub size: u32,
    pub prot: u32,
    pub data: Vec<u8>,
}

/// The abstract content of a mapped region.
pub struct RegionView {
    pub addr: u32,
    pub size: u32,
    pub prot: u32,
    pub bytes: Seq<u8>,
}

impl BackendRegion {
    /// The abstract content of the region.
    pub open spec fn view(&self) -> RegionView {
        RegionView { addr: self.addr, size: self.size, prot: self.prot, bytes: self.data@ }
    }

    /// One past the region's last address, saturated at `u32::MAX`.
    pub fn end(&self) -> (r: u32)
        ensures
            r == sat_add_u32(self.addr, self.size),
    {
        self.addr.saturating_add(self.size)
    }

    /// Whether `[addr, addr + size)` lies inside the region (and does not
    /// wrap around the address space).
    pub fn contains_range(&self, addr: u32, size: u32) -> (b: bool)
        ensures
            b == view_contains(self.view(), addr, size),
    {
        let end = match addr.checked_add(size) {
            Some(e) => e,
            None => return false,
        };
        addr >= self.addr && end <= self.end()
    }
}

/// `[addr, addr + size)` lies inside region `r`.
pub open spec fn view_contains(r: RegionView, addr: u32, size: u32) -> bool {
    addr + size <= u32::MAX && addr >= r.addr && addr + size <= sat_add_u32(r.addr, r.size)
}

/// A region's bytes match its size.
pub open spec fn view_wf(r: RegionView) -> bool {
    r.bytes.len() == r.size
}

/// Regions are well formed and pairwise disjoint.
pub open spec fn views_wf(s: Seq<RegionView>) -> bool {
    &&& forall|i: int| 0 <= i < s.len() ==> view_wf(#[trigger] s[i])
    &&& forall|i: int, j: int|
        0 <= i < s.len() && 0 <= j < s.len() && i != j ==> #[trigger] s[i].addr + s[i].size <= #[trigger] s[j].addr
            || s[j].addr + s[j].size <= s[i].addr
}

/// Some region contains `[addr, addr + size)`.
pub open spec fn span_mapped(s: Seq<RegionView>, addr: u32, size: u32) -> bool {
    exists|i: int| 0 <= i < s.len() && view_contains(#[trigger] s[i], addr, size)
}

/// The region that contains `[addr, addr + size)` (meaningful only when the
/// span is mapped).
pub open spec fn span_region(s: Seq<RegionView>, addr: u32, size: u32) -> RegionView {
    s[choose|i: int| 0 <= i < s.len() && view_contains(#[trigger] s[i], addr, size)]
}

/// The bytes of the mapped span `[addr, addr + size)`.
pub open spec fn span_bytes(s: Seq<RegionView>, addr: u32, size: u32) -> Seq<u8> {
    let r = span_region(s, addr, size);
    r.bytes.subrange(addr - r.addr, addr - r.addr + size)
}

/// `bytes` written over `r` starting at guest address `addr`.
pub open spec fn splice_region(r: RegionView, addr: u32, bytes: Seq<u8>) -> RegionView {
    let off = addr - r.addr;
    RegionView {
        bytes: r.bytes.subrange(0, off) + bytes + r.bytes.subrange(off + bytes.len(), r.bytes.len() as int),
        ..r
    }
}

/// The address space after writing `bytes` at `addr` into the region that
/// contains the span.
pub open spec fn write_span(s: Seq<RegionView>, addr: u32, bytes: Seq<u8>) -> Seq<RegionView> {
    Seq::new(
        s.len(),
        |j: int|
            if view_contains(s[j], addr, bytes.len() as u32) {
                splice_region(s[j], addr, bytes)
            } else {
                s[j]
            },
    )
}

/// ARM condition flags.
#[derive(Debug, Clone, Copy)]
pub struct ArmFlags {
    pub n: bool,
    pub z: bool,
    pub c: bool,
    pub v: bool,
}

/// The integer register file.
#[derive(Debug, Clone)]
pub struct BackendCpuState {
    pub regs: Vec<u32>,
    pub thumb: bool,
    pub flags: ArmFlags,
}

/// Execution bookkeeping: the instruction being executed and the VFP bank.
#[derive(Debug, Clone)]
pub struct CpuExecutionState {
    pub current_exec_pc: u32,
    pub current_exec_word: u32,
    pub current_exec_thumb: bool,
    pub vfp_d_regs: Vec<u64>,
}

/// Mapped regions and the trampoline page.
#[derive(Debug, Clone)]
pub struct BackendAddressSpaceState {
    pub mapped: Vec<BackendRegion>,
    pub trampoline_addr: u32,
    pub trampoline_size: u32,
}

/// Write log and labels attached to guest addresses.
#[derive(Debug, Clone)]
pub struct BackendDiagnosticsState {
    pub writes: Vec<(u32, usize)>,
    pub symbol_labels: HashMap<u32, String>,
    pub object_labels: HashMap<u32, String>,
}

/// One block of the synthetic guest heap.
#[derive(Debug, Clone)]
pub struct SyntheticHeapAllocation {
    pub ptr: u32,
    pub size: u32,
    pub reserved_size: u32,
    pub freed: bool,
    pub tag: String,
}

/// The bump allocator that serves guest `malloc` and friends.
#[derive(Debug, Clone)]
pub struct SyntheticHeapState {
    pub synthetic_heap_cursor: u32,
    pub synthetic_heap_end: u32,
    /// Every block handed out so far, freed ones included, in allocation
    /// order (which is also address order).
    pub synthetic_heap_allocations: Vec<SyntheticHeapAllocation>,
    pub synthetic_heap_allocations_total: u32,
    pub synthetic_heap_frees: u32,
    pub synthetic_heap_reallocs: u32,
    pub synthetic_heap_bytes_active: u32,
    pub synthetic_heap_bytes_peak: u32,
    pub synthetic_heap_last_alloc_ptr: Option<u32>,
    pub synthetic_heap_last_alloc_size: Option<u32>,
    pub synthetic_heap_last_freed_ptr: Option<u32>,
    pub synthetic_heap_last_realloc_old_ptr: Option<u32>,
    pub synthetic_heap_last_realloc_new_ptr: Option<u32>,
    pub synthetic_heap_last_realloc_size: Option<u32>,
    pub synthetic_heap_last_error: Option<String>,
}

/// A section of the Objective-C metadata.
#[derive(Debug, Clone, Copy)]
pub struct ObjcSectionRange {
    pub addr: u32,
    pub size: u32,
}

impl ObjcSectionRange {
    /// Whether `addr` falls inside the section (end saturated at `u32::MAX`).
    pub fn contains(&self, addr: u32) -> (b: bool)
        ensures
            b == (addr >= self.addr && addr < sat_add_u32(self.addr, self.size)),
    {
        let end = self.addr.saturating_add(self.size);
        addr >= self.addr && addr < end
    }
}

/// A name and how often it was seen.
#[derive(Debug, Clone)]
pub struct RuntimeCountEntry {
    pub name: String,
    pub count: u32,
}

/// Objective-C runtime state: the interned selector strings and dispatch counters.
#[derive(Debug, Clone)]
pub struct ObjcState {
    pub selector_pool_cursor: u32,
    pub selector_pool_end: u32,
    pub selector_string_pool: Vec<(String, u32)>,
    pub objc_section_cfstring: Option<ObjcSectionRange>,
    pub objc_msgsend_calls: u32,
    pub objc_selector_counts: Vec<RuntimeCountEntry>,
    pub recent_objc_selectors: Vec<String>,
}

/// The synthetic network connection, its streams and its fault probes.
#[derive(Debug, Clone, Copy)]
pub struct NetworkState {
    pub network_armed: bool,
    pub network_stage: u32,
    pub network_completed: bool,
    pub network_cancelled: bool,
    pub network_faulted: bool,
    pub network_fault_mode: u32,
    pub network_timeout_armed: bool,
    pub network_bytes_delivered: u32,
    pub network_response_retained: bool,
    pub network_data_retained: bool,
    pub network_error_retained: bool,
    pub network_source_closed: bool,
    pub network_events: u32,
    pub network_fault_events: u32,
    pub delegate_callbacks: u32,
    pub network_delegate: u32,
    pub network_url: u32,
    pub network_request: u32,
    pub network_connection: u32,
    pub network_response: u32,
    pub network_data: u32,
    pub proxy_settings: u32,
    pub fault_connection: u32,
    pub network_error: u32,
    pub reachability: u32,
    pub reachability_flags: u32,
    pub reachability_scheduled: bool,
    pub reachability_callback_set: bool,
    pub read_stream: u32,
    pub read_stream_open: bool,
    pub read_stream_scheduled: bool,
    pub read_stream_status: u32,
    pub read_stream_bytes_consumed: u32,
    pub read_stream_events: u32,
    pub write_stream: u32,
    pub write_stream_open: bool,
    pub write_stream_scheduled: bool,
    pub write_stream_status: u32,
    pub write_stream_bytes_written: u32,
    pub write_stream_events: u32,
}

/// The well-known UIKit singletons the runtime hands to the guest.
#[derive(Debug, Clone, Copy)]
pub struct UIKitObjectState {
    pub app: u32,
    pub delegate: u32,
    pub window: u32,
    pub root_controller: u32,
    pub screen: u32,
    pub main_runloop: u32,
    pub default_mode: u32,
    pub synthetic_timer: u32,
    pub first_responder: u32,
}

/// Run-loop counters.
#[derive(Debug, Clone, Copy)]
pub struct UIKitRuntimeState {
    pub runloop_ticks: u32,
    pub idle_ticks_after_completion: u32,
}

/// Switches that tune the synthetic runtime.
#[derive(Debug, Clone, Copy)]
pub struct BackendTuning {
    /// Whether the idle connection is driven through the timeout, DNS,
    /// lost-connection and cancel fault probes.
    pub synthetic_network_fault_probes: bool,
}

/// One OpenAL buffer.
#[derive(Debug, Clone)]
pub struct BackendOpenAlBufferState {
    pub format: u32,
    pub frequency: u32,
    pub byte_len: u32,
    pub preview: Vec<u8>,
}

/// One OpenAL source: its parameters (floating-point values held as their
/// IEEE-754 bit patterns), its buffer queue and its playback state.
#[derive(Debug, Clone)]
pub struct BackendOpenAlSourceState {
    pub ints: HashMap<u32, i32>,
    pub float_bits: HashMap<u32, u32>,
    pub vector_bits: HashMap<u32, Vec<u32>>,
    /// Buffers queued on the source, oldest first.
    pub queued_buffers: Vec<u32>,
    /// Buffers that finished playing, oldest first; always a prefix of the
    /// queue.
    pub processed_buffers: Vec<u32>,
    pub state: u32,
}

/// OpenAL device, context, listener, buffers and sources.
#[derive(Debug, Clone)]
pub struct BackendOpenAlState {
    pub device_ptr: u32,
    pub context_ptr: u32,
    pub current_context: u32,
    pub next_buffer_id: u32,
    pub next_source_id: u32,
    pub last_al_error: u32,
    pub last_alc_error: u32,
    pub distance_model: u32,
    pub listener_float_bits: HashMap<u32, u32>,
    pub listener_vector_bits: HashMap<u32, Vec<u32>>,
    pub buffers: HashMap<u32, BackendOpenAlBufferState>,
    pub sources: HashMap<u32, BackendOpenAlSourceState>,
}

/// Runtime services emulated by the backend.
#[derive(Debug, Clone)]
pub struct BackendRuntimeState {
    pub heap: SyntheticHeapState,
    pub objc: ObjcState,
    pub ui_network: NetworkState,
    /// The kinds of network fault seen so far, each once, in order.
    pub network_fault_history: Vec<String>,
    pub ui_objects: UIKitObjectState,
    pub ui_runtime: UIKitRuntimeState,
    pub openal: BackendOpenAlState,
    pub audio_queue: BackendAudioQueueState,
    pub graphics: BackendGraphicsState,
    pub textures: BackendTextureState,
    pub ui_graphics: crate::surface::GraphicsPresentState,
    pub foundation: FoundationBackingState,
    pub recent_gl_calls: Vec<String>,
    pub gl_call_counts: Vec<RuntimeCountEntry>,
}

/// The memory-backed ARM32 backend.
#[derive(Debug, Clone)]
pub struct MemoryArm32Backend {
    pub cpu: BackendCpuState,
    pub execution: CpuExecutionState,
    pub address_space: BackendAddressSpaceState,
    pub diag: BackendDiagnosticsState,
    pub runtime: BackendRuntimeState,
    pub tuning: BackendTuning,
    pub profile: TitleProfile,
}

impl MemoryArm32Backend {
    /// The abstract content of the mapped regions.
    pub open spec fn mem(&self) -> Seq<RegionView> {
        self.address_space.mapped@.map_values(|r: BackendRegion| r.view())
    }

    /// Structural invariant of the backend.
    pub open spec fn wf(&self) -> bool {
        &&& views_wf(self.mem())
        &&& self.cpu.regs@.len() == 16
        &&& self.execution.vfp_d_regs@.len() == 32
    }
}

} // verus!
