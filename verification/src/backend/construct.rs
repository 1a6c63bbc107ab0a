//! Creating a memory backend and mapping guest regions into it.
use vstd::prelude::*;
use std::collections::HashMap;
use crate::error::{CoreError, CoreResult};
use crate::memory::sat_add_u32;
use crate::profiles::TitleProfile;
use crate::text::{hex_prefixed, push_hex_prefixed};
use super::{
    view_wf, ArmFlags, BackendAddressSpaceState, BackendCpuState, BackendDiagnosticsState, BackendRegion,
    BackendRuntimeState, BackendTuning, CpuExecutionState, MemoryArm32Backend, NetworkState, ObjcState, RegionView,
    UIKitObjectState, UIKitRuntimeState,
};
use super::guest_strings::pool_unique;
use super::heap::fill_vec;
use super::openal::openal_wf;
use super::audioqueue::aq_wf;

verus! {

pub const HLE_FAKE_UIAPPLICATION: u32 = 0x6fff03a0;
pub const HLE_FAKE_APP_DELEGATE: u32 = 0x6fff03c0;
pub const HLE_FAKE_UIWINDOW: u32 = 0x6fff03e0;
pub const HLE_FAKE_ROOT_CONTROLLER: u32 = 0x6fff0400;
pub const HLE_FAKE_MAIN_SCREEN: u32 = 0x6fff0420;
pub const HLE_FAKE_MAIN_RUNLOOP: u32 = 0x6fff0440;
pub const HLE_FAKE_DEFAULT_MODE: u32 = 0x6fff0460;
pub const HLE_FAKE_SYNTH_TIMER: u32 = 0x6fff0480;
pub const HLE_FAKE_REACHABILITY: u32 = 0x6fff04c0;
pub const HLE_FAKE_URL: u32 = 0x6fff04e0;
pub const HLE_FAKE_URL_REQUEST: u32 = 0x6fff0500;
pub const HLE_FAKE_URL_CONNECTION: u32 = 0x6fff0520;
pub const HLE_FAKE_HTTP_RESPONSE: u32 = 0x6fff0540;
pub const HLE_FAKE_DATA: u32 = 0x6fff0560;
pub const HLE_FAKE_PROXY_SETTINGS: u32 = 0x6fff0580;
pub const HLE_FAKE_FAULT_CONNECTION: u32 = 0x6fff05a0;
pub const HLE_FAKE_NETWORK_ERROR: u32 = 0x6fff05c0;
pub const HLE_FAKE_READ_STREAM: u32 = 0x6fff06c0;
pub const HLE_FAKE_WRITE_STREAM: u32 = 0x6fff06e0;

/// `[addr, addr + size)` overlaps no mapped region.
pub open spec fn span_free(s: Seq<RegionView>, addr: u32, size: u32) -> bool {
    forall|i: int| 0 <= i < s.len() ==> #[trigger] s[i].addr + s[i].size <= addr || addr + size <= s[i].addr
}

/// The message when a region cannot be mapped.
pub open spec fn map_error_message(addr: u32, size: u32) -> Seq<char> {
    "backend cannot map "@ + hex_prefixed(addr as nat, 8) + "+"@ + hex_prefixed(size as nat, 0)
}

/// The synthetic network connection before any request: nothing armed or
/// delivered, streams closed, objects at their fixed addresses.
pub fn initial_network_state() -> (n: NetworkState)
    ensures
        !n.network_armed && !n.network_completed && !n.network_cancelled && !n.network_faulted,
        n.network_stage == 0 && n.network_bytes_delivered == 0 && n.network_fault_mode == 0,
        n.network_url == HLE_FAKE_URL && n.network_connection == HLE_FAKE_URL_CONNECTION,
{
    NetworkState {
        network_armed: false,
        network_stage: 0,
        network_completed: false,
        network_cancelled: false,
        network_faulted: false,
        network_fault_mode: 0,
        network_timeout_armed: false,
        network_bytes_delivered: 0,
        network_response_retained: false,
        network_data_retained: false,
        network_error_retained: false,
        network_source_closed: false,
        network_events: 0,
        network_fault_events: 0,
        delegate_callbacks: 0,
        network_delegate: 0,
        network_url: HLE_FAKE_URL,
        network_request: HLE_FAKE_URL_REQUEST,
        network_connection: HLE_FAKE_URL_CONNECTION,
        network_response: HLE_FAKE_HTTP_RESPONSE,
        network_data: HLE_FAKE_DATA,
        proxy_settings: HLE_FAKE_PROXY_SETTINGS,
        fault_connection: HLE_FAKE_FAULT_CONNECTION,
        network_error: HLE_FAKE_NETWORK_ERROR,
        reachability: HLE_FAKE_REACHABILITY,
        reachability_flags: 0,
        reachability_scheduled: false,
        reachability_callback_set: false,
        read_stream: HLE_FAKE_READ_STREAM,
        read_stream_open: false,
        read_stream_scheduled: false,
        read_stream_status: 0,
        read_stream_bytes_consumed: 0,
        read_stream_events: 0,
        write_stream: HLE_FAKE_WRITE_STREAM,
        write_stream_open: false,
        write_stream_scheduled: false,
        write_stream_status: 0,
        write_stream_bytes_written: 0,
        write_stream_events: 0,
    }
}

impl Default for super::UIKitObjectState {
    /// The well-known UIKit singletons at their fixed addresses; the root
    /// controller is the first responder.
    fn default() -> (o: Self)
        ensures
            o.app == HLE_FAKE_UIAPPLICATION,
            o.delegate == HLE_FAKE_APP_DELEGATE,
            o.window == HLE_FAKE_UIWINDOW,
            o.root_controller == HLE_FAKE_ROOT_CONTROLLER,
            o.screen == HLE_FAKE_MAIN_SCREEN,
            o.main_runloop == HLE_FAKE_MAIN_RUNLOOP,
            o.default_mode == HLE_FAKE_DEFAULT_MODE,
            o.synthetic_timer == HLE_FAKE_SYNTH_TIMER,
            o.first_responder == HLE_FAKE_ROOT_CONTROLLER,
    {
        super::UIKitObjectState {
            app: HLE_FAKE_UIAPPLICATION,
            delegate: HLE_FAKE_APP_DELEGATE,
            window: HLE_FAKE_UIWINDOW,
            root_controller: HLE_FAKE_ROOT_CONTROLLER,
            screen: HLE_FAKE_MAIN_SCREEN,
            main_runloop: HLE_FAKE_MAIN_RUNLOOP,
            default_mode: HLE_FAKE_DEFAULT_MODE,
            synthetic_timer: HLE_FAKE_SYNTH_TIMER,
            first_responder: HLE_FAKE_ROOT_CONTROLLER,
        }
    }
}

impl MemoryArm32Backend {
    /// A backend with nothing mapped, zeroed registers, an empty heap over
    /// `[heap_base, heap_base + heap_size)`, an empty selector pool over
    /// `[pool_base, pool_base + pool_size)` and a trampoline page at
    /// `[trampoline_addr, trampoline_addr + trampoline_size)`.
    pub fn new(
        profile: TitleProfile,
        heap_base: u32,
        heap_size: u32,
        pool_base: u32,
        pool_size: u32,
        trampoline_addr: u32,
        trampoline_size: u32,
        tuning: BackendTuning,
    ) -> (b: Self)
        ensures
            b.wf(),
            b.runtime.heap.heap_wf(),
            openal_wf(b.runtime.openal),
            aq_wf(b.runtime.audio_queue),
            b.runtime.audio_queue.queues@.len() == 0,
            b.runtime.audio_queue.buffers@.len() == 0,
            b.runtime.audio_queue.callback_resume is None,
            pool_unique(b.runtime.objc.selector_string_pool@),
            b.mem().len() == 0,
            b.profile == profile,
            b.tuning == tuning,
            b.runtime.heap.synthetic_heap_cursor == heap_base,
            b.runtime.heap.synthetic_heap_end == sat_add_u32(heap_base, heap_size),
            b.runtime.objc.selector_pool_cursor == pool_base,
            b.runtime.objc.selector_pool_end == sat_add_u32(pool_base, pool_size),
            b.address_space.trampoline_addr == trampoline_addr,
            b.address_space.trampoline_size == trampoline_size,
            b.diag.writes@.len() == 0,
            b.runtime.ui_objects.delegate == HLE_FAKE_APP_DELEGATE,
    {
        let mut regs: Vec<u32> = Vec::new();
        let mut i: usize = 0;
        while i < 16
            invariant
                i <= 16,
                regs@.len() == i,
            decreases 16 - i,
        {
            regs.push(0);
            i = i + 1;
        }
        let mut vfp: Vec<u64> = Vec::new();
        let mut i: usize = 0;
        while i < 32
            invariant
                i <= 32,
                vfp@.len() == i,
            decreases 32 - i,
        {
            vfp.push(0);
            i = i + 1;
        }
        let mut labels: HashMap<u32, String> = HashMap::new();
        labels.insert(HLE_FAKE_UIAPPLICATION, String::from_str("UIApplication.sharedApplication"));
        labels.insert(HLE_FAKE_APP_DELEGATE, String::from_str("UIApplication.delegate"));
        labels.insert(HLE_FAKE_UIWINDOW, String::from_str("UIWindow.main"));
        labels.insert(HLE_FAKE_ROOT_CONTROLLER, String::from_str("UIViewController.root"));
        labels.insert(HLE_FAKE_MAIN_SCREEN, String::from_str("UIScreen.mainScreen"));
        labels.insert(HLE_FAKE_MAIN_RUNLOOP, String::from_str("NSRunLoop.mainRunLoop"));
        labels.insert(HLE_FAKE_DEFAULT_MODE, String::from_str("kCFRunLoopDefaultMode"));
        labels.insert(HLE_FAKE_SYNTH_TIMER, String::from_str("NSTimer.synthetic#0"));
        labels.insert(HLE_FAKE_READ_STREAM, String::from_str("CFReadStream.synthetic#0"));
        labels.insert(HLE_FAKE_WRITE_STREAM, String::from_str("CFWriteStream.synthetic#0"));
        let b = MemoryArm32Backend {
            cpu: BackendCpuState { regs, thumb: false, flags: ArmFlags { n: false, z: false, c: false, v: false } },
            execution: CpuExecutionState {
                current_exec_pc: 0,
                current_exec_word: 0,
                current_exec_thumb: false,
                vfp_d_regs: vfp,
            },
            address_space: BackendAddressSpaceState { mapped: Vec::new(), trampoline_addr, trampoline_size },
            diag: BackendDiagnosticsState { writes: Vec::new(), symbol_labels: HashMap::new(), object_labels: labels },
            runtime: BackendRuntimeState {
                heap: super::SyntheticHeapState::new(heap_base, heap_size),
                objc: ObjcState {
                    selector_pool_cursor: pool_base,
                    selector_pool_end: pool_base.saturating_add(pool_size),
                    selector_string_pool: Vec::new(),
                    objc_section_cfstring: None,
                    objc_msgsend_calls: 0,
                    objc_selector_counts: Vec::new(),
                    recent_objc_selectors: Vec::new(),
                },
                ui_network: initial_network_state(),
                network_fault_history: Vec::new(),
                ui_objects: UIKitObjectState {
                    app: HLE_FAKE_UIAPPLICATION,
                    delegate: HLE_FAKE_APP_DELEGATE,
                    window: HLE_FAKE_UIWINDOW,
                    root_controller: HLE_FAKE_ROOT_CONTROLLER,
                    screen: HLE_FAKE_MAIN_SCREEN,
                    main_runloop: HLE_FAKE_MAIN_RUNLOOP,
                    default_mode: HLE_FAKE_DEFAULT_MODE,
                    synthetic_timer: HLE_FAKE_SYNTH_TIMER,
                    first_responder: HLE_FAKE_ROOT_CONTROLLER,
                },
                ui_runtime: UIKitRuntimeState { runloop_ticks: 0, idle_ticks_after_completion: 0 },
                openal: super::BackendOpenAlState::new(),
                audio_queue: super::audioqueue::BackendAudioQueueState::new(),
                graphics: super::nodes::BackendGraphicsState::new(),
                textures: super::textures::BackendTextureState::new(),
                ui_graphics: crate::surface::GraphicsPresentState::new(),
                foundation: super::foundation::FoundationBackingState::new(),
                recent_gl_calls: Vec::new(),
                gl_call_counts: Vec::new(),
            },
            tuning,
            profile,
        };
        proof {
            assert(b.mem() =~= Seq::<RegionView>::empty());
        }
        b
    }

    /// Maps a zero-filled region `[addr, addr + size)` with protection
    /// `prot`. Fails, changing nothing, for an empty region, one that wraps
    /// the address space or one that overlaps a mapped region.
    pub fn map(&mut self, addr: u32, size: u32, prot: u32) -> (r: CoreResult<()>)
        requires
            old(self).wf(),
        ensures
            final(self).wf(),
            r is Ok <==> size > 0 && addr + size <= u32::MAX && span_free(old(self).mem(), addr, size),
            r is Ok ==> final(self).mem() == old(self).mem().push(
                RegionView { addr, size, prot, bytes: Seq::new(size as nat, |i: int| 0u8) },
            ),
            r is Err ==> *final(self) == *old(self) && r->Err_0 is Backend && r->Err_0.spec_message()
                == map_error_message(addr, size),
            final(self).runtime == old(self).runtime,
            final(self).diag == old(self).diag,
            final(self).cpu == old(self).cpu,
            final(self).execution == old(self).execution,
            final(self).profile == old(self).profile,
            final(self).tuning == old(self).tuning,
            final(self).address_space.trampoline_addr == old(self).address_space.trampoline_addr,
            final(self).address_space.trampoline_size == old(self).address_space.trampoline_size,
    {
        let mut ok = size > 0 && addr.checked_add(size).is_some();
        let mut i: usize = 0;
        while ok && i < self.address_space.mapped.len()
            invariant
                i <= self.mem().len(),
                ok ==> size > 0 && addr + size <= u32::MAX,
                ok ==> forall|j: int| 0 <= j < i ==> #[trigger] self.mem()[j].addr + self.mem()[j].size <= addr
                    || addr + size <= self.mem()[j].addr,
                !ok ==> !(size > 0 && addr + size <= u32::MAX && span_free(self.mem(), addr, size)),
            decreases self.mem().len() - i,
        {
            let r = &self.address_space.mapped[i];
            let r_end = r.addr as u64 + r.size as u64;
            if !(r_end <= addr as u64 || addr as u64 + size as u64 <= r.addr as u64) {
                proof {
                    assert(self.mem()[i as int] == r.view());
                    assert(!(self.mem()[i as int].addr + self.mem()[i as int].size <= addr || addr + size
                        <= self.mem()[i as int].addr));
                }
                ok = false;
            }
            i = i + 1;
        }
        if !ok {
            let mut msg = String::from_str("backend cannot map ");
            push_hex_prefixed(&mut msg, addr as u64, 8);
            msg.append("+");
            push_hex_prefixed(&mut msg, size as u64, 0);
            return Err(CoreError::Backend(msg));
        }
        let data = fill_vec(size, 0);
        self.address_space.mapped.push(BackendRegion { addr, size, prot, data });
        proof {
            let s0 = old(self).mem();
            let s1 = self.mem();
            assert(s1 =~= s0.push(RegionView { addr, size, prot, bytes: Seq::new(size as nat, |i: int| 0u8) }));
            assert forall|j: int| 0 <= j < s1.len() implies view_wf(#[trigger] s1[j]) by {
                if j < s0.len() {
                    assert(s1[j] == s0[j]);
                }
            }
            assert forall|j: int, k: int|
                0 <= j < s1.len() && 0 <= k < s1.len() && j != k implies #[trigger] s1[j].addr + s1[j].size
                <= #[trigger] s1[k].addr || s1[k].addr + s1[k].size <= s1[j].addr by {
                if j < s0.len() && k < s0.len() {
                    assert(s1[j] == s0[j] && s1[k] == s0[k]);
                } else if j < s0.len() {
                    assert(s1[j] == s0[j]);
                } else if k < s0.len() {
                    assert(s1[k] == s0[k]);
                }
            }
        }
        Ok(())
    }
}

} // verus!
