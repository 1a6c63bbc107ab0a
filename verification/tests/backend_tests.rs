use mkea_core::backend::{BackendPolicy, BackendTuning, MemoryArm32Backend};
use mkea_core::profiles::TitleProfile;

const HEAP: u32 = 0x2000_0000;
const POOL: u32 = 0x3000_0000;

fn backend_with(profile: TitleProfile, probes: bool) -> MemoryArm32Backend {
    let mut b = MemoryArm32Backend::new(
        profile,
        HEAP,
        0x1000,
        POOL,
        0x1000,
        0x4000_0000,
        0x1000,
        BackendTuning { synthetic_network_fault_probes: probes },
    );
    b.map(0x1000, 0x1000, 3).unwrap();
    b.map(HEAP, 0x1000, 3).unwrap();
    b.map(POOL, 0x1000, 3).unwrap();
    b
}

fn backend() -> MemoryArm32Backend {
    backend_with(TitleProfile::Default, false)
}

#[test]
fn policy_labels_match_summary_names() {
    assert_eq!(BackendPolicy::ProbeOnly.label(), "probe-only");
    assert_eq!(BackendPolicy::SyntheticRuntime.label(), "synthetic-runtime");
    assert_eq!(BackendPolicy::HybridExecution.label(), "hybrid-execution");
}

#[test]
fn mapped_memory_reads_back_what_was_written() {
    let mut b = backend();
    b.write_u32_le(0x1004, 0xdead_beef).unwrap();
    assert_eq!(b.read_u32_le(0x1004).unwrap(), 0xdead_beef);
    assert_eq!(b.read_u8(0x1004).unwrap(), 0xef);
    assert_eq!(b.read_u16_le(0x1006).unwrap(), 0xdead);
    b.write_u64_le(0x1010, 0x0102_0304_0506_0708).unwrap();
    assert_eq!(b.read_u64_le(0x1010).unwrap(), 0x0102_0304_0506_0708);
    assert_eq!(b.read_guest_bytes(0x1010, 3).unwrap(), vec![8, 7, 6]);
    assert_eq!(b.read_u32_le(0x1100).unwrap(), 0);
}

#[test]
fn unmapped_accesses_fail_and_change_nothing() {
    let mut b = backend();
    assert!(b.read_u32_le(0x0ffe).is_err());
    assert!(b.read_u8(0x5000).is_err());
    let writes_before = b.diag.writes.len();
    assert!(b.write_u32_le(0x1ffe, 7).is_err());
    assert_eq!(b.diag.writes.len(), writes_before);
    let msg = b.read_u8(0x5000).unwrap_err().message().clone();
    assert!(msg.starts_with("backend cannot read 1 bytes at 0x00005000"));
}

#[test]
fn map_rejects_overlap_empty_and_wrapping_regions() {
    let mut b = backend();
    let err = b.map(0x1800, 0x100, 3).unwrap_err();
    assert_eq!(err.message(), "backend cannot map 0x00001800+0x100");
    assert!(b.map(0x9000, 0, 3).is_err());
    assert!(b.map(0xffff_f000, 0x2000, 3).is_err());
    assert!(b.map(0x2000, 0x1000, 1).is_ok());
    assert_eq!(b.read_u8(0x2fff).unwrap(), 0);
}

#[test]
fn malloc_hands_out_aligned_guarded_blocks() {
    let mut b = backend();
    let first = b.handle_guest_malloc(10);
    let second = b.handle_guest_malloc(4);
    assert_eq!(first, HEAP);
    assert_eq!(second, HEAP + 0x20);
    assert_eq!(b.active_synthetic_heap_allocations(), 2);
    assert_eq!(b.read_u8(first + 10).unwrap(), 0xcd);
    assert_eq!(b.read_u8(first + 25).unwrap(), 0xcd);
    assert_eq!(b.runtime.heap.synthetic_heap_allocations[0].tag, "malloc(10)");
}

#[test]
fn calloc_zeroes_and_reports_overflow() {
    let mut b = backend();
    let p = b.handle_guest_calloc(4, 4);
    assert_ne!(p, 0);
    assert_eq!(b.read_guest_bytes(p, 16).unwrap(), vec![0u8; 16]);
    assert_eq!(b.handle_guest_calloc(0x10000, 0x10000), 0);
    assert_eq!(
        b.runtime.heap.synthetic_heap_last_error.as_deref(),
        Some("calloc overflow count=65536 size=65536")
    );
}

#[test]
fn free_marks_blocks_and_rejects_double_free() {
    let mut b = backend();
    let p = b.handle_guest_malloc(8);
    assert!(b.free_synthetic_heap_block(p));
    assert_eq!(b.active_synthetic_heap_allocations(), 0);
    assert_eq!(b.read_u8(p).unwrap(), 0xdd);
    assert!(!b.free_synthetic_heap_block(p));
    assert!(b.runtime.heap.synthetic_heap_last_error.is_some());
    assert!(b.free_synthetic_heap_block(0));
    assert!(!b.free_synthetic_heap_block(0x1234));
}

#[test]
fn exhausted_heap_returns_null_with_reason() {
    let mut b = backend();
    assert_eq!(b.handle_guest_malloc(0x2000), 0);
    let err = b.runtime.heap.synthetic_heap_last_error.clone().unwrap();
    assert_eq!(err, "synthetic heap exhausted: need 8208 bytes in [0x20000000, 0x20001000)");
    assert_eq!(b.active_synthetic_heap_allocations(), 0);
}

#[test]
fn realloc_keeps_the_old_contents() {
    let mut b = backend();
    let p = b.handle_guest_malloc(8);
    b.write_u32_le(p, 0x1122_3344).unwrap();
    b.write_u32_le(p + 4, 0x5566_7788).unwrap();
    let q = b.handle_guest_realloc(p, 64);
    assert_ne!(q, 0);
    assert_ne!(q, p);
    assert_eq!(b.read_u32_le(q).unwrap(), 0x1122_3344);
    assert_eq!(b.read_u32_le(q + 4).unwrap(), 0x5566_7788);
    assert_eq!(b.active_synthetic_heap_allocations(), 1);
    assert_eq!(b.handle_guest_realloc(p, 16), 0);
    assert_eq!(b.handle_guest_realloc(q, 0), 0);
    assert_eq!(b.active_synthetic_heap_allocations(), 0);
    let r = b.handle_guest_realloc(0, 12);
    assert_ne!(r, 0);
}

#[test]
fn guest_bytes_read_back_as_c_string() {
    let mut b = backend();
    let p = b.alloc_synthetic_guest_bytes(b"hello", true).unwrap();
    assert_eq!(b.read_c_string(p, 64), Some("hello".to_string()));
    assert_eq!(b.read_c_string(p, 3), Some("hel".to_string()));
    assert_eq!(b.describe_ptr(p), format!("0x{:08x}:'hello'", p));
    assert_eq!(b.describe_ptr(0), "nil");
    assert_eq!(b.describe_ptr(0x1000), "0x00001000");
}

#[test]
fn selectors_are_interned_once() {
    let mut b = backend();
    let a = b.alloc_selector_c_string("init").unwrap();
    let c = b.alloc_selector_c_string("alloc").unwrap();
    let again = b.alloc_selector_c_string("init").unwrap();
    assert_eq!(a, again);
    assert_ne!(a, c);
    assert_eq!(b.objc_read_selector_name(a), Some("init".to_string()));
    assert_eq!(b.objc_read_selector_name(c), Some("alloc".to_string()));
    assert!(b.find_interned_selector("alloc").is_some());
    assert!(b.find_interned_selector("dealloc").is_none());
}

#[test]
fn openal_buffers_queue_and_unqueue_in_order() {
    let mut b = backend();
    let ids = b.openal_gen_buffers(3, 0x1200).unwrap();
    assert_eq!(ids.len(), 3);
    assert_eq!(b.read_u32_le(0x1200).unwrap(), ids[0]);
    assert_eq!(b.read_u32_le(0x1208).unwrap(), ids[2]);
    let sources = b.openal_gen_sources(1, 0x1300).unwrap();
    let src = sources[0];
    assert!(b.openal_queue_buffers(src, &ids));
    assert!(!b.openal_queue_buffers(src + 100, &ids));
    // A stopped source has processed its whole queue.
    let first_two = b.openal_unqueue_buffers(src, 2).unwrap();
    assert_eq!(first_two, vec![ids[0], ids[1]]);
    let rest = b.openal_unqueue_buffers(src, 5).unwrap();
    assert_eq!(rest, vec![ids[2]]);
    assert!(b.openal_unqueue_buffers(src + 100, 1).is_none());
}

#[test]
fn openal_errors_are_taken_once() {
    let mut b = backend();
    b.openal_set_al_error(0xA001);
    b.openal_set_al_error(0);
    assert_eq!(b.openal_take_al_error(), 0xA001);
    b.openal_set_al_error(0xA001);
    b.openal_set_al_error(0xA002);
    assert_eq!(b.openal_take_al_error(), 0xA002);
    assert_eq!(b.openal_take_al_error(), 0);
    b.openal_set_alc_error(0xA004);
    assert_eq!(b.openal_take_alc_error(), 0xA004);
    assert_eq!(b.openal_take_alc_error(), 0);
}

#[test]
fn openal_names_and_previews() {
    assert_eq!(MemoryArm32Backend::openal_format_name(0x1101), "AL_FORMAT_MONO16");
    assert_eq!(MemoryArm32Backend::openal_state_name(0x1012), "AL_PLAYING");
    assert_eq!(MemoryArm32Backend::audio_hex_preview(&[0x52, 0x49, 0x46]), "52 49 46");
    assert_eq!(MemoryArm32Backend::audio_ascii_preview(&[0x52, 0x00, 0x46, 0x7f]), "R.F.");
    assert!(MemoryArm32Backend::audio_is_objc_audio_selector("playEffect:"));
    assert!(!MemoryArm32Backend::audio_is_objc_audio_selector("drawRect:"));
    let long = [0xabu8; 40];
    assert_eq!(MemoryArm32Backend::audio_hex_preview(&long).len(), 24 * 3 - 1);
}

#[test]
fn active_connection_walks_through_its_callbacks() {
    let mut b = backend();
    b.runtime.ui_network.network_armed = true;
    let conn = b.runtime.ui_network.network_connection;
    let first = b.handle_active_network_tick();
    assert_eq!(first.selector, "connection:didReceiveResponse:");
    assert_eq!(first.arg2, conn);
    assert_eq!(first.result, "continue-loading");
    let second = b.handle_active_network_tick();
    assert_eq!(second.selector, "connection:didReceiveData:");
    assert_eq!(second.result, "append-data");
    assert_eq!(b.runtime.ui_network.network_bytes_delivered, 128);
    let third = b.handle_active_network_tick();
    assert_eq!(third.selector, "connectionDidFinishLoading:");
    assert_eq!(third.arg3, 0);
    assert!(b.runtime.ui_network.network_completed);
    assert!(!b.runtime.ui_network.network_armed);
    assert_eq!(b.runtime.ui_network.delegate_callbacks, 3);
    assert_eq!(b.network_connection_state_name(), "completed");
}

#[test]
fn armed_fault_probe_fails_the_connection() {
    let mut b = backend();
    b.arm_synthetic_fault_probe(3);
    assert!(b.runtime.ui_network.network_timeout_armed);
    let call = b.handle_network_timeout_tick();
    assert_eq!(call.selector, "connection:didFailWithError:");
    assert_eq!(call.result, "failed-lost-connection");
    assert!(b.runtime.ui_network.network_faulted);
    assert_eq!(b.runtime.ui_network.network_bytes_delivered, 64);
    assert_eq!(b.runtime.network_fault_history.len(), 1);
    b.arm_synthetic_fault_probe(3);
    b.handle_network_timeout_tick();
    assert_eq!(b.runtime.network_fault_history.len(), 1);
    b.arm_synthetic_fault_probe(4);
    let cancel = b.handle_network_timeout_tick();
    assert_eq!(cancel.result, "cancelled");
    assert!(b.runtime.ui_network.network_cancelled);
    assert_eq!(b.network_connection_state_name(), "cancelled");
}

#[test]
fn payload_follows_the_connection_state() {
    let mut b = backend_with(TitleProfile::AboveAndBelow, false);
    assert!(b.synthetic_payload_bytes().is_empty());
    b.runtime.ui_network.network_armed = true;
    b.handle_active_network_tick();
    b.handle_active_network_tick();
    let bytes = b.synthetic_payload_bytes();
    assert_eq!(bytes.len(), 128);
    let text = String::from_utf8(bytes).unwrap();
    assert!(text.starts_with("bootstrap=ok\nstate=receiving\n"));
    assert!(text.contains("bundle=forever-entertainment.aboveandbelow"));
}

#[test]
fn vfp_single_registers_alias_double_halves() {
    let mut b = backend();
    b.vfp_set_s(0, 0x3f80_0000);
    b.vfp_set_s(1, 0x4000_0000);
    assert_eq!(b.vfp_get_s(0), 0x3f80_0000);
    assert_eq!(b.vfp_get_s(1), 0x4000_0000);
    assert_eq!(b.execution.vfp_d_regs[0], 0x4000_0000_3f80_0000);
}

#[test]
fn word_lists_stop_at_unmapped_memory() {
    let mut b = backend();
    b.write_u32_le(0x1ff8, 5).unwrap();
    b.write_u32_le(0x1ffc, 6).unwrap();
    assert_eq!(b.read_words_at(0x1ff8, 2), Some(vec![5, 6]));
    assert_eq!(b.read_words_at(0x1ff8, 3), None);
    assert_eq!(b.read_u32_list(0x1ff8, 3, 8), vec![5, 6]);
}

#[test]
fn runloop_pass_delivers_network_callbacks_in_order() {
    let mut b = backend();
    assert!(b.drive_runloop_network_sources().is_empty());
    b.runtime.ui_network.network_armed = true;
    let calls = b.drive_runloop_network_sources();
    assert_eq!(calls.len(), 1);
    assert_eq!(calls[0].selector, "connection:didReceiveResponse:");
    b.arm_synthetic_fault_probe(2);
    let calls = b.drive_runloop_network_sources();
    assert_eq!(calls.len(), 1);
    assert_eq!(calls[0].selector, "connection:didFailWithError:");
    assert_eq!(calls[0].result, "failed-cannot-connect");
    assert!(!b.runtime.ui_network.network_armed);
}
