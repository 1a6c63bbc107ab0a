use mkea_core::backend::audioqueue::{
    audioqueue_asbd_bytes, audioqueue_format_fields, audioqueue_format_tag, AudioStreamBasicDescriptionState,
    BackendAudioQueuePendingInvocation,
};
use mkea_core::backend::{BackendTuning, MemoryArm32Backend};
use mkea_core::profiles::TitleProfile;

const HEAP: u32 = 0x2000_0000;
const LPCM: u32 = 0x6d63_706c;

fn backend() -> MemoryArm32Backend {
    let mut b = MemoryArm32Backend::new(
        TitleProfile::Default,
        HEAP,
        0x4000,
        0x3000_0000,
        0x1000,
        0x4000_0000,
        0x1000,
        BackendTuning { synthetic_network_fault_probes: false },
    );
    b.map(0x1000, 0x1000, 3).unwrap();
    b.map(HEAP, 0x4000, 3).unwrap();
    b
}

fn stereo16() -> AudioStreamBasicDescriptionState {
    AudioStreamBasicDescriptionState {
        sample_rate_bits: 44100.0f64.to_bits(),
        format_id: LPCM,
        format_flags: 12,
        bytes_per_packet: 4,
        frames_per_packet: 1,
        bytes_per_frame: 4,
        channels_per_frame: 2,
        bits_per_channel: 16,
        reserved: 0,
    }
}

fn summary(f: Option<AudioStreamBasicDescriptionState>) -> String {
    match f {
        Some(f) => format!("sr={:.2} {}", f64::from_bits(f.sample_rate_bits), audioqueue_format_fields(&f)),
        None => "<unknown-asbd>".to_string(),
    }
}

/// A backend with one queue (Thumb callback 0x5001, user data 0x77) whose
/// stream description sits at 0x1000.
fn with_queue() -> (MemoryArm32Backend, u32) {
    let mut b = backend();
    b.write_bytes(0x1000, &audioqueue_asbd_bytes(&stereo16())).unwrap();
    let q = b.audioqueue_create_output(0x1000, 0x5001, 0x77, 0, 0, 0, summary).unwrap();
    (b, q)
}

#[test]
fn format_tags_show_four_character_codes() {
    assert_eq!(audioqueue_format_tag(LPCM), "lpcm");
    assert_eq!(audioqueue_format_tag(1), "0x00000001");
    assert_eq!(
        audioqueue_format_fields(&stereo16()),
        "fmt=lpcm flags=0x0000000c bpp=4 fpp=1 bpf=4 ch=2 bits=16"
    );
}

#[test]
fn stream_description_round_trips_through_guest_memory() {
    let mut b = backend();
    let bytes = audioqueue_asbd_bytes(&stereo16());
    assert_eq!(bytes.len(), 40);
    b.write_bytes(0x1000, &bytes).unwrap();
    let f = b.audioqueue_read_asbd(0x1000).unwrap();
    assert_eq!(f.sample_rate_bits, 44100.0f64.to_bits());
    assert_eq!(f.format_id, LPCM);
    assert_eq!(f.channels_per_frame, 2);
    assert_eq!(f.bits_per_channel, 16);
    assert!(b.audioqueue_read_asbd(0).is_none());
    assert!(b.audioqueue_read_asbd(0x1ff0).is_none());
}

#[test]
fn created_queue_is_labelled_with_its_format() {
    let (b, q) = with_queue();
    assert_eq!(q, HEAP);
    let label = b.object_label(q).unwrap().to_string();
    assert_eq!(
        label,
        "AudioQueue.synthetic#1<sr=44100.00 fmt=lpcm flags=0x0000000c bpp=4 fpp=1 bpf=4 ch=2 bits=16>"
    );
    let h = b.runtime.audio_queue.queues.get(&q).unwrap();
    assert_eq!(h.callback_ptr, 0x5001);
    assert_eq!(h.format.unwrap().format_id, LPCM);
    assert_eq!(b.runtime.audio_queue.next_queue_serial, 2);
}

#[test]
fn buffers_are_allocated_with_their_guest_structure() {
    let (mut b, q) = with_queue();
    let buf = b.audioqueue_allocate_buffer(q, 64).unwrap();
    let state = *b.runtime.audio_queue.buffers.get(&buf).unwrap();
    assert_eq!(b.read_u32_le(buf).unwrap(), 64);
    assert_eq!(b.read_u32_le(buf + 4).unwrap(), state.audio_data_ptr);
    assert_eq!(b.read_u32_le(buf + 8).unwrap(), 0);
    assert_eq!(b.object_label(buf), Some("AudioQueueBuffer.synthetic#1"));
    assert_eq!(b.object_label(state.audio_data_ptr), Some("AudioQueueBuffer.synthetic#1.mAudioData"));
    assert_eq!(b.runtime.audio_queue.queues.get(&q).unwrap().allocated_buffers, vec![buf]);
    let err = b.audioqueue_allocate_buffer(0x1234, 64).unwrap_err();
    assert_eq!(err.message(), "AudioQueue 0x00001234 does not exist");
}

#[test]
fn enqueue_takes_the_guest_byte_size_and_queues_once() {
    let (mut b, q) = with_queue();
    let buf = b.audioqueue_allocate_buffer(q, 64).unwrap();
    b.write_u32_le(buf + 8, 100).unwrap();
    assert_eq!(b.audioqueue_enqueue_buffer(q, buf, 0, 0).unwrap(), (64, 64));
    assert_eq!(b.read_u32_le(buf + 8).unwrap(), 64);
    b.write_u32_le(buf + 8, 32).unwrap();
    assert_eq!(b.audioqueue_enqueue_buffer(q, buf, 0, 0).unwrap(), (32, 64));
    let h = b.runtime.audio_queue.queues.get(&q).unwrap();
    assert_eq!(h.queued_buffers, vec![buf]);
    assert!(b.runtime.audio_queue.buffers.get(&buf).unwrap().enqueued);
}

#[test]
fn enqueue_copies_packet_descriptions() {
    let (mut b, q) = with_queue();
    let buf = b.audioqueue_allocate_buffer(q, 64).unwrap();
    let descs: Vec<u8> = (1u8..=32).collect();
    b.write_bytes(0x1100, &descs).unwrap();
    b.audioqueue_enqueue_buffer(q, buf, 2, 0x1100).unwrap();
    let state = *b.runtime.audio_queue.buffers.get(&buf).unwrap();
    assert_ne!(state.packet_descs_ptr, 0);
    assert_eq!(state.packet_desc_count, 2);
    assert_eq!(b.read_guest_bytes(state.packet_descs_ptr, 32).unwrap(), descs);
    assert_eq!(b.read_u32_le(buf + 20).unwrap(), state.packet_descs_ptr);
    assert_eq!(b.read_u32_le(buf + 24).unwrap(), 2);
    assert!(b.audioqueue_enqueue_buffer(q, buf, 2, 0x1ff8).is_err());
}

#[test]
fn enqueue_rejects_foreign_and_unknown_buffers() {
    let (mut b, q) = with_queue();
    let other = b.audioqueue_create_output(0, 0x6000, 0, 0, 0, 0, summary).unwrap();
    assert_eq!(b.object_label(other), Some("AudioQueue.synthetic#2<<unknown-asbd>>"));
    let buf = b.audioqueue_allocate_buffer(q, 16).unwrap();
    let err = b.audioqueue_enqueue_buffer(other, buf, 0, 0).unwrap_err();
    assert!(err.message().contains("does not belong to"));
    let err = b.audioqueue_enqueue_buffer(q, 0x1000, 0, 0).unwrap_err();
    assert!(err.message().ends_with("does not exist"));
}

#[test]
fn properties_are_stored_and_read_back() {
    let (mut b, q) = with_queue();
    b.write_u32_le(0x1200, 0xabcd_ef01).unwrap();
    assert_eq!(b.audioqueue_set_property(q, 0x11, 0x1200, 4).unwrap(), true);
    assert_eq!(b.audioqueue_set_property(0x999, 0x11, 0x1200, 4).unwrap(), false);
    b.write_u32_le(0x1304, 16).unwrap();
    assert_eq!(b.audioqueue_get_property(q, 0x11, 0x1300, 0x1304).unwrap(), (true, 4));
    assert_eq!(b.read_u32_le(0x1300).unwrap(), 0xabcd_ef01);
    assert_eq!(b.read_u32_le(0x1304).unwrap(), 4);
    assert!(b.audioqueue_set_property(q, 0x12, 0x1ffe, 8).is_err());
}

#[test]
fn unknown_properties_report_the_stream_format_when_there_is_room() {
    let (mut b, q) = with_queue();
    b.write_u32_le(0x1304, 8).unwrap();
    assert_eq!(b.audioqueue_get_property(q, 0x42, 0x1400, 0x1304).unwrap(), (false, 0));
    assert_eq!(b.read_u32_le(0x1304).unwrap(), 0);
    b.write_u32_le(0x1304, 40).unwrap();
    assert_eq!(b.audioqueue_get_property(q, 0x42, 0x1400, 0x1304).unwrap(), (true, 40));
    assert_eq!(b.read_guest_bytes(0x1400, 40).unwrap(), audioqueue_asbd_bytes(&stereo16()));
    assert_eq!(b.audioqueue_get_property(0x999, 0x42, 0x1400, 0).unwrap(), (false, 0));
}

#[test]
fn watched_properties_report_whether_the_queue_runs() {
    let (mut b, q) = with_queue();
    assert!(b.audioqueue_add_property_listener(q, 0x7072_7367, 0x6001, 0x99));
    assert!(b.audioqueue_add_property_listener(q, 0x7072_7367, 0x6001, 0x99));
    assert_eq!(b.runtime.audio_queue.queues.get(&q).unwrap().property_listeners.len(), 1);
    assert!(!b.audioqueue_add_property_listener(0x999, 1, 2, 3));
    assert_eq!(b.audioqueue_get_property(q, 0x7072_7367, 0x1500, 0).unwrap(), (true, 4));
    assert_eq!(b.read_u32_le(0x1500).unwrap(), 0);
    assert!(b.audioqueue_set_running(q, true));
    b.audioqueue_get_property(q, 0x7072_7367, 0x1500, 0).unwrap();
    assert_eq!(b.read_u32_le(0x1500).unwrap(), 1);
    assert!(!b.audioqueue_set_running(0x999, true));
    assert!(b.audioqueue_set_parameter(q, 1, 0.5f32.to_bits()));
    assert_eq!(b.runtime.audio_queue.queues.get(&q).unwrap().parameter_bits.get(&1), Some(&0.5f32.to_bits()));
}

#[test]
fn callbacks_run_one_after_another_then_resume_the_caller() {
    let (mut b, q) = with_queue();
    let b1 = b.audioqueue_allocate_buffer(q, 32).unwrap();
    let b2 = b.audioqueue_allocate_buffer(q, 32).unwrap();
    b.audioqueue_add_property_listener(q, 0x7072_7367, 0x6000, 0x99);
    let pending = b.audioqueue_collect_state_change_callbacks(q, true, true);
    assert_eq!(pending.len(), 3);
    assert!(b.runtime.audio_queue.buffers.get(&b1).unwrap().callback_inflight);
    // Buffers already in flight are not asked for again.
    assert_eq!(b.audioqueue_collect_state_change_callbacks(q, false, true).len(), 0);

    assert_eq!(b.audioqueue_begin_pending_callbacks("AudioQueueStart", 0x8000_0001, 0, pending).unwrap(), true);
    assert_eq!(b.cpu.regs[0], 0x77);
    assert_eq!(b.cpu.regs[1], q);
    assert_eq!(b.cpu.regs[2], b1);
    assert_eq!(b.cpu.regs[14], 0x6fff_0fd1);
    assert_eq!(b.cpu.regs[15], 0x5000);
    assert!(b.cpu.thumb);
    assert_eq!(b.audioqueue_begin_pending_callbacks("again", 0, 0, vec![]).unwrap(), false);

    b.audioqueue_resume_after_callback_return().unwrap();
    assert!(!b.runtime.audio_queue.buffers.get(&b1).unwrap().callback_inflight);
    assert_eq!(b.cpu.regs[2], b2);

    b.audioqueue_resume_after_callback_return().unwrap();
    assert_eq!(b.cpu.regs[0], 0x99);
    assert_eq!(b.cpu.regs[2], 0x7072_7367);
    assert_eq!(b.cpu.regs[14], 0x6fff_0fc0);
    assert_eq!(b.cpu.regs[15], 0x6000);
    assert!(!b.cpu.thumb);

    b.cpu.regs[0] = 0xdead;
    b.audioqueue_resume_after_callback_return().unwrap();
    assert!(b.runtime.audio_queue.callback_resume.is_none());
    assert_eq!(b.cpu.regs[0], 0);
    assert_eq!(b.cpu.regs[15], 0x8000_0000);
    assert!(b.cpu.thumb);
}

#[test]
fn callbacks_that_cannot_run_are_skipped() {
    let (mut b, q) = with_queue();
    let pending = vec![
        BackendAudioQueuePendingInvocation::OutputCallback { queue_ptr: 0x999, buffer_ptr: 1 },
        BackendAudioQueuePendingInvocation::PropertyListener { queue_ptr: q, property_id: 5, callback_ptr: 0, user_data_ptr: 0 },
        BackendAudioQueuePendingInvocation::PropertyListener {
            queue_ptr: q,
            property_id: 6,
            callback_ptr: 0x7000,
            user_data_ptr: 0x55,
        },
    ];
    assert!(b.audioqueue_begin_pending_callbacks("probe", 0x9000, 7, pending).unwrap());
    assert_eq!(b.cpu.regs[0], 0x55);
    assert_eq!(b.cpu.regs[2], 6);
    assert!(b.runtime.audio_queue.callback_resume.as_ref().unwrap().pending.is_empty());
    b.audioqueue_resume_after_callback_return().unwrap();
    assert_eq!(b.cpu.regs[0], 7);
    assert_eq!(b.cpu.regs[15], 0x9000);
    assert!(!b.cpu.thumb);
}

#[test]
fn freed_buffers_leave_the_queue() {
    let (mut b, q) = with_queue();
    let buf = b.audioqueue_allocate_buffer(q, 32).unwrap();
    b.audioqueue_enqueue_buffer(q, buf, 0, 0).unwrap();
    let data = b.runtime.audio_queue.buffers.get(&buf).unwrap().audio_data_ptr;
    assert!(b.audioqueue_free_buffer(q, buf));
    assert!(b.runtime.audio_queue.buffers.get(&buf).is_none());
    let h = b.runtime.audio_queue.queues.get(&q).unwrap();
    assert!(h.allocated_buffers.is_empty());
    assert!(h.queued_buffers.is_empty());
    assert!(b.object_label(buf).is_none());
    assert!(b.object_label(data).is_none());
    assert_eq!(b.read_u8(buf).unwrap(), 0xdd);
    assert!(!b.audioqueue_free_buffer(q, buf));
}
