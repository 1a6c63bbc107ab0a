use std::collections::VecDeque;
use mkea_core::control::{clear_stop_request, is_stop_requested, request_stop, StopSignal};
use mkea_core::framebus::{
    force_publish_live_frame, install_live_frame_sink, live_frame_queue_depth, take_live_frame,
    try_publish_live_frame, FrameBus, LiveFramePacket, LIVE_FRAME_QUEUE_CAPACITY,
};
use mkea_core::input::{ActivePointerDispatchKind, GraphicsMatrixMode, SyntheticUiTouchPhase};
use mkea_core::inputbus::{clear_live_input, drain_live_input, enqueue_live_input, InputBus, LiveInputPacket};

fn frame(i: u32) -> LiveFramePacket {
    LiveFramePacket {
        frame_index: i,
        width: 2,
        height: 1,
        rgba: vec![0; 8],
        source: "test".to_string(),
        reason: "present".to_string(),
        reused_previous: false,
    }
}

fn touch(id: u32) -> LiveInputPacket {
    LiveInputPacket {
        phase: "down".to_string(),
        pointer_id: id,
        px_bits: 1.5f32.to_bits(),
        py_bits: 2.5f32.to_bits(),
        host_width: Some(480),
        host_height: Some(320),
        flip_y: None,
        button: None,
        buttons: None,
        source: None,
    }
}

#[test]
fn stop_signal_round_trip() {
    let mut s = StopSignal::new();
    assert!(!is_stop_requested(&s));
    request_stop(&mut s);
    assert!(is_stop_requested(&s));
    clear_stop_request(&mut s);
    assert!(!is_stop_requested(&s));
}

#[test]
fn frames_without_a_sink_are_discarded() {
    let mut bus = FrameBus::new();
    assert!(try_publish_live_frame(&mut bus, frame(1)).is_none());
    assert_eq!(live_frame_queue_depth(&bus), 0);
    assert!(take_live_frame(&mut bus).is_none());
}

#[test]
fn frames_come_out_in_order() {
    let mut bus = FrameBus::new();
    install_live_frame_sink(&mut bus, Some(VecDeque::new()));
    try_publish_live_frame(&mut bus, frame(1));
    try_publish_live_frame(&mut bus, frame(2));
    assert_eq!(live_frame_queue_depth(&bus), 2);
    assert_eq!(take_live_frame(&mut bus).unwrap().frame_index, 1);
    assert_eq!(take_live_frame(&mut bus).unwrap().frame_index, 2);
    assert!(take_live_frame(&mut bus).is_none());
}

#[test]
fn full_queue_hands_frames_back_then_drops_the_oldest() {
    let mut bus = FrameBus::new();
    install_live_frame_sink(&mut bus, Some(VecDeque::new()));
    for i in 0..LIVE_FRAME_QUEUE_CAPACITY as u32 {
        assert!(try_publish_live_frame(&mut bus, frame(i)).is_none());
    }
    let back = try_publish_live_frame(&mut bus, frame(99)).unwrap();
    assert_eq!(back.frame_index, 99);
    assert_eq!(live_frame_queue_depth(&bus), LIVE_FRAME_QUEUE_CAPACITY);
    force_publish_live_frame(&mut bus, back);
    assert_eq!(live_frame_queue_depth(&bus), LIVE_FRAME_QUEUE_CAPACITY);
    assert_eq!(bus.dropped, 1);
    assert_eq!(take_live_frame(&mut bus).unwrap().frame_index, 1);
    install_live_frame_sink(&mut bus, Some(VecDeque::new()));
    assert_eq!(bus.dropped, 0);
    assert_eq!(live_frame_queue_depth(&bus), 0);
}

#[test]
fn input_drains_oldest_first_at_least_one() {
    let mut bus = InputBus::new();
    enqueue_live_input(&mut bus, touch(1));
    enqueue_live_input(&mut bus, touch(2));
    enqueue_live_input(&mut bus, touch(3));
    let first = drain_live_input(&mut bus, 0);
    assert_eq!(first.len(), 1);
    assert_eq!(first[0].pointer_id, 1);
    let rest = drain_live_input(&mut bus, 10);
    assert_eq!(rest.iter().map(|p| p.pointer_id).collect::<Vec<_>>(), vec![2, 3]);
    enqueue_live_input(&mut bus, touch(4));
    clear_live_input(&mut bus);
    assert!(drain_live_input(&mut bus, 5).is_empty());
}

#[test]
fn gl_matrix_modes_and_touch_phases_map() {
    assert_eq!(GraphicsMatrixMode::from_gl(0x1701).map(|m| m.as_str()), Some("projection"));
    assert!(GraphicsMatrixMode::from_gl(0x1234).is_none());
    assert_eq!(SyntheticUiTouchPhase::from_host_phase("down").as_uikit_value(), 0);
    assert_eq!(SyntheticUiTouchPhase::from_host_phase("move").as_uikit_value(), 1);
    assert_eq!(SyntheticUiTouchPhase::from_host_phase("up").as_uikit_value(), 3);
    assert_eq!(ActivePointerDispatchKind::UIKit.as_str(), "ui");
    assert_eq!(SyntheticUiTouchPhase::from_host_phase("hover").as_uikit_value(), 2);
}
