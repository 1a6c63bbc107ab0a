use std::collections::HashMap;

use mkea_core::backend::attach::AttachOutcome;
use mkea_core::backend::font::ab_font5x7_rows;
use mkea_core::backend::guest_graph::{GuestChildLink, GuestGraphWalk};
use mkea_core::backend::multiplex::MultiplexSwitch;
use mkea_core::backend::variants::{default_variant_choice, promoted_variant_choice, MenuVariant};
use mkea_core::backend::{BackendTuning, MemoryArm32Backend};
use mkea_core::bootstrap::{BootstrapPlanner, CoreConfig, SegmentInfo};
use mkea_core::profiles::above_and_below::{phase69_rect_builder_site, phase69_snapshot_offsets};
use mkea_core::profiles::TitleProfile;
use mkea_core::surface::{auto_scene_visit_decision, GraphicsPresentState, GraphicsTickAction};
use mkea_core::surface::{choose_logical_surface, scene_children_priority, surface_candidate_score, LogicalSurface};

fn backend() -> MemoryArm32Backend {
    MemoryArm32Backend::new(
        TitleProfile::Default,
        0x2000_0000,
        0x4000,
        0x3000_0000,
        0x1000,
        0x4000_0000,
        0x1000,
        BackendTuning { synthetic_network_fault_probes: false },
    )
}

fn cfg(argv0: &str) -> CoreConfig {
    CoreConfig {
        page_size: 0x1000,
        stack_base: 0x7000_0000,
        stack_size: 0x10_0000,
        heap_base: 0x2000_0000,
        heap_size: 0x10_0000,
        selector_pool_base: 0x3000_0000,
        selector_pool_size: 0x1000,
        trampoline_addr: 0x6fff_0000,
        trampoline_size: 0x1000,
        argv0: argv0.to_string(),
    }
}

fn seg(name: &str, vmaddr: u32, vmsize: u32) -> SegmentInfo {
    SegmentInfo { name: name.to_string(), vmaddr, vmsize, fileoff: 0, filesize: vmsize, initprot: 5 }
}

#[test]
fn plan_layout_skips_guard_and_empty_segments_and_sets_thumb_entry() {
    let planner = BootstrapPlanner::new(cfg(""));
    let segs = vec![seg("__PAGEZERO", 0, 0x1000), seg("__TEXT", 0x1000, 0x2800), seg("__EMPTY", 0x9000, 0)];
    let p = planner.plan_layout(&segs, Some(0x1235), "Game").unwrap();
    assert_eq!(p.mapped_regions.len(), 6);
    assert_eq!(p.mapped_regions[0].name, "__TEXT");
    assert_eq!(p.mapped_regions[0].start, 0x1000);
    assert_eq!(p.mapped_regions[0].end, 0x4000);
    assert_eq!(p.mapped_regions[1].name, "stack");
    assert_eq!(p.mapped_regions[5].name, "trampoline");
    assert_eq!(p.entry.pc, 0x1234);
    assert!(p.entry.thumb);
    assert_eq!(p.stack.argv0, "Game");
    assert_eq!(p.registers.r0, 1);
    assert_eq!(p.registers.r1, p.stack.argv_ptr);
    assert_eq!(p.registers.sp, p.stack.sp);
    assert_eq!(p.registers.pc, 0x1234);
    assert_eq!(
        p.warnings,
        vec![
            "__PAGEZERO intentionally left unmapped as a guard region".to_string(),
            "segment __EMPTY has zero vmsize and was skipped".to_string(),
        ]
    );
}

#[test]
fn plan_layout_warns_when_entry_is_unmapped_and_fails_without_entry() {
    let planner = BootstrapPlanner::new(cfg("custom"));
    let segs = vec![seg("__TEXT", 0x1000, 0x1000)];
    let p = planner.plan_layout(&segs, Some(0x0000_0800), "Game").unwrap();
    assert!(!p.entry.thumb);
    assert_eq!(p.stack.argv0, "custom");
    assert_eq!(
        p.warnings,
        vec!["entry PC 0x00000800 does not land inside any mapped image region".to_string()]
    );
    let err = planner.plan_layout(&segs, None, "Game").unwrap_err();
    assert_eq!(err.message(), "Mach-O does not expose LC_MAIN or LC_UNIXTHREAD entry PC");
    let bad = vec![seg("__TEXT", 0xffff_f000, 0x2000)];
    let err = planner.plan_layout(&bad, Some(0x1000), "Game").unwrap_err();
    assert_eq!(err.message(), "segment __TEXT overflows guest address space");
}

#[test]
fn logical_surface_picks_best_candidate_and_moves_a_following_viewport() {
    assert_eq!(surface_candidate_score(320, 480, 16, 480, 300), None);
    // direct delta 0, swapped delta 320: portrait bonus 16, fullscreen 32.
    assert_eq!(surface_candidate_score(320, 480, 320, 480, 180), Some(228));
    // rotated: swapped delta 0, direct delta 320: bonus 48 + 32.
    assert_eq!(surface_candidate_score(320, 480, 480, 320, 240), Some(320));
    let cands = vec![(320u32, 480u32, 180u32), (480, 320, 240), (5000, 320, 999)];
    assert_eq!(choose_logical_surface(320, 480, &cands), Some((480, 320)));
    assert_eq!(choose_logical_surface(480, 320, &vec![(480, 320, 300)]), None);
    assert_eq!(choose_logical_surface(0, 0, &vec![]), None);
    let mut s = LogicalSurface {
        surface_width: 320,
        surface_height: 480,
        viewport_x: 0,
        viewport_y: 0,
        viewport_width: 320,
        viewport_height: 480,
    };
    assert_eq!(s.sync_from_candidates(&cands), Some((480, 320)));
    assert_eq!((s.surface_width, s.surface_height, s.viewport_width, s.viewport_height), (480, 320, 480, 320));
    let mut kept = LogicalSurface { viewport_x: 10, ..s };
    kept.resize(1024, 768);
    assert_eq!((kept.viewport_width, kept.viewport_height, kept.viewport_x), (480, 320, 10));
    assert_eq!(scene_children_priority(600, 320, 400, 320, 480), 360);
    assert_eq!(scene_children_priority(410, 320, 400, 320, 480), 240);
}

#[test]
fn menu_variant_choices_follow_score_margins() {
    assert_eq!(default_variant_choice(2, 3, 100, 2000, 50), Some(MenuVariant::Selected));
    assert_eq!(default_variant_choice(0, 3, 100, 100, 2000), Some(MenuVariant::Disabled));
    assert_eq!(default_variant_choice(2, 3, 1900, 2000, 50), None);
    assert_eq!(promoted_variant_choice(1, 2, 3, 1000, 9000, 9000), Some((MenuVariant::Selected, 2, 9000)));
    assert_eq!(promoted_variant_choice(1, 2, 3, 3000, 9000, 100), None);
    assert_eq!(promoted_variant_choice(0, 2, 0, 0, 8192, 0), Some((MenuVariant::Selected, 2, 8192)));
    assert_eq!(promoted_variant_choice(2, 2, 0, 0, 9000, 0), None);
    let mut b = backend();
    b.show_only_variant(0x100, 0x200, 0, 0x200);
    assert!(!b.sprite_or_default(0x100).visible);
    assert!(b.sprite_or_default(0x200).visible);
}

#[test]
fn attach_moves_a_child_between_parents_by_z_order() {
    let mut b = backend();
    assert_eq!(b.attach_child_to_node(0, 0x500, 0, None), AttachOutcome::Ignored);
    assert_eq!(b.attach_child_to_node(0x400, 0x500, 0, None), AttachOutcome::Attached { index: 0 });
    assert_eq!(b.attach_child_to_node(0x400, 0x600, 5, Some(9)), AttachOutcome::Attached { index: 1 });
    assert_eq!(b.attach_child_to_node(0x400, 0x700, 1, None), AttachOutcome::Attached { index: 1 });
    let kids = b.sprite_or_default(0x400).children;
    assert_eq!(b.synthetic_array_len(kids), 3);
    assert_eq!(b.synthetic_array_get(kids, 1), 0x700);
    assert_eq!(b.sprite_or_default(0x600).tag, 9);
    assert_eq!(b.sprite_or_default(0x600).z_order, 5);
    // A parent cannot be attached under its own child.
    assert_eq!(b.attach_child_to_node(0x500, 0x400, 0, None), AttachOutcome::CycleBlocked);
    assert_eq!(b.attach_child_to_node(0x800, 0x600, 0, None), AttachOutcome::Attached { index: 0 });
    assert_eq!(b.sprite_or_default(0x600).parent, 0x800);
    assert_eq!(b.synthetic_array_len(kids), 2);
    assert_eq!(b.synthetic_array_position(kids, 0x600), None);
}

#[test]
fn runtime_state_snapshot_reports_heap_and_network() {
    let mut b = backend();
    assert_eq!(b.runtime_state_snapshot().heap.base, 0x2000_0000);
    b.map(0x2000_0000, 0x4000, 3).unwrap();
    let p = b.handle_guest_malloc(24);
    let r = b.runtime_state_snapshot();
    assert_eq!(r.heap.allocations_active, 1);
    assert_eq!(r.heap.base, p);
    assert_eq!(r.network.payload_len, 128);
    assert_eq!(r.network.last_error_code, None);
    assert_eq!(r.runloop.ticks, 0);
}

#[test]
fn phase69_trace_formats_branch_specific_snapshot() {
    let sp = 0x1000u32;
    let mut mem = HashMap::new();
    mem.insert(sp + 0xc4, 1.25f32.to_bits());
    mem.insert(sp + 0xc8, 2.5f32.to_bits());
    mem.insert(sp + 0xcc, 62.0f32.to_bits());
    mem.insert(sp + 0xd0, 202.0f32.to_bits());
    mem.insert(sp, 12.0f32.to_bits());
    mem.insert(sp + 4, 62.0f32.to_bits());
    mem.insert(sp + 8, 202.0f32.to_bits());

    let (branch, offset) =
        phase69_rect_builder_site(0x0001d820, sp, sp + 4, 4).expect("phase69 branch should emit a trace");
    assert_eq!(offset, 4);
    let f = |off: u32| f32::from_bits(mem.get(&(sp + off)).copied().unwrap_or(0));
    let offs = phase69_snapshot_offsets(branch);
    assert_eq!(offs.len(), 7);
    let r3 = 9.0f32;
    let trace = format!(
        "branch={} prep=({:.3},{:.3} {:.3}x{:.3}) final=(r3={:.3},{:.3} {:.3}x{:.3})",
        branch,
        f(offs[0]),
        f(offs[1]),
        f(offs[2]),
        f(offs[3]),
        r3,
        f(offs[4]),
        f(offs[5]),
        f(offs[6]),
    );
    assert!(trace.contains("branch=62x202"));
    assert!(trace.contains("prep=(1.250,2.500 62.000x202.000)"));
    assert!(trace.contains("final=(r3=9.000,12.000 62.000x202.000)"));
}

#[test]
fn multiplex_switch_shows_only_the_target_layer_and_stores_the_index() {
    let mut b = backend();
    b.map(0x1000, 0x1000, 3).unwrap();
    let m = 0x1000u32;
    assert_eq!(b.try_handle_ccmultiplex_switch(m, 0), MultiplexSwitch::LayersMissing);
    let layers = b.alloc_synthetic_array("layers".to_string());
    b.write_u32_le(m + 0x9c, layers).unwrap();
    assert_eq!(b.try_handle_ccmultiplex_switch(m, 0), MultiplexSwitch::LayersEmpty);
    b.synthetic_array_push(layers, 0x900);
    b.synthetic_array_push(layers, 0xa00);
    assert_eq!(b.try_handle_ccmultiplex_switch(m, 2), MultiplexSwitch::OutOfRange { count: 2 });
    assert_eq!(b.attach_child_to_node(m, 0x900, 0, None), AttachOutcome::Attached { index: 0 });
    let r = b.try_handle_ccmultiplex_switch(m, 1);
    assert_eq!(r, MultiplexSwitch::Switched { old_index: 0, old_layer: 0x900, target_layer: 0xa00, count: 2 });
    assert_eq!(b.read_u32_le(m + 0x98).unwrap(), 1);
    assert!(!b.sprite_or_default(0x900).visible);
    assert!(b.sprite_or_default(0xa00).visible);
    assert_eq!(b.sprite_or_default(0x900).parent, 0);
    assert_eq!(b.sprite_or_default(0xa00).parent, m);
}

#[test]
fn graphics_tick_walks_setup_then_presents() {
    let mut g = GraphicsPresentState {
        gl_calls: 0,
        layer_attached: false,
        context_current: false,
        surface_ready: false,
        framebuffer_complete: false,
        viewport_ready: false,
        surface: LogicalSurface {
            surface_width: 320,
            surface_height: 480,
            viewport_x: 5,
            viewport_y: 5,
            viewport_width: 0,
            viewport_height: 0,
        },
        present_calls: 0,
        frame_index: 0,
        last_visible_bbox_x: 0,
        last_visible_bbox_y: 0,
        last_visible_bbox_width: 0,
        last_visible_bbox_height: 0,
    };
    assert_eq!(g.simulate_graphics_tick(), GraphicsTickAction::AttachLayer);
    assert_eq!(g.simulate_graphics_tick(), GraphicsTickAction::MakeContextCurrent);
    assert_eq!(g.simulate_graphics_tick(), GraphicsTickAction::AllocateSurface);
    assert_eq!((g.surface.viewport_x, g.surface.viewport_width, g.surface.viewport_height), (0, 320, 480));
    assert_eq!(g.simulate_graphics_tick(), GraphicsTickAction::Present);
    assert_eq!(g.gl_calls, 4);
    let d = auto_scene_visit_decision(&g, true, false, true, 0);
    assert!(d.allow && d.guest_clear_only && d.visit && !d.partial_retained);
    g.present_calls = 3;
    g.frame_index = 3;
    g.last_visible_bbox_width = 100;
    g.last_visible_bbox_height = 100;
    let d = auto_scene_visit_decision(&g, true, false, false, 0);
    assert!(d.allow && d.partial_retained && d.visit);
    let d = auto_scene_visit_decision(&g, true, false, true, 5);
    assert!(!d.allow && !d.visit);
    let d = auto_scene_visit_decision(&g, false, true, false, 0);
    assert!(!d.allow && !d.visit && !d.partial_retained);
}

#[test]
fn font_rows_fold_case_and_blank_unknown_characters() {
    assert_eq!(ab_font5x7_rows('A'), [0b01110, 0b10001, 0b10001, 0b11111, 0b10001, 0b10001, 0b10001]);
    assert_eq!(ab_font5x7_rows('a'), ab_font5x7_rows('A'));
    assert_eq!(ab_font5x7_rows('-'), [0, 0, 0, 0b11111, 0, 0, 0]);
    assert_eq!(ab_font5x7_rows('~'), [0; 7]);
}

#[test]
fn guest_graph_walk_prunes_stale_children_and_links_listed_ones() {
    let mut b = backend();
    // 0x400 holds 0x500 (seen in the guest's graph before) and 0x600 (never seen).
    assert_eq!(b.attach_child_to_node(0x400, 0x500, 0, None), AttachOutcome::Attached { index: 0 });
    assert_eq!(b.attach_child_to_node(0x400, 0x600, 0, None), AttachOutcome::Attached { index: 1 });
    let mut st = b.sprite_or_default(0x500);
    st.guest_graph_observed = true;
    b.set_sprite_state(0x500, st);
    let mut walk = GuestGraphWalk::new(0x400);
    assert_eq!(b.next_guest_graph_node(&mut walk), Some(0x400));
    assert!(b.sprite_or_default(0x400).guest_graph_observed);
    let out = b.reconcile_guest_children(&mut walk, 0x400, Some(vec![(0x700, 3), (0, 0), (0x600, 1)]));
    assert_eq!(out[1], GuestChildLink::Skipped);
    assert!(matches!(out[0], GuestChildLink::Attached { .. }));
    assert!(matches!(out[2], GuestChildLink::Moved { .. }));
    let kids = b.sprite_or_default(0x400).children;
    assert_eq!(b.synthetic_array_position(kids, 0x500), None);
    assert_eq!(b.sprite_or_default(0x500).parent, 0);
    assert_eq!(b.synthetic_array_get(kids, 0), 0x600);
    assert_eq!(b.synthetic_array_get(kids, 1), 0x700);
    assert_eq!(walk.changes, 2);
    assert_eq!(walk.queue.iter().copied().collect::<Vec<u32>>(), vec![0x700, 0x600]);
    assert_eq!(b.next_guest_graph_node(&mut walk), Some(0x700));
    assert_eq!(b.reconcile_guest_children(&mut walk, 0x700, None), vec![]);
    assert_eq!(b.next_guest_graph_node(&mut walk), Some(0x600));
    assert_eq!(b.next_guest_graph_node(&mut walk), None);
    // A node cannot be linked under its own child.
    let out = b.reconcile_guest_children(&mut walk, 0x700, Some(vec![(0x400, 0)]));
    assert_eq!(out, vec![GuestChildLink::Blocked]);
}

#[test]
fn scene_root_sync_ignores_unknown_roots() {
    let mut b = backend();
    b.runtime.ui_graphics.surface = LogicalSurface {
        surface_width: 320,
        surface_height: 480,
        viewport_x: 0,
        viewport_y: 0,
        viewport_width: 320,
        viewport_height: 480,
    };
    let cands = vec![(480u32, 320u32, 300u32)];
    assert_eq!(b.maybe_sync_logical_surface_from_scene_root(0, &cands), None);
    assert_eq!(b.maybe_sync_logical_surface_from_scene_root(0x900, &cands), None);
    assert_eq!(b.runtime.ui_graphics.surface.surface_width, 320);
    let st = b.sprite_or_default(0x900);
    b.set_sprite_state(0x900, st);
    assert_eq!(b.maybe_sync_logical_surface_from_scene_root(0x900, &cands), Some((480, 320)));
    assert_eq!((b.runtime.ui_graphics.surface.surface_width, b.runtime.ui_graphics.surface.viewport_width), (480, 480));
    assert_eq!(b.simulate_graphics_tick(), GraphicsTickAction::AttachLayer);
    assert_eq!(b.runtime.ui_graphics.gl_calls, 1);
}
