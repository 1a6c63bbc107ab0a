use mkea_core::backend::nodes::SYNTHETIC_UI_OBJECT_BASE;
use mkea_core::backend::{BackendTuning, MemoryArm32Backend};
use mkea_core::profiles::TitleProfile;

fn backend() -> MemoryArm32Backend {
    MemoryArm32Backend::new(
        TitleProfile::Default,
        0x2000_0000,
        0x4000,
        0x3000_0000,
        0x1000,
        0x4000_0000,
        0x1000,
        BackendTuning { synthetic_network_fault_probes: false },
    )
}

fn set_parent(b: &mut MemoryArm32Backend, node: u32, parent: u32) {
    let mut st = b.sprite_or_default(node);
    st.parent = parent;
    b.set_sprite_state(node, st);
}

fn set_z(b: &mut MemoryArm32Backend, node: u32, z: i32) {
    let mut st = b.sprite_or_default(node);
    st.z_order = z;
    b.set_sprite_state(node, st);
}

#[test]
fn synthetic_objects_are_handed_out_in_steps_of_0x20() {
    let mut b = backend();
    let first = b.alloc_synthetic_ui_object("CCSprite".to_string());
    let second = b.alloc_synthetic_array("NSMutableArray".to_string());
    assert_eq!(first, SYNTHETIC_UI_OBJECT_BASE);
    assert_eq!(first, 0x6fff_0800);
    assert_eq!(second, 0x6fff_0820);
    assert_eq!(b.object_label(first), Some("CCSprite"));
    assert_eq!(b.object_label(second), Some("NSMutableArray"));
    assert_eq!(b.synthetic_array_len(second), 0);
}

#[test]
fn append_unique_keeps_one_copy() {
    let mut b = backend();
    let a = b.alloc_synthetic_array("arr".to_string());
    assert_eq!(b.synthetic_array_append_unique(a, 7), 0);
    assert_eq!(b.synthetic_array_append_unique(a, 9), 1);
    assert_eq!(b.synthetic_array_append_unique(a, 7), 0);
    assert_eq!(b.synthetic_array_len(a), 2);
    assert_eq!(b.synthetic_array_get(a, 1), 9);
    assert_eq!(b.synthetic_array_get(a, 5), 0);
    assert_eq!(b.synthetic_array_position(a, 9), Some(1));
    assert_eq!(b.synthetic_array_position(a, 3), None);
}

#[test]
fn push_insert_or_move_and_remove() {
    let mut b = backend();
    let a = 0x5000;
    assert_eq!(b.synthetic_array_push(a, 1), 0);
    assert_eq!(b.synthetic_array_push(a, 2), 1);
    assert_eq!(b.synthetic_array_push(a, 3), 2);
    // moving 3 to the front
    assert_eq!(b.synthetic_array_insert_or_move(a, 0, 3), 0);
    assert_eq!(b.synthetic_array_get(a, 0), 3);
    assert_eq!(b.synthetic_array_get(a, 1), 1);
    assert_eq!(b.synthetic_array_get(a, 2), 2);
    // an index past the end appends
    assert_eq!(b.synthetic_array_insert_or_move(a, 99, 1), 2);
    assert_eq!(b.synthetic_array_get(a, 2), 1);
    assert!(b.synthetic_array_remove_value(a, 2));
    assert!(!b.synthetic_array_remove_value(a, 42));
    assert_eq!(b.synthetic_array_len(a), 2);
}

#[test]
fn children_array_is_made_once_and_labelled() {
    let mut b = backend();
    let node = 0x1234;
    let arr = b.ensure_node_children_array(node);
    assert_eq!(arr, SYNTHETIC_UI_OBJECT_BASE);
    assert_eq!(b.object_label(arr), Some("CCNode.children@0x00001234"));
    assert_eq!(b.sprite_or_default(node).children, arr);
    assert_eq!(b.ensure_node_children_array(node), arr);

    let layer = b.alloc_synthetic_ui_object("CCLayer".to_string());
    let layer_children = b.ensure_node_children_array(layer);
    assert_eq!(b.object_label(layer_children), Some("CCLayer.children"));
}

#[test]
fn insert_index_follows_z_order() {
    let mut b = backend();
    let parent = 0x100;
    let children = b.ensure_node_children_array(parent);
    let (x, y, z) = (0x200, 0x300, 0x400);
    set_z(&mut b, x, 0);
    set_z(&mut b, y, 5);
    b.synthetic_array_push(children, x);
    b.synthetic_array_push(children, y);
    assert_eq!(b.synthetic_child_insert_index_for_z(parent, z, 3), 1);
    assert_eq!(b.synthetic_child_insert_index_for_z(parent, z, 10), 2);
    assert_eq!(b.synthetic_child_insert_index_for_z(parent, z, -1), 0);
    // a child already in the list is counted as taken out
    assert_eq!(b.synthetic_child_insert_index_for_z(parent, x, 10), 1);
    assert_eq!(b.synthetic_child_insert_index_for_z(0x999, z, 3), 0);
    assert!(b.synthetic_parent_contains_child(parent, y));
    assert!(!b.synthetic_parent_contains_child(parent, z));
    assert!(!b.synthetic_parent_contains_child(0, y));
}

#[test]
fn detaching_takes_the_child_out_and_clears_its_parent() {
    let mut b = backend();
    let parent = 0x100;
    let children = b.ensure_node_children_array(parent);
    let child = 0x200;
    b.synthetic_array_push(children, child);
    set_parent(&mut b, child, parent);
    b.detach_child_from_parent(child);
    assert_eq!(b.sprite_or_default(child).parent, 0);
    assert_eq!(b.synthetic_array_len(children), 0);
    assert!(!b.synthetic_parent_contains_child(parent, child));
}

#[test]
fn attaching_a_node_under_itself_is_a_loop() {
    let b = backend();
    assert_eq!(b.would_create_synthetic_cycle(0x10, 0x10), Some(vec![0x10, 0x10]));
    assert_eq!(b.would_create_synthetic_cycle(0, 0x10), None);
    assert_eq!(b.would_create_synthetic_cycle(0x10, 0), None);
}

#[test]
fn attaching_an_ancestor_closes_a_loop() {
    let mut b = backend();
    let (a, c, d) = (0x10, 0x20, 0x30);
    set_parent(&mut b, c, a);
    set_parent(&mut b, d, c);
    // putting `a` under its grandchild `d`
    let cycle = b.would_create_synthetic_cycle(d, a).unwrap();
    assert_eq!(cycle, vec![a, c, d, a]);
    assert_eq!(cycle.first(), cycle.last());
    // an unrelated node closes no loop
    assert_eq!(b.would_create_synthetic_cycle(d, 0x40), None);
}

#[test]
fn a_parent_chain_that_loops_is_reported() {
    let mut b = backend();
    let (p, q, r) = (0x10, 0x20, 0x30);
    set_parent(&mut b, p, q);
    set_parent(&mut b, q, p);
    let cycle = b.would_create_synthetic_cycle(p, r).unwrap();
    assert_eq!(cycle, vec![p, q, p]);
}

fn add_child(b: &mut MemoryArm32Backend, parent: u32, child: u32) {
    let children = b.ensure_node_children_array(parent);
    b.synthetic_array_push(children, child);
    set_parent(b, child, parent);
}

#[test]
fn reachable_nodes_are_listed_depth_first_once() {
    let mut b = backend();
    let (root, a, c, d) = (0x10, 0x20, 0x30, 0x40);
    add_child(&mut b, root, a);
    add_child(&mut b, root, d);
    add_child(&mut b, a, c);
    // a loop back to the root and a null entry are skipped
    add_child(&mut b, c, root);
    let arr = b.sprite_or_default(c).children;
    b.synthetic_array_push(arr, 0);
    let mut out = Vec::new();
    let mut seen = std::collections::HashSet::new();
    b.collect_reachable_synthetic_nodes(root, &mut out, &mut seen, 0);
    assert_eq!(out, vec![root, a, c, d]);
    assert_eq!(seen.len(), 4);
    // walking again with the same `seen` adds nothing
    b.collect_reachable_synthetic_nodes(a, &mut out, &mut seen, 0);
    assert_eq!(out.len(), 4);
    // past the depth limit nothing is listed
    let mut fresh = Vec::new();
    let mut fresh_seen = std::collections::HashSet::new();
    b.collect_reachable_synthetic_nodes(root, &mut fresh, &mut fresh_seen, 64);
    assert!(fresh.is_empty());
    b.collect_reachable_synthetic_nodes(root, &mut fresh, &mut fresh_seen, 63);
    assert_eq!(fresh, vec![root]);
}

#[test]
fn entering_marks_the_whole_subtree_once() {
    let mut b = backend();
    let (root, a, c, d) = (0x10, 0x20, 0x30, 0x40);
    add_child(&mut b, root, a);
    add_child(&mut b, root, d);
    add_child(&mut b, a, c);
    assert_eq!(b.propagate_entered_recursive(root, true), 4);
    for n in [root, a, c, d] {
        assert!(b.sprite_or_default(n).entered);
    }
    assert_eq!(b.sprite_or_default(a).parent, root);
    assert_eq!(b.propagate_entered_recursive(a, false), 2);
    assert!(b.sprite_or_default(root).entered);
    assert!(!b.sprite_or_default(a).entered);
    assert!(!b.sprite_or_default(c).entered);
    assert!(b.sprite_or_default(d).entered);
    assert_eq!(b.propagate_entered_recursive(0, true), 0);
    // a loop in the graph is walked once
    add_child(&mut b, c, root);
    assert_eq!(b.propagate_entered_recursive(c, false), 4);
    assert!(!b.sprite_or_default(d).entered);
}
