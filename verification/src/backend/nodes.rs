//! The synthetic node graph: nodes (sprites, layers, scenes) with a parent
//! and a children array, the synthetic arrays that hold the children, and
//! the objects handed out for them.
use vstd::prelude::*;
use std::collections::HashMap;
use crate::memory::sat_add_u32;
use crate::text::{hex_prefixed, push_hex_prefixed};
use super::MemoryArm32Backend;
use super::guest_strings::{labels_view, lemma_labels_view_insert};

verus! {

/// Where the first synthetic UI object is placed.
pub const SYNTHETIC_UI_OBJECT_BASE: u32 = 0x6fff0800;

/// A synthetic node. Geometry is held as single-precision bit patterns.
#[derive(Debug, Clone, Copy)]
pub struct SyntheticSpriteState {
    pub texture: u32,
    pub width: u32,
    pub height: u32,
    pub anchor_x_bits: u32,
    pub anchor_y_bits: u32,
    pub anchor_explicit: bool,
    pub anchor_pixels_x_bits: u32,
    pub anchor_pixels_y_bits: u32,
    pub anchor_pixels_explicit: bool,
    pub position_x_bits: u32,
    pub position_y_bits: u32,
    pub position_bl_x_bits: u32,
    pub position_bl_y_bits: u32,
    pub position_bl_explicit: bool,
    pub scale_x_bits: u32,
    pub scale_y_bits: u32,
    pub scale_explicit: bool,
    pub last_guest_scale_tick: u32,
    pub texture_rect_x_bits: u32,
    pub texture_rect_y_bits: u32,
    pub texture_rect_w_bits: u32,
    pub texture_rect_h_bits: u32,
    pub texture_rect_explicit: bool,
    pub untrimmed_w_bits: u32,
    pub untrimmed_h_bits: u32,
    pub untrimmed_explicit: bool,
    pub offset_x_bits: u32,
    pub offset_y_bits: u32,
    pub offset_explicit: bool,
    pub flip_x: bool,
    pub flip_y: bool,
    pub fill_rgba: [u8; 4],
    pub fill_rgba_explicit: bool,
    pub relative_anchor_point: bool,
    pub relative_anchor_point_explicit: bool,
    pub parent: u32,
    pub children: u32,
    pub z_order: i32,
    pub tag: u32,
    pub visible: bool,
    pub touch_enabled: bool,
    pub entered: bool,
    pub callback_target: u32,
    pub callback_selector: u32,
    pub animation_dictionary: u32,
    pub last_display_frame_key: u32,
    pub last_display_frame_index: u32,
    pub guest_graph_observed: bool,
    pub content_revision: u32,
}

/// A synthetic `NSArray`: its items and how often it was changed.
#[derive(Debug, Clone)]
pub struct SyntheticArray {
    pub items: Vec<u32>,
    pub mutation_count: u32,
}

/// The node graph and the arrays and objects it uses.
#[derive(Debug, Clone)]
pub struct BackendGraphicsState {
    pub synthetic_arrays: HashMap<u32, SyntheticArray>,
    pub synthetic_sprites: HashMap<u32, SyntheticSpriteState>,
    pub synthetic_ui_object_cursor: u32,
}

impl BackendGraphicsState {
    /// No nodes or arrays; objects are handed out from
    /// `SYNTHETIC_UI_OBJECT_BASE`.
    pub fn new() -> (g: Self)
        ensures
            g.synthetic_arrays@ == Map::<u32, SyntheticArray>::empty(),
            g.synthetic_sprites@ == Map::<u32, SyntheticSpriteState>::empty(),
            g.synthetic_ui_object_cursor == SYNTHETIC_UI_OBJECT_BASE,
    {
        BackendGraphicsState {
            synthetic_arrays: HashMap::new(),
            synthetic_sprites: HashMap::new(),
            synthetic_ui_object_cursor: SYNTHETIC_UI_OBJECT_BASE,
        }
    }
}

/// A node nobody configured yet: visible, everything else zero.
pub open spec fn default_sprite() -> SyntheticSpriteState {
    SyntheticSpriteState {
        texture: 0,
        width: 0,
        height: 0,
        anchor_x_bits: 0,
        anchor_y_bits: 0,
        anchor_explicit: false,
        anchor_pixels_x_bits: 0,
        anchor_pixels_y_bits: 0,
        anchor_pixels_explicit: false,
        position_x_bits: 0,
        position_y_bits: 0,
        position_bl_x_bits: 0,
        position_bl_y_bits: 0,
        position_bl_explicit: false,
        scale_x_bits: 0,
        scale_y_bits: 0,
        scale_explicit: false,
        last_guest_scale_tick: 0,
        texture_rect_x_bits: 0,
        texture_rect_y_bits: 0,
        texture_rect_w_bits: 0,
        texture_rect_h_bits: 0,
        texture_rect_explicit: false,
        untrimmed_w_bits: 0,
        untrimmed_h_bits: 0,
        untrimmed_explicit: false,
        offset_x_bits: 0,
        offset_y_bits: 0,
        offset_explicit: false,
        flip_x: false,
        flip_y: false,
        fill_rgba: [0u8, 0u8, 0u8, 0u8],
        fill_rgba_explicit: false,
        relative_anchor_point: false,
        relative_anchor_point_explicit: false,
        parent: 0,
        children: 0,
        z_order: 0,
        tag: 0,
        visible: true,
        touch_enabled: false,
        entered: false,
        callback_target: 0,
        callback_selector: 0,
        animation_dictionary: 0,
        last_display_frame_key: 0,
        last_display_frame_index: 0,
        guest_graph_observed: false,
        content_revision: 0,
    }
}

/// The state of node `n`, or a fresh one.
pub open spec fn sprite_of(g: BackendGraphicsState, n: u32) -> SyntheticSpriteState {
    if g.synthetic_sprites@.contains_key(n) {
        g.synthetic_sprites@[n]
    } else {
        default_sprite()
    }
}

/// The parent of node `n` (0 for none or an unknown node).
pub open spec fn parent_of(g: BackendGraphicsState, n: u32) -> u32 {
    sprite_of(g, n).parent
}

/// The children array of node `n` (0 for none or an unknown node).
pub open spec fn children_of(g: BackendGraphicsState, n: u32) -> u32 {
    sprite_of(g, n).children
}

/// The z order of node `n` (0 for an unknown node).
pub open spec fn z_of(g: BackendGraphicsState, n: u32) -> i32 {
    sprite_of(g, n).z_order
}

/// The items of array `a` (none for an unknown array).
pub open spec fn arr_items(g: BackendGraphicsState, a: u32) -> Seq<u32> {
    if g.synthetic_arrays@.contains_key(a) {
        g.synthetic_arrays@[a].items@
    } else {
        Seq::empty()
    }
}

/// How often array `a` was changed (0 for an unknown array).
pub open spec fn arr_count(g: BackendGraphicsState, a: u32) -> u32 {
    if g.synthetic_arrays@.contains_key(a) {
        g.synthetic_arrays@[a].mutation_count
    } else {
        0
    }
}

/// The index of the first `v` in `s`, or the length of `s` when it has none.
pub open spec fn first_index(s: Seq<u32>, v: u32) -> int
    decreases s.len(),
{
    if s.len() == 0 {
        0
    } else if s[0] == v {
        0
    } else {
        1 + first_index(s.drop_first(), v)
    }
}

/// `g1` is `g0` with array `a` (created if needed) holding `items` and
/// changed `count` times.
pub open spec fn array_set(g0: BackendGraphicsState, g1: BackendGraphicsState, a: u32, items: Seq<u32>, count: u32) -> bool {
    &&& g1.synthetic_arrays@.dom() == g0.synthetic_arrays@.dom().insert(a)
    &&& g1.synthetic_arrays@[a].items@ == items
    &&& g1.synthetic_arrays@[a].mutation_count == count
    &&& forall|k: u32|
        k != a && #[trigger] g0.synthetic_arrays@.contains_key(k) ==> g1.synthetic_arrays@[k] == g0.synthetic_arrays@[k]
    &&& g1.synthetic_sprites == g0.synthetic_sprites
    &&& g1.synthetic_ui_object_cursor == g0.synthetic_ui_object_cursor
}

/// Only the node graph and, with `labels`, the object labels differ between
/// `a` and `b`.
pub open spec fn graphics_frame(a: MemoryArm32Backend, b: MemoryArm32Backend, labels: bool) -> bool {
    &&& b.cpu == a.cpu
    &&& b.execution == a.execution
    &&& b.address_space == a.address_space
    &&& b.diag.symbol_labels == a.diag.symbol_labels
    &&& b.diag.writes == a.diag.writes
    &&& (!labels ==> b.diag.object_labels == a.diag.object_labels)
    &&& b.runtime.heap == a.runtime.heap
    &&& b.runtime.objc == a.runtime.objc
    &&& b.runtime.ui_network == a.runtime.ui_network
    &&& b.runtime.network_fault_history == a.runtime.network_fault_history
    &&& b.runtime.ui_objects == a.runtime.ui_objects
    &&& b.runtime.ui_runtime == a.runtime.ui_runtime
    &&& b.runtime.openal == a.runtime.openal
    &&& b.runtime.audio_queue == a.runtime.audio_queue
    &&& b.runtime.recent_gl_calls == a.runtime.recent_gl_calls
    &&& b.runtime.gl_call_counts == a.runtime.gl_call_counts
    &&& b.runtime.foundation == a.runtime.foundation
    &&& b.runtime.textures == a.runtime.textures
    &&& b.runtime.ui_graphics == a.runtime.ui_graphics
    &&& b.profile == a.profile
    &&& b.tuning == a.tuning
}

/// What detaching `child` does to the node graph: its first occurrence
/// leaves the children array of its parent (which is created when it was
/// missing), and its parent becomes 0.
pub open spec fn detach_effect(g0: BackendGraphicsState, g1: BackendGraphicsState, child: u32) -> bool {
    &&& detach_arrays(g0, g1, child)
    &&& g1.synthetic_sprites@ == if child != 0 {
        g0.synthetic_sprites@.insert(child, SyntheticSpriteState { parent: 0, ..sprite_of(g0, child) })
    } else {
        g0.synthetic_sprites@
    }
    &&& g1.synthetic_ui_object_cursor == g0.synthetic_ui_object_cursor
}

/// The arrays part of `detach_effect`.
pub open spec fn detach_arrays(g0: BackendGraphicsState, g1: BackendGraphicsState, child: u32) -> bool {
    let old_parent = parent_of(g0, child);
    let children = children_of(g0, old_parent);
    let s = arr_items(g0, children);
    if old_parent != 0 && children != 0 {
        &&& g1.synthetic_arrays@.dom() == g0.synthetic_arrays@.dom().insert(children)
        &&& g1.synthetic_arrays@[children].items@ == if s.contains(child) {
            s.remove(first_index(s, child))
        } else {
            s
        }
        &&& g1.synthetic_arrays@[children].mutation_count == if s.contains(child) {
            sat_add_u32(arr_count(g0, children), 1)
        } else {
            arr_count(g0, children)
        }
        &&& forall|k: u32|
            k != children && #[trigger] g0.synthetic_arrays@.contains_key(k) ==> g1.synthetic_arrays@[k]
                == g0.synthetic_arrays@[k]
    } else {
        g1.synthetic_arrays == g0.synthetic_arrays
    }
}

/// The index of the first item of `items` that is neither 0 nor `child`
/// and has a z order above `z`, or the length when none has.
pub open spec fn first_above(g: BackendGraphicsState, items: Seq<u32>, child: u32, z: i32) -> int
    decreases items.len(),
{
    if items.len() == 0 {
        0
    } else if items[0] != 0 && items[0] != child && z < z_of(g, items[0]) {
        0
    } else {
        1 + first_above(g, items.drop_first(), child, z)
    }
}

/// Where `child` goes among the children of `parent` for z order `z`:
/// before the first other child with a higher z order (counted as if
/// `child` were already taken out of the list), at the end otherwise.
pub open spec fn spec_insert_index_for_z(g: BackendGraphicsState, parent: u32, child: u32, z: i32) -> int {
    let children = children_of(g, parent);
    let items = arr_items(g, children);
    if children == 0 || items.len() == 0 {
        0
    } else {
        let at = first_above(g, items, child, z);
        let existing = first_index(items, child);
        if existing < items.len() && existing < at {
            at - 1
        } else {
            at
        }
    }
}

/// The label of the children array made for node `node`: the node's own
/// label followed by `.children`, or `CCNode.children@` and its address.
pub open spec fn children_label(labels: Map<u32, Seq<char>>, node: u32) -> Seq<char> {
    if labels.contains_key(node) {
        labels[node] + ".children"@
    } else {
        "CCNode.children@"@ + hex_prefixed(node as nat, 8)
    }
}

/// The sequences held by an optional vector.
pub open spec fn opt_seq(r: Option<Vec<u32>>) -> Option<Seq<u32>> {
    match r {
        Some(v) => Some(v@),
        None => None,
    }
}

/// Walking up the parents from `current` (at most `fuel` steps), with
/// `chain` the nodes passed so far: the loop that attaching `child` would
/// close (ending where it starts), or `None`.
pub open spec fn cycle_walk(g: BackendGraphicsState, child: u32, chain: Seq<u32>, current: u32, fuel: nat) -> Option<
    Seq<u32>,
>
    decreases fuel,
{
    if fuel == 0 || current == 0 {
        None
    } else if chain.contains(current) {
        Some(chain.skip(first_index(chain, current)).push(current))
    } else if current == child {
        Some(chain.push(current).reverse().push(child))
    } else {
        cycle_walk(g, child, chain.push(current), parent_of(g, current), (fuel - 1) as nat)
    }
}

/// The loop attaching `child` under `parent` would close: `child` itself
/// twice when they are the same node, otherwise the parent chain of
/// `parent` up to `child` (or up to a node met twice), looking at most 256
/// ancestors up.
pub open spec fn spec_attach_cycle(g: BackendGraphicsState, parent: u32, child: u32) -> Option<Seq<u32>> {
    if parent == 0 || child == 0 {
        None
    } else if parent == child {
        Some(seq![child, child])
    } else {
        cycle_walk(g, child, Seq::empty(), parent, 256)
    }
}

/// A loop found by the parent walk starts and ends at the same node.
pub proof fn lemma_cycle_walk_closed(g: BackendGraphicsState, child: u32, chain: Seq<u32>, current: u32, fuel: nat)
    ensures
        cycle_walk(g, child, chain, current, fuel) matches Some(l) ==> l.len() >= 2 && l[0] == l[l.len() - 1],
    decreases fuel,
{
    if fuel > 0 && current != 0 {
        if chain.contains(current) {
            let p = first_index(chain, current);
            lemma_first_index(chain, current);
            let l = chain.skip(p).push(current);
            assert(l[0] == chain[p]);
        } else if current == child {
            let l = chain.push(current).reverse().push(child);
            assert(l[0] == chain.push(current)[chain.len() as int]);
        } else {
            lemma_cycle_walk_closed(g, child, chain.push(current), parent_of(g, current), (fuel - 1) as nat);
        }
    }
}

/// Attaching a node under another can only close a loop that starts and
/// ends at the same node.
pub proof fn lemma_attach_cycle_closed(g: BackendGraphicsState, parent: u32, child: u32)
    ensures
        spec_attach_cycle(g, parent, child) matches Some(l) ==> l.len() >= 2 && l[0] == l[l.len() - 1],
{
    lemma_cycle_walk_closed(g, child, Seq::empty(), parent, 256);
}

/// The z-order insertion point keeps children sorted: it lies within the
/// list, every other child before it has a z order no higher than `z`, and
/// the child at it (if any) is another child with a higher one.
pub proof fn lemma_first_above(g: BackendGraphicsState, items: Seq<u32>, child: u32, z: i32)
    ensures
        0 <= first_above(g, items, child, z) <= items.len(),
        forall|j: int|
            0 <= j < first_above(g, items, child, z) && items[j] != 0 && items[j] != child ==> z_of(g, #[trigger] items[j])
                <= z,
        first_above(g, items, child, z) < items.len() ==> {
            let k = first_above(g, items, child, z);
            &&& items[k] != 0
            &&& items[k] != child
            &&& z < z_of(g, items[k])
        },
    decreases items.len(),
{
    if items.len() > 0 && !(items[0] != 0 && items[0] != child && z < z_of(g, items[0])) {
        let rest = items.drop_first();
        lemma_first_above(g, rest, child, z);
        assert forall|j: int|
            0 <= j < first_above(g, items, child, z) && items[j] != 0 && items[j] != child implies z_of(
            g,
            #[trigger] items[j],
        ) <= z by {
            if j > 0 {
                assert(items[j] == rest[j - 1]);
            }
        }
        if first_above(g, items, child, z) < items.len() {
            assert(items[first_above(g, items, child, z)] == rest[first_above(g, rest, child, z)]);
        }
    }
}

/// `first_index` finds the first occurrence.
pub proof fn lemma_first_index(s: Seq<u32>, v: u32)
    ensures
        0 <= first_index(s, v) <= s.len(),
        first_index(s, v) < s.len() <==> s.contains(v),
        first_index(s, v) < s.len() ==> s[first_index(s, v)] == v,
        forall|j: int| 0 <= j < first_index(s, v) ==> s[j] != v,
    decreases s.len(),
{
    if s.len() > 0 && s[0] != v {
        lemma_first_index(s.drop_first(), v);
        assert forall|j: int| 0 <= j < first_index(s, v) implies s[j] != v by {
            if j > 0 {
                assert(s[j] == s.drop_first()[j - 1]);
            }
        }
        if s.contains(v) {
            let k = choose|k: int| 0 <= k < s.len() && s[k] == v;
            assert(s.drop_first()[k - 1] == v);
        }
        if s.drop_first().contains(v) {
            let k = choose|k: int| 0 <= k < s.drop_first().len() && s.drop_first()[k] == v;
            assert(s[k + 1] == v);
        }
    } else if s.len() > 0 {
        assert(s[0] == v);
    }
}

/// The index of the first `v` in `items`, or their length.
fn find_item(items: &Vec<u32>, v: u32) -> (i: usize)
    ensures
        i == first_index(items@, v),
        i <= items@.len(),
        i < items@.len() <==> items@.contains(v),
        i < items@.len() ==> items@[i as int] == v,
{
    let mut i: usize = 0;
    assert(items@.skip(0) =~= items@);
    while i < items.len()
        invariant
            i <= items@.len(),
            forall|j: int| 0 <= j < i ==> items@[j] != v,
            first_index(items@, v) == i + first_index(items@.skip(i as int), v),
        decreases items@.len() - i,
    {
        if items[i] == v {
            assert(items@.skip(i as int)[0] == v);
            return i;
        }
        assert(items@.skip(i as int).drop_first() =~= items@.skip(i + 1));
        i = i + 1;
    }
    assert(items@.skip(i as int).len() == 0);
    proof {
        if items@.contains(v) {
            let k = choose|k: int| 0 <= k < items@.len() && items@[k] == v;
            assert(items@[k] != v);
        }
    }
    i
}

/// A fresh node state.
fn new_sprite_state() -> (st: SyntheticSpriteState)
    ensures
        st == default_sprite(),
{
    SyntheticSpriteState {
        texture: 0,
        width: 0,
        height: 0,
        anchor_x_bits: 0,
        anchor_y_bits: 0,
        anchor_explicit: false,
        anchor_pixels_x_bits: 0,
        anchor_pixels_y_bits: 0,
        anchor_pixels_explicit: false,
        position_x_bits: 0,
        position_y_bits: 0,
        position_bl_x_bits: 0,
        position_bl_y_bits: 0,
        position_bl_explicit: false,
        scale_x_bits: 0,
        scale_y_bits: 0,
        scale_explicit: false,
        last_guest_scale_tick: 0,
        texture_rect_x_bits: 0,
        texture_rect_y_bits: 0,
        texture_rect_w_bits: 0,
        texture_rect_h_bits: 0,
        texture_rect_explicit: false,
        untrimmed_w_bits: 0,
        untrimmed_h_bits: 0,
        untrimmed_explicit: false,
        offset_x_bits: 0,
        offset_y_bits: 0,
        offset_explicit: false,
        flip_x: false,
        flip_y: false,
        fill_rgba: [0u8, 0u8, 0u8, 0u8],
        fill_rgba_explicit: false,
        relative_anchor_point: false,
        relative_anchor_point_explicit: false,
        parent: 0,
        children: 0,
        z_order: 0,
        tag: 0,
        visible: true,
        touch_enabled: false,
        entered: false,
        callback_target: 0,
        callback_selector: 0,
        animation_dictionary: 0,
        last_display_frame_key: 0,
        last_display_frame_index: 0,
        guest_graph_observed: false,
        content_revision: 0,
    }
}

impl MemoryArm32Backend {
    /// Takes array `a` out of the table, or a fresh empty one.
    fn take_array(&mut self, a: u32) -> (arr: SyntheticArray)
        ensures
            graphics_frame(*old(self), *final(self), false),
            arr.items@ == arr_items(old(self).runtime.graphics, a),
            arr.mutation_count == arr_count(old(self).runtime.graphics, a),
            final(self).runtime.graphics.synthetic_arrays@ == old(self).runtime.graphics.synthetic_arrays@.remove(a),
            final(self).runtime.graphics.synthetic_sprites == old(self).runtime.graphics.synthetic_sprites,
            final(self).runtime.graphics.synthetic_ui_object_cursor == old(
                self,
            ).runtime.graphics.synthetic_ui_object_cursor,
    {
        match self.runtime.graphics.synthetic_arrays.remove(&a) {
            Some(arr) => arr,
            None => SyntheticArray { items: Vec::new(), mutation_count: 0 },
        }
    }

    /// Puts array `a` back into the table.
    fn put_array(&mut self, a: u32, arr: SyntheticArray)
        ensures
            graphics_frame(*old(self), *final(self), false),
            final(self).runtime.graphics.synthetic_arrays@ == old(self).runtime.graphics.synthetic_arrays@.insert(a, arr),
            final(self).runtime.graphics.synthetic_sprites == old(self).runtime.graphics.synthetic_sprites,
            final(self).runtime.graphics.synthetic_ui_object_cursor == old(
                self,
            ).runtime.graphics.synthetic_ui_object_cursor,
    {
        self.runtime.graphics.synthetic_arrays.insert(a, arr);
    }

    /// Makes sure array `a` exists (empty when it did not).
    pub fn ensure_synthetic_array(&mut self, a: u32)
        ensures
            graphics_frame(*old(self), *final(self), false),
            array_set(
                old(self).runtime.graphics,
                final(self).runtime.graphics,
                a,
                arr_items(old(self).runtime.graphics, a),
                arr_count(old(self).runtime.graphics, a),
            ),
    {
        let arr = self.take_array(a);
        self.put_array(a, arr);
        proof {
            let m0 = old(self).runtime.graphics.synthetic_arrays@;
            assert(self.runtime.graphics.synthetic_arrays@.dom() =~= m0.dom().insert(a));
        }
    }

    /// Number of items of array `a` (0 for an unknown array).
    pub fn synthetic_array_len(&self, a: u32) -> (n: usize)
        ensures
            n == arr_items(self.runtime.graphics, a).len(),
    {
        match self.runtime.graphics.synthetic_arrays.get(&a) {
            Some(arr) => arr.items.len(),
            None => 0,
        }
    }

    /// Item `index` of array `a`, or 0 when there is none.
    pub fn synthetic_array_get(&self, a: u32, index: usize) -> (v: u32)
        ensures
            v == (if index < arr_items(self.runtime.graphics, a).len() {
                arr_items(self.runtime.graphics, a)[index as int]
            } else {
                0
            }),
    {
        match self.runtime.graphics.synthetic_arrays.get(&a) {
            Some(arr) => {
                if index < arr.items.len() {
                    arr.items[index]
                } else {
                    0
                }
            },
            None => 0,
        }
    }

    /// Where `v` first occurs in array `a`, if it does.
    pub fn synthetic_array_position(&self, a: u32, v: u32) -> (r: Option<usize>)
        ensures
            r is Some <==> arr_items(self.runtime.graphics, a).contains(v),
            r matches Some(i) ==> i == first_index(arr_items(self.runtime.graphics, a), v),
    {
        match self.runtime.graphics.synthetic_arrays.get(&a) {
            Some(arr) => {
                let i = find_item(&arr.items, v);
                if i < arr.items.len() {
                    Some(i)
                } else {
                    None
                }
            },
            None => None,
        }
    }

    /// Appends `v` to array `a` (created if needed) unless it holds it
    /// already; returns where `v` is.
    pub fn synthetic_array_append_unique(&mut self, a: u32, v: u32) -> (i: usize)
        requires
            arr_items(old(self).runtime.graphics, a).len() < usize::MAX,
        ensures
            graphics_frame(*old(self), *final(self), false),
            ({
                let s = arr_items(old(self).runtime.graphics, a);
                let c = arr_count(old(self).runtime.graphics, a);
                if s.contains(v) {
                    i == first_index(s, v) && array_set(old(self).runtime.graphics, final(self).runtime.graphics, a, s, c)
                } else {
                    i == s.len() && array_set(
                        old(self).runtime.graphics,
                        final(self).runtime.graphics,
                        a,
                        s.push(v),
                        sat_add_u32(c, 1),
                    )
                }
            }),
    {
        let mut arr = self.take_array(a);
        let k = find_item(&arr.items, v);
        let r = if k < arr.items.len() {
            k
        } else {
            arr.items.push(v);
            arr.mutation_count = arr.mutation_count.saturating_add(1);
            arr.items.len() - 1
        };
        self.put_array(a, arr);
        proof {
            let m0 = old(self).runtime.graphics.synthetic_arrays@;
            assert(self.runtime.graphics.synthetic_arrays@.dom() =~= m0.dom().insert(a));
        }
        r
    }
    /// The state of node `n`, or a fresh one.
    pub fn sprite_or_default(&self, n: u32) -> (st: SyntheticSpriteState)
        ensures
            st == sprite_of(self.runtime.graphics, n),
    {
        match self.runtime.graphics.synthetic_sprites.get(&n) {
            Some(st) => *st,
            None => new_sprite_state(),
        }
    }

    /// Records `st` as the state of node `n`.
    pub fn set_sprite_state(&mut self, n: u32, st: SyntheticSpriteState)
        ensures
            graphics_frame(*old(self), *final(self), false),
            final(self).runtime.graphics.synthetic_sprites@ == old(self).runtime.graphics.synthetic_sprites@.insert(n, st),
            final(self).runtime.graphics.synthetic_arrays == old(self).runtime.graphics.synthetic_arrays,
            final(self).runtime.graphics.synthetic_ui_object_cursor == old(
                self,
            ).runtime.graphics.synthetic_ui_object_cursor,
    {
        self.runtime.graphics.synthetic_sprites.insert(n, st);
    }

    /// Appends `v` to array `a` (created if needed); returns its index.
    pub fn synthetic_array_push(&mut self, a: u32, v: u32) -> (i: usize)
        requires
            arr_items(old(self).runtime.graphics, a).len() < usize::MAX,
        ensures
            graphics_frame(*old(self), *final(self), false),
            i == arr_items(old(self).runtime.graphics, a).len(),
            array_set(
                old(self).runtime.graphics,
                final(self).runtime.graphics,
                a,
                arr_items(old(self).runtime.graphics, a).push(v),
                sat_add_u32(arr_count(old(self).runtime.graphics, a), 1),
            ),
    {
        let mut arr = self.take_array(a);
        arr.items.push(v);
        arr.mutation_count = arr.mutation_count.saturating_add(1);
        let i = arr.items.len() - 1;
        self.put_array(a, arr);
        proof {
            let m0 = old(self).runtime.graphics.synthetic_arrays@;
            assert(self.runtime.graphics.synthetic_arrays@.dom() =~= m0.dom().insert(a));
        }
        i
    }

    /// Moves `v` to index `index` of array `a` (created if needed), taking
    /// out its first occurrence first; the index is capped at the length.
    /// Returns where `v` now is.
    pub fn synthetic_array_insert_or_move(&mut self, a: u32, index: usize, v: u32) -> (i: usize)
        ensures
            graphics_frame(*old(self), *final(self), false),
            ({
                let s = arr_items(old(self).runtime.graphics, a);
                let s1 = if s.contains(v) {
                    s.remove(first_index(s, v))
                } else {
                    s
                };
                &&& i == (if index < s1.len() {
                    index as int
                } else {
                    s1.len() as int
                })
                &&& array_set(
                    old(self).runtime.graphics,
                    final(self).runtime.graphics,
                    a,
                    s1.insert(i as int, v),
                    sat_add_u32(arr_count(old(self).runtime.graphics, a), 1),
                )
            }),
    {
        let mut arr = self.take_array(a);
        let k = find_item(&arr.items, v);
        if k < arr.items.len() {
            arr.items.remove(k);
        }
        let at = if index < arr.items.len() {
            index
        } else {
            arr.items.len()
        };
        arr.items.insert(at, v);
        arr.mutation_count = arr.mutation_count.saturating_add(1);
        self.put_array(a, arr);
        proof {
            let m0 = old(self).runtime.graphics.synthetic_arrays@;
            assert(self.runtime.graphics.synthetic_arrays@.dom() =~= m0.dom().insert(a));
        }
        at
    }

    /// Removes the first `v` from array `a` (created if needed); reports
    /// whether there was one.
    pub fn synthetic_array_remove_value(&mut self, a: u32, v: u32) -> (found: bool)
        ensures
            graphics_frame(*old(self), *final(self), false),
            ({
                let s = arr_items(old(self).runtime.graphics, a);
                let c = arr_count(old(self).runtime.graphics, a);
                &&& found == s.contains(v)
                &&& if found {
                    array_set(
                        old(self).runtime.graphics,
                        final(self).runtime.graphics,
                        a,
                        s.remove(first_index(s, v)),
                        sat_add_u32(c, 1),
                    )
                } else {
                    array_set(old(self).runtime.graphics, final(self).runtime.graphics, a, s, c)
                }
            }),
    {
        let mut arr = self.take_array(a);
        let k = find_item(&arr.items, v);
        let found = k < arr.items.len();
        if found {
            arr.items.remove(k);
            arr.mutation_count = arr.mutation_count.saturating_add(1);
        }
        self.put_array(a, arr);
        proof {
            let m0 = old(self).runtime.graphics.synthetic_arrays@;
            assert(self.runtime.graphics.synthetic_arrays@.dom() =~= m0.dom().insert(a));
        }
        found
    }

    /// Whether `child` is among the children of `parent`.
    pub fn synthetic_parent_contains_child(&self, parent: u32, child: u32) -> (b: bool)
        ensures
            b == (parent != 0 && child != 0 && children_of(self.runtime.graphics, parent) != 0 && arr_items(
                self.runtime.graphics,
                children_of(self.runtime.graphics, parent),
            ).contains(child)),
    {
        if parent == 0 || child == 0 {
            return false;
        }
        let children = self.sprite_or_default(parent).children;
        children != 0 && self.synthetic_array_position(children, child).is_some()
    }

    /// Where `child` goes among the children of `parent` for z order
    /// `z_order` (see `spec_insert_index_for_z`).
    pub fn synthetic_child_insert_index_for_z(&self, parent: u32, child: u32, z_order: i32) -> (i: usize)
        ensures
            i == spec_insert_index_for_z(self.runtime.graphics, parent, child, z_order),
    {
        let children = self.sprite_or_default(parent).children;
        if children == 0 {
            return 0;
        }
        let items: &Vec<u32> = match self.runtime.graphics.synthetic_arrays.get(&children) {
            Some(arr) => &arr.items,
            None => return 0,
        };
        if items.len() == 0 {
            return 0;
        }
        let existing = find_item(items, child);
        let ghost g = self.runtime.graphics;
        let mut at: usize = items.len();
        let mut idx: usize = 0;
        assert(items@.skip(0) =~= items@);
        while idx < items.len()
            invariant
                idx <= items@.len(),
                items@ == arr_items(g, children),
                g == self.runtime.graphics,
                first_above(g, items@, child, z_order) == idx + first_above(g, items@.skip(idx as int), child, z_order),
                at == items@.len(),
            decreases items@.len() - idx,
        {
            let sibling = items[idx];
            let sibling_z = self.sprite_or_default(sibling).z_order;
            if sibling != 0 && sibling != child && z_order < sibling_z {
                assert(items@.skip(idx as int)[0] == sibling);
                at = idx;
                break;
            }
            assert(items@.skip(idx as int).drop_first() =~= items@.skip(idx + 1));
            idx = idx + 1;
        }
        proof {
            if at == items@.len() {
                assert(items@.skip(idx as int).len() == 0);
            }
        }
        if existing < items.len() && existing < at {
            at = at - 1;
        }
        at
    }

    /// Takes `child` out of its parent's children and clears its parent.
    #[verifier::spinoff_prover]
    #[verifier::rlimit(40)]
    pub fn detach_child_from_parent(&mut self, child: u32)
        ensures
            graphics_frame(*old(self), *final(self), false),
            detach_effect(old(self).runtime.graphics, final(self).runtime.graphics, child),
    {
        let ghost g0 = self.runtime.graphics;
        self.detach_from_children(child);
        let ghost g1 = self.runtime.graphics;
        if child != 0 {
            self.clear_sprite_parent(child);
        }
        proof {
            assert(sprite_of(g1, child) == sprite_of(g0, child));
        }
    }

    /// The arrays part of `detach_child_from_parent`.
    fn detach_from_children(&mut self, child: u32)
        ensures
            graphics_frame(*old(self), *final(self), false),
            detach_arrays(old(self).runtime.graphics, final(self).runtime.graphics, child),
            final(self).runtime.graphics.synthetic_sprites == old(self).runtime.graphics.synthetic_sprites,
            final(self).runtime.graphics.synthetic_ui_object_cursor == old(self).runtime.graphics.synthetic_ui_object_cursor,
    {
        let old_parent = self.sprite_or_default(child).parent;
        if old_parent != 0 {
            let children = self.sprite_or_default(old_parent).children;
            if children != 0 {
                self.synthetic_array_remove_value(children, child);
            }
        }
    }

    /// Sets the parent of node `n` to 0.
    fn clear_sprite_parent(&mut self, n: u32)
        ensures
            graphics_frame(*old(self), *final(self), false),
            final(self).runtime.graphics.synthetic_sprites@ == old(self).runtime.graphics.synthetic_sprites@.insert(
                n,
                SyntheticSpriteState { parent: 0, ..sprite_of(old(self).runtime.graphics, n) },
            ),
            final(self).runtime.graphics.synthetic_arrays == old(self).runtime.graphics.synthetic_arrays,
            final(self).runtime.graphics.synthetic_ui_object_cursor == old(self).runtime.graphics.synthetic_ui_object_cursor,
    {
        let mut st = self.sprite_or_default(n);
        st.parent = 0;
        self.set_sprite_state(n, st);
    }

    /// Hands out the next synthetic UI object, labelled `label`.
    pub fn alloc_synthetic_ui_object(&mut self, label: String) -> (obj: u32)
        ensures
            graphics_frame(*old(self), *final(self), true),
            obj == old(self).runtime.graphics.synthetic_ui_object_cursor,
            final(self).runtime.graphics.synthetic_ui_object_cursor == sat_add_u32(obj, 0x20),
            final(self).runtime.graphics.synthetic_arrays == old(self).runtime.graphics.synthetic_arrays,
            final(self).runtime.graphics.synthetic_sprites == old(self).runtime.graphics.synthetic_sprites,
            final(self).diag.object_labels@ == old(self).diag.object_labels@.insert(obj, label),
    {
        let obj = self.runtime.graphics.synthetic_ui_object_cursor;
        self.runtime.graphics.synthetic_ui_object_cursor = obj.saturating_add(0x20);
        self.diag.object_labels.insert(obj, label);
        obj
    }

    /// Hands out a synthetic array object labelled `label`; its array is
    /// created empty unless it exists.
    pub fn alloc_synthetic_array(&mut self, label: String) -> (obj: u32)
        ensures
            graphics_frame(*old(self), *final(self), true),
            obj == old(self).runtime.graphics.synthetic_ui_object_cursor,
            final(self).runtime.graphics.synthetic_ui_object_cursor == sat_add_u32(obj, 0x20),
            final(self).runtime.graphics.synthetic_sprites == old(self).runtime.graphics.synthetic_sprites,
            ({
                let g0 = old(self).runtime.graphics;
                let g1 = final(self).runtime.graphics;
                &&& g1.synthetic_arrays@.dom() == g0.synthetic_arrays@.dom().insert(obj)
                &&& arr_items(g1, obj) == arr_items(g0, obj)
                &&& arr_count(g1, obj) == arr_count(g0, obj)
                &&& forall|k: u32|
                    k != obj && #[trigger] g0.synthetic_arrays@.contains_key(k) ==> g1.synthetic_arrays@[k]
                        == g0.synthetic_arrays@[k]
            }),
            final(self).diag.object_labels@ == old(self).diag.object_labels@.insert(obj, label),
    {
        let obj = self.alloc_synthetic_ui_object(label);
        self.ensure_synthetic_array(obj);
        obj
    }

    /// The children array of `node`, made (and labelled) when it has none.
    pub fn ensure_node_children_array(&mut self, node: u32) -> (a: u32)
        ensures
            ({
                let g0 = old(self).runtime.graphics;
                let g1 = final(self).runtime.graphics;
                let existing = children_of(g0, node);
                if existing != 0 {
                    &&& a == existing
                    &&& graphics_frame(*old(self), *final(self), false)
                    &&& array_set(g0, g1, a, arr_items(g0, a), arr_count(g0, a))
                } else {
                    &&& graphics_frame(*old(self), *final(self), true)
                    &&& a == g0.synthetic_ui_object_cursor
                    &&& g1.synthetic_ui_object_cursor == sat_add_u32(a, 0x20)
                    &&& g1.synthetic_arrays@.dom() == g0.synthetic_arrays@.dom().insert(a)
                    &&& arr_items(g1, a) == arr_items(g0, a)
                    &&& arr_count(g1, a) == arr_count(g0, a)
                    &&& forall|k: u32|
                        k != a && #[trigger] g0.synthetic_arrays@.contains_key(k) ==> g1.synthetic_arrays@[k]
                            == g0.synthetic_arrays@[k]
                    &&& g1.synthetic_sprites@ == g0.synthetic_sprites@.insert(
                        node,
                        SyntheticSpriteState { children: a, ..sprite_of(g0, node) },
                    )
                    &&& labels_view(final(self).diag.object_labels@) == labels_view(
                        old(self).diag.object_labels@,
                    ).insert(a, children_label(labels_view(old(self).diag.object_labels@), node))
                }
            }),
    {
        let existing = self.sprite_or_default(node).children;
        if existing != 0 {
            self.ensure_synthetic_array(existing);
            return existing;
        }
        let label = self.children_array_label(node);
        let ghost l0 = self.diag.object_labels@;
        let array = self.alloc_synthetic_array(label);
        proof {
            lemma_labels_view_insert(l0, array, label);
        }
        let ghost g1 = self.runtime.graphics;
        let mut st = self.sprite_or_default(node);
        st.children = array;
        self.set_sprite_state(node, st);
        proof {
            assert(sprite_of(g1, node) == sprite_of(old(self).runtime.graphics, node));
        }
        array
    }

    /// The label for a children array made for `node`.
    fn children_array_label(&self, node: u32) -> (s: String)
        ensures
            s@ == children_label(labels_view(self.diag.object_labels@), node),
    {
        match self.object_label(node) {
            Some(name) => {
                let mut s = String::from_str(name);
                s.append(".children");
                s
            },
            None => {
                let mut s = String::from_str("CCNode.children@");
                push_hex_prefixed(&mut s, node as u64, 8);
                s
            },
        }
    }

    /// The loop that attaching `child` under `parent` would close, if any
    /// (see `spec_attach_cycle`).
    pub fn would_create_synthetic_cycle(&self, parent: u32, child: u32) -> (r: Option<Vec<u32>>)
        ensures
            opt_seq(r) == spec_attach_cycle(self.runtime.graphics, parent, child),
    {
        if parent == 0 || child == 0 {
            return None;
        }
        if parent == child {
            let v = vec![child, child];
            assert(v@ == seq![child, child]);
            return Some(v);
        }
        let ghost g = self.runtime.graphics;
        let mut chain: Vec<u32> = Vec::new();
        let mut current = parent;
        let mut step: u32 = 0;
        while step < 256
            invariant
                step <= 256,
                g == self.runtime.graphics,
                parent != 0 && child != 0 && parent != child,
                cycle_walk(g, child, Seq::empty(), parent, 256) == cycle_walk(
                    g,
                    child,
                    chain@,
                    current,
                    (256 - step) as nat,
                ),
            decreases 256 - step,
        {
            if current == 0 {
                return None;
            }
            let pos = find_item(&chain, current);
            if pos < chain.len() {
                let mut loop_nodes: Vec<u32> = Vec::new();
                let mut i = pos;
                while i < chain.len()
                    invariant
                        pos <= i <= chain.len(),
                        loop_nodes@ == chain@.subrange(pos as int, i as int),
                    decreases chain.len() - i,
                {
                    loop_nodes.push(chain[i]);
                    i = i + 1;
                }
                loop_nodes.push(current);
                proof {
                    lemma_first_index(chain@, current);
                    assert(chain@.skip(pos as int) =~= chain@.subrange(pos as int, chain@.len() as int));
                }
                return Some(loop_nodes);
            }
            chain.push(current);
            if current == child {
                let mut loop_nodes: Vec<u32> = Vec::new();
                let mut i = chain.len();
                while i > 0
                    invariant
                        i <= chain.len(),
                        loop_nodes@.len() == chain.len() - i,
                        forall|j: int| 0 <= j < loop_nodes@.len() ==> loop_nodes@[j] == chain@[chain@.len() - 1 - j],
                    decreases i,
                {
                    i = i - 1;
                    loop_nodes.push(chain[i]);
                }
                proof {
                    assert(loop_nodes@ =~= chain@.reverse());
                }
                loop_nodes.push(child);
                return Some(loop_nodes);
            }
            current = self.sprite_or_default(current).parent;
            step = step + 1;
        }
        None
    }
}

} // verus!
