//! Switching the visible layer of a cocos2d multiplex layer: the layer
//! array and the current index live in the multiplex object's guest memory
//! (at +0x9c and +0x98); the old layer leaves the multiplex, the target is
//! attached, shown alone, and the index is written back.
use vstd::prelude::*;
use vstd::bytes::spec_u32_to_le_bytes;
use super::{span_mapped, MemoryArm32Backend, RegionView};
use super::guest_access::lemma_read_after_write;
use super::guest_strings::mem_u32;
use super::nodes::{
    arr_items, children_of, cycle_walk, first_index, graphics_frame, lemma_first_index, parent_of, spec_attach_cycle,
    sprite_of, BackendGraphicsState, SyntheticSpriteState,
};
use super::attach::{
    attach_effect, items_before_insert, lemma_attached_child_listed, links_after_attach, remove_first, target_array,
    AttachOutcome,
};

verus! {

/// Offset of the current layer index in a multiplex layer object.
pub const MULTIPLEX_INDEX_OFFSET: u32 = 0x98;
/// Offset of the layer array in a multiplex layer object.
pub const MULTIPLEX_LAYERS_OFFSET: u32 = 0x9c;

/// What a switch request came to.
#[derive(Debug, Clone, Copy, PartialEq, Eq)]
pub enum MultiplexSwitch {
    /// The multiplex holds no known layer array: nothing changed.
    LayersMissing,
    /// The layer array is empty: nothing changed.
    LayersEmpty,
    /// The target index is past the `count` layers: nothing changed.
    OutOfRange { count: usize },
    /// The layers were switched.
    Switched { old_index: u32, old_layer: u32, target_layer: u32, count: usize },
}

/// The word at `addr`, or 0 when it is not mapped.
pub open spec fn word_or_zero(s: Seq<RegionView>, addr: u32) -> u32 {
    if span_mapped(s, addr, 4) {
        mem_u32(s, addr)
    } else {
        0
    }
}

/// `base + off`, wrapping.
pub open spec fn wrap_add(base: u32, off: u32) -> u32 {
    if base + off > u32::MAX {
        (base + off - 0x1_0000_0000) as u32
    } else {
        (base + off) as u32
    }
}

/// Item `i` of `s`, or 0 past its end.
pub open spec fn item_or_zero(s: Seq<u32>, i: int) -> u32 {
    if 0 <= i < s.len() {
        s[i]
    } else {
        0
    }
}

/// No other item among the first `n` of `s` equals item `i`.
pub open spec fn unique_in(s: Seq<u32>, n: int, i: int) -> bool {
    forall|j: int| 0 <= j < n && j < s.len() && j != i ==> s[j] != s[i]
}

/// The outcome a switch of `multiplex` to `target` is owed on `b`.
pub open spec fn spec_multiplex_switch(b: MemoryArm32Backend, multiplex: u32, target: u32) -> MultiplexSwitch {
    let g = b.runtime.graphics;
    let layers = word_or_zero(b.mem(), wrap_add(multiplex, MULTIPLEX_LAYERS_OFFSET));
    let items = arr_items(g, layers);
    if layers == 0 || !g.synthetic_arrays@.contains_key(layers) {
        MultiplexSwitch::LayersMissing
    } else if items.len() == 0 {
        MultiplexSwitch::LayersEmpty
    } else if target >= items.len() {
        MultiplexSwitch::OutOfRange { count: items.len() as usize }
    } else {
        let old_index = word_or_zero(b.mem(), wrap_add(multiplex, MULTIPLEX_INDEX_OFFSET));
        MultiplexSwitch::Switched {
            old_index,
            old_layer: item_or_zero(items, old_index as int),
            target_layer: items[target as int],
            count: items.len() as usize,
        }
    }
}

/// `v` occurs at most once in `s`.
pub open spec fn at_most_once(s: Seq<u32>, v: u32) -> bool {
    forall|i: int, j: int| 0 <= i < j < s.len() ==> !(#[trigger] s[i] == v && #[trigger] s[j] == v)
}

/// Every parent link of `g1` is the one of `g0` or null.
pub open spec fn links_shrink(g0: BackendGraphicsState, g1: BackendGraphicsState) -> bool {
    forall|n: u32| #[trigger] parent_of(g1, n) == parent_of(g0, n) || parent_of(g1, n) == 0
}

/// Cutting parent links cannot close a cycle.
proof fn lemma_cycle_walk_shrink(
    g0: BackendGraphicsState,
    g1: BackendGraphicsState,
    c: u32,
    chain: Seq<u32>,
    cur: u32,
    fuel: nat,
)
    requires
        links_shrink(g0, g1),
        cycle_walk(g0, c, chain, cur, fuel) is None,
    ensures
        cycle_walk(g1, c, chain, cur, fuel) is None,
    decreases fuel,
{
    if fuel > 0 && cur != 0 && !chain.contains(cur) && cur != c {
        if parent_of(g1, cur) == parent_of(g0, cur) {
            lemma_cycle_walk_shrink(g0, g1, c, chain.push(cur), parent_of(g0, cur), (fuel - 1) as nat);
        } else {
            assert(parent_of(g1, cur) == 0);
            assert(cycle_walk(g1, c, chain.push(cur), 0, (fuel - 1) as nat) is None);
        }
    }
}

/// Removing the only copy of `v` leaves none.
pub(crate) proof fn lemma_remove_only_copy(s: Seq<u32>, v: u32)
    requires
        at_most_once(s, v),
    ensures
        !remove_first(s, v).contains(v),
{
    lemma_first_index(s, v);
    if s.contains(v) {
        let f = first_index(s, v);
        let r = s.remove(f);
        if r.contains(v) {
            let k = choose|k: int| 0 <= k < r.len() && r[k] == v;
            if k < f {
                assert(s[k] == v);
            } else {
                assert(s[k + 1] == v);
                assert(!(s[f] == v && s[k + 1] == v));
            }
        }
    }
}

/// Removing or inserting other values never brings `v` in.
pub(crate) proof fn lemma_no_copy_kept(s: Seq<u32>, v: u32, x: u32, i: int)
    requires
        !s.contains(v),
        x != v,
    ensures
        !remove_first(s, x).contains(v),
        0 <= i <= remove_first(s, x).len() ==> !remove_first(s, x).insert(i, x).contains(v),
{
    lemma_first_index(s, x);
    let r = remove_first(s, x);
    if r.contains(v) {
        let k = choose|k: int| 0 <= k < r.len() && r[k] == v;
        if s.contains(x) {
            let f = first_index(s, x);
            if k < f {
                assert(s[k] == v);
            } else {
                assert(s[k + 1] == v);
            }
        } else {
            assert(s[k] == v);
        }
    }
    if 0 <= i <= r.len() {
        let t = r.insert(i, x);
        if t.contains(v) {
            let k = choose|k: int| 0 <= k < t.len() && t[k] == v;
            if k < i {
                assert(r[k] == v);
            } else if k > i {
                assert(r[k - 1] == v);
            }
        }
    }
}

/// Between `g0` and `g`: no parent link or children array of a node
/// changed, and no node became entered.
pub open spec fn flags_kept(g0: BackendGraphicsState, g: BackendGraphicsState) -> bool {
    forall|n: u32|
        #![trigger sprite_of(g, n)]
        sprite_of(g, n).parent == sprite_of(g0, n).parent && sprite_of(g, n).children == sprite_of(g0, n).children && (
        sprite_of(g, n).entered ==> sprite_of(g0, n).entered)
}

proof fn lemma_flags_step(
    g0: BackendGraphicsState,
    before: BackendGraphicsState,
    after: BackendGraphicsState,
    layer: u32,
    st: SyntheticSpriteState,
)
    requires
        flags_kept(g0, before),
        after.synthetic_sprites@ == before.synthetic_sprites@.insert(layer, st),
        st.parent == sprite_of(before, layer).parent,
        st.children == sprite_of(before, layer).children,
        st.entered ==> sprite_of(before, layer).entered,
    ensures
        flags_kept(g0, after),
{
    assert forall|n: u32| #![trigger sprite_of(after, n)]
        sprite_of(after, n).parent == sprite_of(g0, n).parent && sprite_of(after, n).children == sprite_of(g0, n).children
            && (sprite_of(after, n).entered ==> sprite_of(g0, n).entered) by {
        assert(sprite_of(before, n).parent == sprite_of(g0, n).parent);
        if n != layer {
            assert(sprite_of(after, n) == sprite_of(before, n));
        }
    }
}

proof fn lemma_visibility_step(
    before: BackendGraphicsState,
    after: BackendGraphicsState,
    items: Seq<u32>,
    count: int,
    idx: int,
    target: u32,
    st: SyntheticSpriteState,
)
    requires
        0 <= idx < count,
        idx < items.len(),
        items[idx] != 0,
        after.synthetic_sprites@ == before.synthetic_sprites@.insert(items[idx], st),
        st.visible == (idx == target),
        forall|i: int|
            0 <= i < idx && i < items.len() && items[i] != 0 && unique_in(items, count, i) ==> (
            #[trigger] sprite_of(before, items[i])).visible == (i == target),
    ensures
        forall|i: int|
            0 <= i < idx + 1 && i < items.len() && items[i] != 0 && unique_in(items, count, i) ==> (
            #[trigger] sprite_of(after, items[i])).visible == (i == target),
{
    assert forall|i: int|
        0 <= i < idx + 1 && i < items.len() && items[i] != 0 && unique_in(items, count, i) implies (
        #[trigger] sprite_of(after, items[i])).visible == (i == target) by {
        if i < idx {
            assert(items[idx] != items[i]);
            assert(sprite_of(after, items[i]) == sprite_of(before, items[i]));
        }
    }
}

/// What a switch does to the scene graph: the target (when it is not
/// null and attaching it under the multiplex closes no cycle) has the
/// multiplex as its parent and is listed among its children; the old layer
/// (when it is another, non-null node listed among the multiplex's
/// children) has no parent and is not entered, and is no longer listed
/// when it was listed once.
pub open spec fn switch_graph_effect(
    g0: BackendGraphicsState,
    g1: BackendGraphicsState,
    multiplex: u32,
    old_layer: u32,
    target_layer: u32,
) -> bool {
    let c = children_of(g0, multiplex);
    &&& (multiplex != 0 && target_layer != 0 && spec_attach_cycle(g0, multiplex, target_layer) is None ==> sprite_of(
        g1,
        target_layer,
    ).parent == multiplex && arr_items(g1, children_of(g1, multiplex)).contains(target_layer))
    &&& (old_layer != 0 && old_layer != target_layer && c != 0 && arr_items(g0, c).contains(old_layer) ==> {
        &&& sprite_of(g1, old_layer).parent == 0
        &&& !sprite_of(g1, old_layer).entered
        &&& (at_most_once(arr_items(g0, c), old_layer) ==> !arr_items(g1, children_of(g1, multiplex)).contains(
            old_layer,
        ))
    })
}

/// What holds after the removal and the target's attach, before the
/// layers are shown: the graph effect, with the old layer (when it was
/// removed) out of the multiplex's children entirely.
pub open spec fn switch_mid_effect(
    g0: BackendGraphicsState,
    ga: BackendGraphicsState,
    multiplex: u32,
    old_layer: u32,
    target_layer: u32,
) -> bool {
    let c = children_of(g0, multiplex);
    &&& (multiplex != 0 && target_layer != 0 && spec_attach_cycle(g0, multiplex, target_layer) is None ==> sprite_of(
        ga,
        target_layer,
    ).parent == multiplex && arr_items(ga, children_of(ga, multiplex)).contains(target_layer))
    &&& (old_layer != 0 && old_layer != target_layer && c != 0 && arr_items(g0, c).contains(old_layer) ==> {
        &&& sprite_of(ga, old_layer).parent == 0
        &&& !sprite_of(ga, old_layer).entered
        &&& children_of(ga, multiplex) == c
        &&& (at_most_once(arr_items(g0, c), old_layer) ==> !arr_items(ga, c).contains(old_layer))
    })
}

proof fn lemma_switch_show_step(
    g0: BackendGraphicsState,
    ga: BackendGraphicsState,
    gf: BackendGraphicsState,
    multiplex: u32,
    old_layer: u32,
    target_layer: u32,
)
    requires
        switch_mid_effect(g0, ga, multiplex, old_layer, target_layer),
        flags_kept(ga, gf),
        gf.synthetic_arrays == ga.synthetic_arrays,
    ensures
        switch_graph_effect(g0, gf, multiplex, old_layer, target_layer),
{
    assert(sprite_of(gf, multiplex).children == sprite_of(ga, multiplex).children);
    assert(sprite_of(gf, target_layer).parent == sprite_of(ga, target_layer).parent);
    assert(sprite_of(gf, old_layer).parent == sprite_of(ga, old_layer).parent);
}

proof fn lemma_switch_no_attach(
    g0: BackendGraphicsState,
    gr: BackendGraphicsState,
    multiplex: u32,
    old_layer: u32,
    target_layer: u32,
)
    requires
        target_layer == 0,
        forall|n: u32| #[trigger] sprite_of(gr, n).children == sprite_of(g0, n).children,
        old_layer != 0 && old_layer != target_layer && children_of(g0, multiplex) != 0 && arr_items(
            g0,
            children_of(g0, multiplex),
        ).contains(old_layer) ==> {
            &&& arr_items(gr, children_of(g0, multiplex)) == remove_first(
                arr_items(g0, children_of(g0, multiplex)),
                old_layer,
            )
            &&& !sprite_of(gr, old_layer).entered
            &&& sprite_of(gr, old_layer).parent == 0
        },
    ensures
        switch_mid_effect(g0, gr, multiplex, old_layer, target_layer),
{
    let c = children_of(g0, multiplex);
    assert(sprite_of(gr, multiplex).children == sprite_of(g0, multiplex).children);
    if old_layer != 0 && c != 0 && arr_items(g0, c).contains(old_layer) && at_most_once(arr_items(g0, c), old_layer) {
        lemma_remove_only_copy(arr_items(g0, c), old_layer);
    }
}

#[verifier::rlimit(50)]
proof fn lemma_switch_attach_step(
    g0: BackendGraphicsState,
    gr: BackendGraphicsState,
    gv: BackendGraphicsState,
    ga: BackendGraphicsState,
    multiplex: u32,
    old_layer: u32,
    target_layer: u32,
    out: AttachOutcome,
)
    requires
        target_layer != 0,
        forall|n: u32| #[trigger] sprite_of(gr, n).children == sprite_of(g0, n).children,
        old_layer != 0 && old_layer != target_layer && children_of(g0, multiplex) != 0 && arr_items(
            g0,
            children_of(g0, multiplex),
        ).contains(old_layer) ==> {
            &&& arr_items(gr, children_of(g0, multiplex)) == remove_first(
                arr_items(g0, children_of(g0, multiplex)),
                old_layer,
            )
            &&& !sprite_of(gr, old_layer).entered
            &&& sprite_of(gr, old_layer).parent == 0
        },
        flags_kept(gr, gv),
        gv.synthetic_arrays == gr.synthetic_arrays,
        forall|n: u32| n != target_layer ==> #[trigger] sprite_of(gv, n) == sprite_of(gr, n),
        multiplex != 0 && spec_attach_cycle(g0, multiplex, target_layer) is None ==> spec_attach_cycle(
            gv,
            multiplex,
            target_layer,
        ) is None,
        match out {
            AttachOutcome::Attached { index } => {
                &&& attach_effect(gv, ga, multiplex, target_layer, 0, None, index as int)
                &&& links_after_attach(gv, ga, multiplex, target_layer)
                &&& 0 <= index < arr_items(ga, children_of(ga, multiplex)).len()
                &&& arr_items(ga, children_of(ga, multiplex))[index as int] == target_layer
                &&& sprite_of(ga, target_layer).parent == multiplex
            },
            _ => ga == gv,
        },
        multiplex == 0 ==> out == AttachOutcome::Ignored,
        multiplex != 0 && spec_attach_cycle(gv, multiplex, target_layer) is None ==> out is Attached,
    ensures
        switch_mid_effect(g0, ga, multiplex, old_layer, target_layer),
{
    let c = children_of(g0, multiplex);
    assert(sprite_of(gr, multiplex).children == sprite_of(g0, multiplex).children);
    assert(sprite_of(gv, multiplex).children == sprite_of(gr, multiplex).children);
    if let AttachOutcome::Attached { index } = out {
        assert(arr_items(ga, children_of(ga, multiplex)).contains(target_layer));
    }
    if old_layer != 0 && old_layer != target_layer && c != 0 && arr_items(g0, c).contains(old_layer) {
        assert(sprite_of(gv, old_layer) == sprite_of(gr, old_layer));
        if let AttachOutcome::Attached { index } = out {
            assert(sprite_of(ga, old_layer).parent == sprite_of(gv, old_layer).parent);
            assert(sprite_of(ga, old_layer).entered == sprite_of(gv, old_layer).entered);
            assert(target_array(gv, multiplex) == c);
        }
        if at_most_once(arr_items(g0, c), old_layer) {
            lemma_remove_only_copy(arr_items(g0, c), old_layer);
            assert(!arr_items(gv, c).contains(old_layer));
            if let AttachOutcome::Attached { index } = out {
                let ib = items_before_insert(gv, multiplex, target_layer);
                lemma_no_copy_kept(arr_items(gv, c), old_layer, target_layer, 0);
                assert(!ib.contains(old_layer));
                lemma_no_copy_kept(ib, old_layer, target_layer, index as int);
            }
        }
    }
}

impl MemoryArm32Backend {
    /// The word at `addr`, or 0 when it is not mapped.
    fn read_word_or_zero(&self, addr: u32) -> (w: u32)
        requires
            self.wf(),
        ensures
            w == word_or_zero(self.mem(), addr),
    {
        match self.read_u32_le(addr) {
            Ok(w) => w,
            Err(_) => 0,
        }
    }

    /// Takes `layer` out of the children of `multiplex`; when it was there
    /// it loses its parent and leaves the entered state (with its subtree
    /// when it was entered).
    #[verifier::rlimit(60)]
    #[verifier::spinoff_prover]
    pub(crate) fn remove_layer(&mut self, multiplex: u32, layer: u32)
        ensures
            graphics_frame(*old(self), *final(self), false),
            ({
                let g0 = old(self).runtime.graphics;
                let g1 = final(self).runtime.graphics;
                let c = children_of(g0, multiplex);
                &&& g1.synthetic_ui_object_cursor == g0.synthetic_ui_object_cursor
                &&& forall|n: u32| #[trigger] sprite_of(g1, n).children == sprite_of(g0, n).children
                &&& forall|n: u32|
                    #[trigger] sprite_of(g1, n).guest_graph_observed == sprite_of(g0, n).guest_graph_observed
                &&& forall|n: u32| n != layer ==> #[trigger] sprite_of(g1, n).parent == sprite_of(g0, n).parent
                &&& forall|k: u32| k != c ==> #[trigger] arr_items(g1, k) == arr_items(g0, k)
                &&& !(c != 0 && arr_items(g0, c).contains(layer)) ==> arr_items(g1, c) == arr_items(g0, c)
                &&& links_shrink(g0, g1)
                &&& c != 0 && arr_items(g0, c).contains(layer) ==> {
                    &&& arr_items(g1, c) == remove_first(arr_items(g0, c), layer)
                    &&& !sprite_of(g1, layer).entered
                    &&& sprite_of(g1, layer).parent == 0
                }
            }),
    {
        let ghost g0 = self.runtime.graphics;
        let children = self.sprite_or_default(multiplex).children;
        if children == 0 {
            return;
        }
        let was_entered = self.sprite_or_default(layer).entered;
        let removed = self.synthetic_array_remove_value(children, layer);
        let ghost g1 = self.runtime.graphics;
        if removed {
            if was_entered {
                self.propagate_entered_recursive(layer, false);
            }
            let ghost g2 = self.runtime.graphics;
            proof {
                assert forall|n: u32|
                    #[trigger] sprite_of(g2, n).children == sprite_of(g1, n).children && sprite_of(g2, n).parent
                        == sprite_of(g1, n).parent && sprite_of(g2, n).guest_graph_observed == sprite_of(
                        g1,
                        n,
                    ).guest_graph_observed by {}
            }
            let mut st = self.sprite_or_default(layer);
            st.parent = 0;
            st.entered = false;
            self.set_sprite_state(layer, st);
            proof {
                let g3 = self.runtime.graphics;
                assert(g1.synthetic_sprites == g0.synthetic_sprites);
                assert(g2.synthetic_arrays == g1.synthetic_arrays);
                assert(arr_items(g3, children) == arr_items(g1, children));
                assert forall|n: u32| #[trigger] parent_of(g3, n) == parent_of(g0, n) || parent_of(g3, n) == 0 by {
                    if n != layer {
                        assert(sprite_of(g3, n) == sprite_of(g2, n));
                        assert(sprite_of(g1, n) == sprite_of(g0, n));
                    }
                }
                assert forall|n: u32| #[trigger] sprite_of(g3, n).children == sprite_of(g0, n).children by {
                    if n != layer {
                        assert(sprite_of(g3, n) == sprite_of(g2, n));
                    }
                    assert(sprite_of(g1, n) == sprite_of(g0, n));
                }
                assert forall|n: u32| n != layer implies #[trigger] sprite_of(g3, n).parent == sprite_of(g0, n).parent by {
                    assert(sprite_of(g3, n) == sprite_of(g2, n));
                    assert(sprite_of(g1, n) == sprite_of(g0, n));
                }
                assert forall|n: u32|
                    #[trigger] sprite_of(g3, n).guest_graph_observed == sprite_of(g0, n).guest_graph_observed by {
                    if n != layer {
                        assert(sprite_of(g3, n) == sprite_of(g2, n));
                    }
                    assert(sprite_of(g1, n) == sprite_of(g0, n));
                }
                assert forall|k: u32| k != children implies #[trigger] arr_items(g3, k) == arr_items(g0, k) by {
                    if g0.synthetic_arrays@.contains_key(k) {
                        assert(g1.synthetic_arrays@[k] == g0.synthetic_arrays@[k]);
                    }
                }
            }
        } else {
            proof {
                assert(g1.synthetic_sprites == g0.synthetic_sprites);
                assert forall|n: u32| #[trigger] sprite_of(g1, n) == sprite_of(g0, n) by {}
                assert forall|k: u32| k != children implies #[trigger] arr_items(g1, k) == arr_items(g0, k) by {
                    if g0.synthetic_arrays@.contains_key(k) {
                        assert(g1.synthetic_arrays@[k] == g0.synthetic_arrays@[k]);
                    }
                }
            }
        }
    }

    /// Shows the layer at `target` and hides the other layers among the
    /// first `count` items of array `layers`; `old_layer`, when not at
    /// `target`, also leaves the entered state.
    #[verifier::rlimit(100)]
    #[verifier::spinoff_prover]
    fn show_target_layer(&mut self, layers: u32, count: usize, target: u32, old_layer: u32)
        ensures
            graphics_frame(*old(self), *final(self), false),
            final(self).runtime.graphics.synthetic_arrays == old(self).runtime.graphics.synthetic_arrays,
            flags_kept(old(self).runtime.graphics, final(self).runtime.graphics),
            ({
                let items = arr_items(old(self).runtime.graphics, layers);
                forall|i: int|
                    0 <= i < count && i < items.len() && items[i] != 0 && unique_in(items, count as int, i) ==> (
                    #[trigger] sprite_of(final(self).runtime.graphics, items[i])).visible == (i == target)
            }),
    {
        let ghost items = arr_items(self.runtime.graphics, layers);
        let mut idx: usize = 0;
        while idx < count
            invariant
                idx <= count,
                graphics_frame(*old(self), *self, false),
                self.runtime.graphics.synthetic_arrays == old(self).runtime.graphics.synthetic_arrays,
                items == arr_items(self.runtime.graphics, layers),
                flags_kept(old(self).runtime.graphics, self.runtime.graphics),
                forall|i: int|
                    0 <= i < idx && i < items.len() && items[i] != 0 && unique_in(items, count as int, i) ==> (
                    #[trigger] sprite_of(self.runtime.graphics, items[i])).visible == (i == target),
            decreases count - idx,
        {
            let layer = self.synthetic_array_get(layers, idx);
            if layer != 0 {
                let ghost before = self.runtime.graphics;
                let mut st = self.sprite_or_default(layer);
                st.visible = idx == target as usize;
                if idx != target as usize && layer == old_layer {
                    st.entered = false;
                }
                proof {
                    assert(st.visible == (idx == target));
                }
                self.set_sprite_state(layer, st);
                proof {
                    lemma_flags_step(old(self).runtime.graphics, before, self.runtime.graphics, layer, st);
                    lemma_visibility_step(before, self.runtime.graphics, items, count as int, idx as int, target, st);
                }
            }
            idx = idx + 1;
        }
    }

    /// The scene-graph half of a switch: the old layer leaves the
    /// multiplex (unless it is the target), the target is shown and
    /// attached, and the listed layers are shown or hidden.
    #[verifier::rlimit(100)]
    #[verifier::spinoff_prover]
    fn switch_layer_graph(
        &mut self,
        multiplex: u32,
        layers: u32,
        count: usize,
        target_index: u32,
        old_layer: u32,
        target_layer: u32,
    )
        ensures
            graphics_frame(*old(self), *final(self), true),
            ({
                let items = arr_items(final(self).runtime.graphics, layers);
                forall|i: int|
                    0 <= i < count && i < items.len() && items[i] != 0 && unique_in(items, count as int, i) ==> (
                    #[trigger] sprite_of(final(self).runtime.graphics, items[i])).visible == (i == target_index)
            }),
            switch_graph_effect(
                old(self).runtime.graphics,
                final(self).runtime.graphics,
                multiplex,
                old_layer,
                target_layer,
            ),
    {
        let ghost g0 = self.runtime.graphics;
        if old_layer != 0 && old_layer != target_layer {
            self.remove_layer(multiplex, old_layer);
        }
        let ghost gr = self.runtime.graphics;
        proof {
            if !(old_layer != 0 && old_layer != target_layer) {
                assert forall|n: u32| #[trigger] parent_of(gr, n) == parent_of(g0, n) || parent_of(gr, n) == 0 by {}
            }
        }
        if target_layer != 0 {
            let mut st = self.sprite_or_default(target_layer);
            st.visible = true;
            self.set_sprite_state(target_layer, st);
            let ghost gv = self.runtime.graphics;
            proof {
                assert forall|n: u32| #[trigger] parent_of(gv, n) == parent_of(g0, n) || parent_of(gv, n) == 0 by {
                    assert(parent_of(gv, n) == parent_of(gr, n));
                }
                lemma_flags_step(gr, gr, gv, target_layer, st);
                if multiplex != 0 && spec_attach_cycle(g0, multiplex, target_layer) is None {
                    assert(multiplex != target_layer);
                    lemma_cycle_walk_shrink(g0, gv, target_layer, Seq::empty(), multiplex, 256);
                }
            }
            let out = self.attach_child_to_node(multiplex, target_layer, 0, None);
            proof {
                let ga = self.runtime.graphics;
                match out {
                    AttachOutcome::Attached { index } => {
                        lemma_attached_child_listed(gv, ga, multiplex, target_layer, 0, None, index as int);
                    },
                    _ => {},
                }
                lemma_switch_attach_step(g0, gr, gv, ga, multiplex, old_layer, target_layer, out);
            }
        } else {
            proof {
                lemma_switch_no_attach(g0, gr, multiplex, old_layer, target_layer);
            }
        }
        let ghost ga = self.runtime.graphics;
        self.show_target_layer(layers, count, target_index, old_layer);
        proof {
            lemma_switch_show_step(g0, ga, self.runtime.graphics, multiplex, old_layer, target_layer);
            assert(arr_items(self.runtime.graphics, layers) == arr_items(ga, layers));
        }
    }

    /// Switches multiplex layer `multiplex` to layer `target_index`: fails
    /// (changing nothing) when it holds no layer array, the array is empty
    /// or the index is past its end. Otherwise the old layer leaves the
    /// multiplex (unless it is the target), the target is shown and
    /// attached with z order 0, every other listed layer is hidden, and the
    /// index is stored at +0x98.
    pub fn try_handle_ccmultiplex_switch(&mut self, multiplex: u32, target_index: u32) -> (r: MultiplexSwitch)
        requires
            old(self).wf(),
        ensures
            r == spec_multiplex_switch(*old(self), multiplex, target_index),
            !(r is Switched) ==> *final(self) == *old(self),
            final(self).wf(),
            r is Switched && span_mapped(old(self).mem(), wrap_add(multiplex, MULTIPLEX_INDEX_OFFSET), 4) ==> mem_u32(
                final(self).mem(),
                wrap_add(multiplex, MULTIPLEX_INDEX_OFFSET),
            ) == target_index,
            r matches MultiplexSwitch::Switched { count, .. } ==> ({
                let layers = word_or_zero(old(self).mem(), wrap_add(multiplex, MULTIPLEX_LAYERS_OFFSET));
                let items = arr_items(final(self).runtime.graphics, layers);
                forall|i: int|
                    0 <= i < count && i < items.len() && items[i] != 0 && unique_in(items, count as int, i) ==> (
                    #[trigger] sprite_of(final(self).runtime.graphics, items[i])).visible == (i == target_index)
            }),
            r matches MultiplexSwitch::Switched { old_layer, target_layer, .. } ==> switch_graph_effect(
                old(self).runtime.graphics,
                final(self).runtime.graphics,
                multiplex,
                old_layer,
                target_layer,
            ),
    {
        let layers = self.read_word_or_zero(multiplex.wrapping_add(MULTIPLEX_LAYERS_OFFSET));
        if layers == 0 || !self.runtime.graphics.synthetic_arrays.contains_key(&layers) {
            return MultiplexSwitch::LayersMissing;
        }
        let count = self.synthetic_array_len(layers);
        if count == 0 {
            return MultiplexSwitch::LayersEmpty;
        }
        if target_index as usize >= count {
            return MultiplexSwitch::OutOfRange { count };
        }
        let index_addr = multiplex.wrapping_add(MULTIPLEX_INDEX_OFFSET);
        let old_index = self.read_word_or_zero(index_addr);
        let old_layer = self.synthetic_array_get(layers, old_index as usize);
        let target_layer = self.synthetic_array_get(layers, target_index as usize);
        let ghost mem0 = self.mem();
        self.switch_layer_graph(multiplex, layers, count, target_index, old_layer, target_layer);
        let ghost gt = self.runtime.graphics;
        proof {
            assert(self.mem() == mem0);
            assert(self.wf());
        }
        let _ = self.write_u32_le(index_addr, target_index);
        proof {
            vstd::bytes::lemma_auto_spec_u32_to_from_le_bytes();
            if span_mapped(mem0, index_addr, 4) {
                lemma_read_after_write(mem0, index_addr, spec_u32_to_le_bytes(target_index));
                vstd::bytes::lemma_auto_spec_u32_to_from_le_bytes();
            }
        }
        proof {
            assert(self.runtime.graphics == gt);
        }
        MultiplexSwitch::Switched { old_index, old_layer, target_layer, count }
    }
}

} // verus!
