//! Which texture a synthetic node shows: its own, the current frame of its
//! default animation, or the texture of the sprite sheet it is batched in;
//! whether a subtree covers the whole surface; and which way up a node's
//! texture rectangle is measured.
use vstd::prelude::*;
use crate::text::{
    hex_prefixed, lower_seq, push_char, push_hex_prefixed, seq_contains, str_contains, str_eq, to_lower_chars, chars_of,
    string_from_chars, lower_contains,
};
use crate::profiles::TitleProfile;
use crate::profiles::above_and_below::{
    spec_is_first_scene_label, spec_is_loading_mission_scene_label, spec_is_menu_layer_label,
    spec_texture_rect_origin_preference,
};
use crate::text::{remove_char, remove_char_exec, chars_eq};
use super::MemoryArm32Backend;
use super::nodes::{arr_items, sprite_of, SyntheticSpriteState};
use super::textures::{texture_dims, texture_like, BackendTextureState, SyntheticDictionary};
use super::foundation::guest_text;
use super::guest_strings::labels_view;

verus! {

/// The object `key` maps to in `entries` (the first match; 0 for none).
pub open spec fn dict_lookup(entries: Seq<(String, u32)>, key: Seq<char>) -> u32
    decreases entries.len(),
{
    if entries.len() == 0 {
        0
    } else if entries[0].0@ == key {
        entries[0].1
    } else {
        dict_lookup(entries.drop_first(), key)
    }
}

/// The object `key` maps to in dictionary `dict` (0 for none).
pub open spec fn dictionary_get(t: BackendTextureState, dict: u32, key: Seq<char>) -> u32 {
    if t.synthetic_dictionaries@.contains_key(dict) {
        dict_lookup(t.synthetic_dictionaries@[dict].entries@, key)
    } else {
        0
    }
}

/// The dictionary key guest value `value` stands for: its text in lower
/// case, or `@` and its address.
pub open spec fn dictionary_key(m: MemoryArm32Backend, value: u32) -> Seq<char> {
    match guest_text(m, value) {
        Some(t) => lower_seq(t),
        None => "@"@ + hex_prefixed(value as nat, 8),
    }
}

/// The keys tried for a node's default animation, each with the frame
/// index to take: the key of the frame it showed last (when it has one),
/// then `frame`, `normal`, `default`, `idle` and `up`, then the only key of
/// a dictionary with one entry.
pub open spec fn anim_candidates(m: MemoryArm32Backend, node: u32) -> Seq<(Seq<char>, int)> {
    let st = sprite_of(m.runtime.graphics, node);
    let entries = m.runtime.textures.synthetic_dictionaries@[st.animation_dictionary].entries@;
    let last = if st.last_display_frame_key != 0 && dictionary_key(m, st.last_display_frame_key).len() > 0 {
        seq![(dictionary_key(m, st.last_display_frame_key), st.last_display_frame_index as int)]
    } else {
        Seq::empty()
    };
    let fixed = seq![("frame"@, 0int), ("normal"@, 0int), ("default"@, 0int), ("idle"@, 0int), ("up"@, 0int)];
    let single = if entries.len() == 1 {
        seq![(entries[0].0@, 0int)]
    } else {
        Seq::empty()
    };
    last + fixed + single
}

/// The texture candidate `cand` gives in dictionary `dict`: its frame
/// array's frame at the index (the last one when the index is past it),
/// resolved as a texture-like object (0 for none).
pub open spec fn candidate_texture(m: MemoryArm32Backend, dict: u32, cand: (Seq<char>, int)) -> u32 {
    let frames = dictionary_get(m.runtime.textures, dict, cand.0);
    let items = arr_items(m.runtime.graphics, frames);
    if frames == 0 || items.len() == 0 {
        0
    } else {
        let idx = if cand.1 < items.len() - 1 {
            cand.1
        } else {
            items.len() - 1
        };
        texture_like(m, items[idx])
    }
}

/// The first non-zero texture the candidates give (0 for none).
pub open spec fn first_texture(m: MemoryArm32Backend, dict: u32, cands: Seq<(Seq<char>, int)>) -> u32
    decreases cands.len(),
{
    if cands.len() == 0 {
        0
    } else if candidate_texture(m, dict, cands[0]) != 0 {
        candidate_texture(m, dict, cands[0])
    } else {
        first_texture(m, dict, cands.drop_first())
    }
}

/// The texture of node `node`'s default animation (0 for none).
pub open spec fn default_animation_texture(m: MemoryArm32Backend, node: u32) -> u32 {
    let g = m.runtime.graphics;
    let dict = sprite_of(g, node).animation_dictionary;
    if !g.synthetic_sprites@.contains_key(node) || dict == 0 || !m.runtime.textures.synthetic_dictionaries@.contains_key(
        dict,
    ) {
        0
    } else {
        first_texture(m, dict, anim_candidates(m, node))
    }
}

/// The label of `obj`, or nothing.
pub open spec fn label_or_empty(m: MemoryArm32Backend, obj: u32) -> Seq<char> {
    let l = labels_view(m.diag.object_labels@);
    if l.contains_key(obj) {
        l[obj]
    } else {
        Seq::empty()
    }
}

/// A label naming a batching node: a sprite sheet, batch node or texture
/// atlas.
pub open spec fn batch_label(l: Seq<char>) -> bool {
    seq_contains(l, "SpriteSheet"@) || seq_contains(l, "BatchNode"@) || seq_contains(l, "TextureAtlas"@)
}

/// Walking up from `parent` (at most 16 known nodes): the texture of the
/// first batching ancestor that has one (0 for none).
pub open spec fn batch_parent_texture(m: MemoryArm32Backend, parent: u32, depth: nat) -> u32
    decreases 16 - depth,
{
    let g = m.runtime.graphics;
    if parent == 0 || depth >= 16 || !g.synthetic_sprites@.contains_key(parent) {
        0
    } else {
        let ps = g.synthetic_sprites@[parent];
        if ps.texture != 0 && batch_label(label_or_empty(m, parent)) {
            ps.texture
        } else {
            batch_parent_texture(m, ps.parent, depth + 1)
        }
    }
}

/// The texture node `node` shows: its own, else its default animation's,
/// else that of the sprite sheet it is batched in (0 for none or an
/// unknown node).
pub open spec fn effective_texture(m: MemoryArm32Backend, node: u32) -> u32 {
    let g = m.runtime.graphics;
    let st = sprite_of(g, node);
    if !g.synthetic_sprites@.contains_key(node) {
        0
    } else if st.texture != 0 {
        st.texture
    } else if default_animation_texture(m, node) != 0 {
        default_animation_texture(m, node)
    } else {
        batch_parent_texture(m, st.parent, 0)
    }
}

/// `|a - b|`.
pub open spec fn abs_diff_u32(a: u32, b: u32) -> int {
    if a >= b {
        a - b
    } else {
        b - a
    }
}

/// `w` x `h` matches the surface size within 4 pixels, either way round.
pub open spec fn matches_surface(w: u32, h: u32, sw: u32, sh: u32) -> bool {
    (abs_diff_u32(w, sw) <= 4 && abs_diff_u32(h, sh) <= 4) || (abs_diff_u32(w, sh) <= 4 && abs_diff_u32(h, sw) <= 4)
}

/// Node `node` itself shows a texture the size of the surface (its own
/// size, or its texture's when it has none).
pub open spec fn own_fullscreen(m: MemoryArm32Backend, node: u32, sw: u32, sh: u32) -> bool {
    let st = sprite_of(m.runtime.graphics, node);
    let eff = effective_texture(m, node);
    let dims = if st.width != 0 && st.height != 0 {
        (st.width, st.height)
    } else {
        match texture_dims(m.runtime.textures, eff) {
            Some(d) => d,
            None => (0u32, 0u32),
        }
    };
    eff != 0 && dims.0 != 0 && dims.1 != 0 && matches_surface(dims.0, dims.1, sw, sh)
}

/// A visible node of the subtree of `node` (down to level 31, leaving out
/// the subtree of `excluded`, stopping at invisible nodes) shows a texture
/// the size of the surface.
pub open spec fn fullscreen_node(m: MemoryArm32Backend, node: u32, sw: u32, sh: u32, depth: int, excluded: u32) -> bool
    decreases 32 - depth, 1int, 0int,
{
    let g = m.runtime.graphics;
    let st = sprite_of(g, node);
    if node == 0 || depth >= 32 || (excluded != 0 && node == excluded) || !g.synthetic_sprites@.contains_key(node)
        || !st.visible {
        false
    } else if own_fullscreen(m, node, sw, sh) {
        true
    } else if st.children == 0 {
        false
    } else {
        fullscreen_list(m, arr_items(g, st.children), 0, sw, sh, depth + 1, excluded)
    }
}

/// `fullscreen_node` for some node of `items[i..]`.
pub open spec fn fullscreen_list(
    m: MemoryArm32Backend,
    items: Seq<u32>,
    i: int,
    sw: u32,
    sh: u32,
    depth: int,
    excluded: u32,
) -> bool
    decreases 33 - depth, 0int, items.len() - i,
{
    if i < 0 || i >= items.len() || depth >= 32 {
        false
    } else {
        fullscreen_node(m, items[i], sw, sh, depth, excluded) || fullscreen_list(
            m,
            items,
            i + 1,
            sw,
            sh,
            depth,
            excluded,
        )
    }
}

/// Walking up from `parent` (at most 16 known nodes): some ancestor is a
/// batching node.
pub open spec fn batch_ancestor(m: MemoryArm32Backend, parent: u32, depth: nat) -> bool
    decreases 16 - depth,
{
    let g = m.runtime.graphics;
    if parent == 0 || depth >= 16 || !g.synthetic_sprites@.contains_key(parent) {
        false
    } else if batch_label(label_or_empty(m, parent)) {
        true
    } else {
        batch_ancestor(m, g.synthetic_sprites@[parent].parent, depth + 1)
    }
}

/// The texture key a node's rectangle origin is decided by: the cache
/// key, source key and source path of its texture, in lower case.
pub open spec fn origin_key(m: MemoryArm32Backend, tex: u32) -> Seq<char> {
    let t = m.runtime.textures.synthetic_textures@[tex];
    lower_seq(t.cache_key@ + "|"@ + t.source_key@ + "|"@ + t.source_path@)
}

/// The profile's preference for `key`.
pub open spec fn profile_origin_preference(p: TitleProfile, key: Seq<char>) -> Option<bool> {
    match p {
        TitleProfile::Default => None,
        TitleProfile::AboveAndBelow => spec_texture_rect_origin_preference(key),
    }
}

/// Whether node `node`'s texture rectangle is measured from the bottom
/// left: always below a batching node; else as the profile prefers for its
/// texture's key; else for an atlas or sprite-sheet texture; else when the
/// rectangle was set explicitly.
pub open spec fn prefers_bottom_left(m: MemoryArm32Backend, node: u32) -> bool {
    let g = m.runtime.graphics;
    let st = sprite_of(g, node);
    let eff = effective_texture(m, node);
    if !g.synthetic_sprites@.contains_key(node) {
        false
    } else if batch_ancestor(m, st.parent, 0) {
        true
    } else if eff != 0 && m.runtime.textures.synthetic_textures@.contains_key(eff) && (profile_origin_preference(
        m.profile,
        origin_key(m, eff),
    ) is Some || seq_contains(origin_key(m, eff), "atlas"@) || (seq_contains(origin_key(m, eff), "sprite"@)
        && seq_contains(origin_key(m, eff), "sheet"@))) {
        match profile_origin_preference(m.profile, origin_key(m, eff)) {
            Some(b) => b,
            None => true,
        }
    } else {
        st.texture_rect_explicit
    }
}

/// The title skips its full-screen bootstrap fill under a node labelled
/// `label` when a full-screen textured subtree is present.
pub open spec fn bootstrap_fill_skipped(p: TitleProfile, label: Seq<char>, textured: bool) -> bool {
    p == TitleProfile::AboveAndBelow && textured && (spec_is_first_scene_label(label) || spec_is_menu_layer_label(
        label,
    ))
}

/// Some visible sibling in `siblings` (other than `node`) has a subtree,
/// without `node`'s, that shows a full-screen texture.
pub open spec fn sibling_textured(m: MemoryArm32Backend, node: u32, siblings: Seq<u32>, sw: u32, sh: u32) -> bool {
    exists|i: int|
        0 <= i < siblings.len() && siblings[i] != 0 && siblings[i] != node
            && m.runtime.graphics.synthetic_sprites@.contains_key(siblings[i])
            && m.runtime.graphics.synthetic_sprites@[siblings[i]].visible && #[trigger] fullscreen_node(
            m,
            siblings[i],
            sw,
            sh,
            0,
            node,
        )
}

/// The children of `parent` (none for an unknown node or one without a
/// children array).
pub open spec fn children_items(m: MemoryArm32Backend, parent: u32) -> Seq<u32> {
    let g = m.runtime.graphics;
    if g.synthetic_sprites@.contains_key(parent) && g.synthetic_sprites@[parent].children != 0 {
        arr_items(g, g.synthetic_sprites@[parent].children)
    } else {
        Seq::empty()
    }
}

/// Whether the full-screen colour fill of node `node` (in state `st`,
/// drawn `dw` x `dh` on a `sw` x `sh` surface) is skipped: it must be a
/// child with an explicit, not fully transparent fill covering the
/// surface, and the title must skip the bootstrap fill under its parent
/// given its parent's subtree, or else given its siblings' subtrees.
pub open spec fn skip_color_fill(
    m: MemoryArm32Backend,
    node: u32,
    st: SyntheticSpriteState,
    dw: u32,
    dh: u32,
    sw: u32,
    sh: u32,
) -> bool {
    let label = label_or_empty(m, st.parent);
    &&& node != 0 && st.parent != 0
    &&& matches_surface(dw, dh, sw, sh)
    &&& st.fill_rgba_explicit && st.fill_rgba@[3] != 0
    &&& (bootstrap_fill_skipped(m.profile, label, fullscreen_node(m, st.parent, sw, sh, 0, node))
        || bootstrap_fill_skipped(m.profile, label, sibling_textured(m, node, children_items(m, st.parent), sw, sh)))
}

/// A label naming a bitmap-font label node.
pub open spec fn bmfont_label(l: Seq<char>) -> bool {
    seq_contains(l, "CCLabelBMFont"@) || seq_contains(l, "FontAtlas"@)
}

/// The text of `node`'s string backing without NULs, if it has one.
pub open spec fn backing_text(m: MemoryArm32Backend, node: u32) -> Option<Seq<char>> {
    let f = m.runtime.foundation.synthetic_string_backing@;
    if f.contains_key(node) {
        Some(remove_char(f[node].text@, '\0'))
    } else {
        None
    }
}

/// `s` duplicates bitmap-font label `child` at z order `z`: another node
/// with the same label, text, z order and position.
pub open spec fn duplicate_label_node(m: MemoryArm32Backend, child: u32, z: i32, s: u32) -> bool {
    let g = m.runtime.graphics;
    &&& s != 0 && s != child
    &&& label_or_empty(m, s) == label_or_empty(m, child)
    &&& backing_text(m, s) is Some && backing_text(m, s) == backing_text(m, child)
    &&& g.synthetic_sprites@.contains_key(s)
    &&& g.synthetic_sprites@[s].z_order == z
    &&& g.synthetic_sprites@[s].position_x_bits == sprite_of(g, child).position_x_bits
    &&& g.synthetic_sprites@[s].position_y_bits == sprite_of(g, child).position_y_bits
}

/// The first of `items[i..]` that duplicates `child`.
pub open spec fn first_duplicate(m: MemoryArm32Backend, items: Seq<u32>, i: int, child: u32, z: i32) -> Option<u32>
    decreases items.len() - i,
{
    if i < 0 || i >= items.len() {
        None
    } else if duplicate_label_node(m, child, z, items[i]) {
        Some(items[i])
    } else {
        first_duplicate(m, items, i + 1, child, z)
    }
}

/// The sibling that bitmap-font label `child`, about to be added under
/// `parent` at z order `z`, would duplicate: only under the title's
/// mission loading scene, for a backed label node with a state.
pub open spec fn duplicate_bmfont_child(m: MemoryArm32Backend, parent: u32, child: u32, z: i32) -> Option<u32> {
    let g = m.runtime.graphics;
    let children = sprite_of(g, parent).children;
    if parent == 0 || child == 0 || !(m.profile == TitleProfile::AboveAndBelow && spec_is_loading_mission_scene_label(
        label_or_empty(m, parent),
    )) || !bmfont_label(label_or_empty(m, child)) || backing_text(m, child) is None
        || !g.synthetic_sprites@.contains_key(child) || children == 0 {
        None
    } else {
        first_duplicate(m, arr_items(g, children), 0, child, z)
    }
}

impl MemoryArm32Backend {
    /// The object `key` maps to in dictionary `dict` (0 for none).
    pub fn synthetic_dictionary_get(&self, dict: u32, key: &str) -> (v: u32)
        ensures
            v == dictionary_get(self.runtime.textures, dict, key@),
    {
        match self.runtime.textures.synthetic_dictionaries.get(&dict) {
            Some(d) => Self::lookup_entries(d, key),
            None => 0,
        }
    }

    /// The object `key` maps to in `d` (the first match; 0 for none).
    fn lookup_entries(d: &SyntheticDictionary, key: &str) -> (v: u32)
        ensures
            v == dict_lookup(d.entries@, key@),
    {
        let mut i: usize = 0;
        assert(d.entries@.skip(0) =~= d.entries@);
        while i < d.entries.len()
            invariant
                i <= d.entries@.len(),
                dict_lookup(d.entries@, key@) == dict_lookup(d.entries@.skip(i as int), key@),
            decreases d.entries@.len() - i,
        {
            assert(d.entries@.skip(i as int)[0] == d.entries@[i as int]);
            if str_eq(d.entries[i].0.as_str(), key) {
                return d.entries[i].1;
            }
            assert(d.entries@.skip(i as int).drop_first() =~= d.entries@.skip(i + 1));
            i = i + 1;
        }
        0
    }

    /// The dictionary key guest value `value` stands for (see
    /// `dictionary_key`).
    pub fn synthetic_dictionary_key(&self, value: u32) -> (k: String)
        requires
            self.wf(),
        ensures
            k@ == dictionary_key(*self, value),
    {
        match self.guest_string_value(value) {
            Some(text) => {
                let lowered = to_lower_chars(&chars_of(text.as_str()));
                string_from_chars(&lowered)
            },
            None => {
                let mut s = String::new();
                push_char(&mut s, '@');
                push_hex_prefixed(&mut s, value as u64, 8);
                proof {
                    reveal_strlit("@");
                    assert(Seq::<char>::empty().push('@') =~= "@"@);
                }
                s
            },
        }
    }

    /// The texture candidate `key`/`index` gives in dictionary `dict` (see
    /// `candidate_texture`).
    fn candidate_texture_exec(&self, dict: u32, key: &str, index: usize) -> (t: u32)
        ensures
            t == candidate_texture(*self, dict, (key@, index as int)),
    {
        let frames = self.synthetic_dictionary_get(dict, key);
        if frames == 0 {
            return 0;
        }
        let count = self.synthetic_array_len(frames);
        if count == 0 {
            return 0;
        }
        let idx = if index < count - 1 {
            index
        } else {
            count - 1
        };
        let frame = self.synthetic_array_get(frames, idx);
        self.synthetic_resolve_texture_like_object(frame)
    }

    /// The texture of node `node`'s default animation (see
    /// `default_animation_texture`).
    pub fn synthetic_node_default_animation_texture(&self, node: u32) -> (t: u32)
        requires
            self.wf(),
        ensures
            t == default_animation_texture(*self, node),
    {
        let st = match self.runtime.graphics.synthetic_sprites.get(&node) {
            Some(s) => *s,
            None => return 0,
        };
        let dict = st.animation_dictionary;
        if dict == 0 {
            return 0;
        }
        let d = match self.runtime.textures.synthetic_dictionaries.get(&dict) {
            Some(d) => d,
            None => return 0,
        };
        let ghost cands = anim_candidates(*self, node);
        let mut candidates: Vec<(String, usize)> = Vec::new();
        if st.last_display_frame_key != 0 {
            let key = self.synthetic_dictionary_key(st.last_display_frame_key);
            if !key.as_str().is_empty() {
                candidates.push((key, st.last_display_frame_index as usize));
            }
        }
        candidates.push((String::from_str("frame"), 0));
        candidates.push((String::from_str("normal"), 0));
        candidates.push((String::from_str("default"), 0));
        candidates.push((String::from_str("idle"), 0));
        candidates.push((String::from_str("up"), 0));
        if d.entries.len() == 1 {
            candidates.push((d.entries[0].0.clone(), 0));
        }
        assert(candidates@.len() == cands.len());
        assert forall|j: int| 0 <= j < cands.len() implies (#[trigger] candidates@[j]).0@ == cands[j].0
            && candidates@[j].1 as int == cands[j].1 by {}
        let mut j: usize = 0;
        assert(cands.skip(0) =~= cands);
        while j < candidates.len()
            invariant
                j <= candidates@.len(),
                candidates@.len() == cands.len(),
                forall|k: int|
                    0 <= k < cands.len() ==> (#[trigger] candidates@[k]).0@ == cands[k].0 && candidates@[k].1 as int
                        == cands[k].1,
                first_texture(*self, dict, cands) == first_texture(*self, dict, cands.skip(j as int)),
            decreases candidates@.len() - j,
        {
            let t = self.candidate_texture_exec(dict, candidates[j].0.as_str(), candidates[j].1);
            assert(cands.skip(j as int)[0] == cands[j as int]);
            if t != 0 {
                return t;
            }
            assert(cands.skip(j as int).drop_first() =~= cands.skip(j + 1));
            j = j + 1;
        }
        0
    }

    /// Whether `label_of(obj)` names a batching node.
    fn is_batch_label(&self, obj: u32) -> (b: bool)
        ensures
            b == batch_label(label_or_empty(*self, obj)),
    {
        match self.object_label(obj) {
            Some(l) => str_contains(l, "SpriteSheet") || str_contains(l, "BatchNode") || str_contains(
                l,
                "TextureAtlas",
            ),
            None => {
                let e = "";
                proof {
                    reveal_strlit("");
                    assert(label_or_empty(*self, obj) =~= e@);
                }
                str_contains(e, "SpriteSheet") || str_contains(e, "BatchNode") || str_contains(e, "TextureAtlas")
            },
        }
    }

    /// The texture node `node` shows (see `effective_texture`).
    pub fn synthetic_node_effective_texture(&self, node: u32) -> (t: u32)
        requires
            self.wf(),
        ensures
            t == effective_texture(*self, node),
    {
        let st = match self.runtime.graphics.synthetic_sprites.get(&node) {
            Some(s) => *s,
            None => return 0,
        };
        if st.texture != 0 {
            return st.texture;
        }
        let anim = self.synthetic_node_default_animation_texture(node);
        if anim != 0 {
            return anim;
        }
        let mut parent = st.parent;
        let mut depth: usize = 0;
        while parent != 0 && depth < 16
            invariant
                depth <= 16,
                effective_texture(*self, node) == batch_parent_texture(*self, parent, depth as nat),
            decreases 16 - depth,
        {
            let ps = match self.runtime.graphics.synthetic_sprites.get(&parent) {
                Some(s) => *s,
                None => return 0,
            };
            if ps.texture != 0 && self.is_batch_label(parent) {
                return ps.texture;
            }
            parent = ps.parent;
            depth = depth + 1;
        }
        0
    }

    /// Whether `w` x `h` matches the surface within 4 pixels either way
    /// round.
    pub fn synthetic_matches_surface_dims(w: u32, h: u32, sw: u32, sh: u32) -> (b: bool)
        ensures
            b == matches_surface(w, h, sw, sh),
    {
        let dw = if w >= sw { w - sw } else { sw - w };
        let dh = if h >= sh { h - sh } else { sh - h };
        let cw = if w >= sh { w - sh } else { sh - w };
        let ch = if h >= sw { h - sw } else { sw - h };
        (dw <= 4 && dh <= 4) || (cw <= 4 && ch <= 4)
    }

    /// Whether a visible node below `node` shows a texture the size of the
    /// surface (see `fullscreen_node`).
    pub fn synthetic_node_or_descendant_has_fullscreen_texture(
        &self,
        node: u32,
        surface_w: u32,
        surface_h: u32,
        depth: usize,
        exclude_subtree_root: u32,
    ) -> (b: bool)
        requires
            self.wf(),
        ensures
            b == fullscreen_node(*self, node, surface_w, surface_h, depth as int, exclude_subtree_root),
        decreases 32 - depth,
    {
        if node == 0 || depth >= 32 {
            return false;
        }
        if exclude_subtree_root != 0 && node == exclude_subtree_root {
            return false;
        }
        let st = match self.runtime.graphics.synthetic_sprites.get(&node) {
            Some(s) => *s,
            None => return false,
        };
        if !st.visible {
            return false;
        }
        let eff = self.synthetic_node_effective_texture(node);
        if eff != 0 {
            let (w, h) = if st.width != 0 && st.height != 0 {
                (st.width, st.height)
            } else {
                match self.synthetic_texture_dimensions(eff) {
                    Some(d) => d,
                    None => (0, 0),
                }
            };
            if w != 0 && h != 0 && Self::synthetic_matches_surface_dims(w, h, surface_w, surface_h) {
                return true;
            }
        }
        if st.children == 0 {
            return false;
        }
        let items = match self.runtime.graphics.synthetic_arrays.get(&st.children) {
            Some(arr) => &arr.items,
            None => {
                proof {
                    assert(fullscreen_list(*self, Seq::<u32>::empty(), 0, surface_w, surface_h, depth + 1, exclude_subtree_root)
                        == false);
                }
                return false;
            },
        };
        let ghost g = self.runtime.graphics;
        let mut j: usize = 0;
        while j < items.len()
            invariant
                depth < 32,
                items@ == arr_items(g, st.children),
                g == self.runtime.graphics,
                j <= items@.len(),
                self.wf(),
                fullscreen_node(*self, node, surface_w, surface_h, depth as int, exclude_subtree_root) == fullscreen_list(
                    *self,
                    items@,
                    j as int,
                    surface_w,
                    surface_h,
                    depth + 1,
                    exclude_subtree_root,
                ),
            decreases items@.len() - j,
        {
            if self.synthetic_node_or_descendant_has_fullscreen_texture(
                items[j],
                surface_w,
                surface_h,
                depth + 1,
                exclude_subtree_root,
            ) {
                return true;
            }
            j = j + 1;
        }
        false
    }

    /// Whether node `node`'s texture rectangle is measured from the bottom
    /// left (see `prefers_bottom_left`).
    pub fn synthetic_node_prefers_bottom_left_texture_rect(&self, node: u32) -> (b: bool)
        requires
            self.wf(),
        ensures
            b == prefers_bottom_left(*self, node),
    {
        let st = match self.runtime.graphics.synthetic_sprites.get(&node) {
            Some(s) => *s,
            None => return false,
        };
        let mut current = st.parent;
        let mut depth: usize = 0;
        while current != 0 && depth < 16
            invariant
                depth <= 16,
                batch_ancestor(*self, st.parent, 0) == batch_ancestor(*self, current, depth as nat),
            decreases 16 - depth,
        {
            let ps = match self.runtime.graphics.synthetic_sprites.get(&current) {
                Some(s) => *s,
                None => break,
            };
            if self.is_batch_label(current) {
                return true;
            }
            current = ps.parent;
            depth = depth + 1;
        }
        let eff = self.synthetic_node_effective_texture(node);
        if eff != 0 {
            match self.runtime.textures.synthetic_textures.get(&eff) {
                Some(tex) => {
                    let mut joined = String::from_str(tex.cache_key.as_str());
                    joined.append("|");
                    joined.append(tex.source_key.as_str());
                    joined.append("|");
                    joined.append(tex.source_path.as_str());
                    let key_chars = to_lower_chars(&chars_of(joined.as_str()));
                    let key = string_from_chars(&key_chars);
                    match self.profile.texture_rect_origin_preference(key.as_str()) {
                        Some(p) => return p,
                        None => {},
                    }
                    if lower_contains(&key_chars, "atlas") || (lower_contains(&key_chars, "sprite") && lower_contains(
                        &key_chars,
                        "sheet",
                    )) {
                        return true;
                    }
                },
                None => {},
            }
        }
        st.texture_rect_explicit
    }

    /// Whether the full-screen colour fill of `node` (in state `state`) is
    /// skipped (see `skip_color_fill`).
    pub fn synthetic_should_skip_fullscreen_color_layer_fill(
        &self,
        node: u32,
        state: &SyntheticSpriteState,
        draw_w: u32,
        draw_h: u32,
        surface_w: u32,
        surface_h: u32,
    ) -> (b: bool)
        requires
            self.wf(),
        ensures
            b == skip_color_fill(*self, node, *state, draw_w, draw_h, surface_w, surface_h),
    {
        if node == 0 || state.parent == 0 {
            return false;
        }
        if !Self::synthetic_matches_surface_dims(draw_w, draw_h, surface_w, surface_h) {
            return false;
        }
        if !state.fill_rgba_explicit || state.fill_rgba[3] == 0 {
            return false;
        }
        let empty = "";
        proof {
            reveal_strlit("");
        }
        let parent_label = match self.object_label(state.parent) {
            Some(l) => l,
            None => empty,
        };
        assert(parent_label@ == label_or_empty(*self, state.parent));
        let parent_has_textured_subtree = self.synthetic_node_or_descendant_has_fullscreen_texture(
            state.parent,
            surface_w,
            surface_h,
            0,
            node,
        );
        if self.profile.should_skip_fullscreen_bootstrap_fill(parent_label, parent_has_textured_subtree) {
            return true;
        }
        let ghost kids = children_items(*self, state.parent);
        let empty_items: Vec<u32> = Vec::new();
        let siblings: &Vec<u32> = match self.runtime.graphics.synthetic_sprites.get(&state.parent) {
            Some(ps) => {
                if ps.children == 0 {
                    &empty_items
                } else {
                    match self.runtime.graphics.synthetic_arrays.get(&ps.children) {
                        Some(arr) => &arr.items,
                        None => &empty_items,
                    }
                }
            },
            None => &empty_items,
        };
        assert(siblings@ == kids);
        let mut found = false;
        let mut j: usize = 0;
        while j < siblings.len()
            invariant
                j <= siblings@.len(),
                siblings@ == kids,
                self.wf(),
                !found,
                forall|k: int|
                    0 <= k < j ==> !(kids[k] != 0 && kids[k] != node
                        && self.runtime.graphics.synthetic_sprites@.contains_key(kids[k])
                        && self.runtime.graphics.synthetic_sprites@[kids[k]].visible && #[trigger] fullscreen_node(
                        *self,
                        kids[k],
                        surface_w,
                        surface_h,
                        0,
                        node,
                    )),
            decreases siblings@.len() - j,
        {
            let sibling = siblings[j];
            if sibling != 0 && sibling != node {
                match self.runtime.graphics.synthetic_sprites.get(&sibling) {
                    Some(ss) => {
                        if ss.visible && self.synthetic_node_or_descendant_has_fullscreen_texture(
                            sibling,
                            surface_w,
                            surface_h,
                            0,
                            node,
                        ) {
                            found = true;
                            break;
                        }
                    },
                    None => {},
                }
            }
            j = j + 1;
        }
        self.profile.should_skip_fullscreen_bootstrap_fill(parent_label, found)
    }


    /// The label of `obj`, or an empty text.
    fn label_text(&self, obj: u32) -> (l: Vec<char>)
        ensures
            l@ == label_or_empty(*self, obj),
    {
        match self.object_label(obj) {
            Some(t) => chars_of(t),
            None => Vec::new(),
        }
    }

    /// The text of `node`'s string backing without NULs, if it has one.
    fn backing_text_exec(&self, node: u32) -> (r: Option<Vec<char>>)
        ensures
            match r {
                Some(v) => backing_text(*self, node) == Some(v@),
                None => backing_text(*self, node) is None,
            },
    {
        match self.runtime.foundation.synthetic_string_backing.get(&node) {
            Some(b) => Some(remove_char_exec(&chars_of(b.text.as_str()), '\0')),
            None => None,
        }
    }

    /// The sibling that bitmap-font label `child` would duplicate under
    /// `parent` at z order `z_order` (see `duplicate_bmfont_child`).
    pub fn maybe_find_duplicate_loading_bmfont_child(&self, parent: u32, child: u32, z_order: i32) -> (r: Option<u32>)
        ensures
            r == duplicate_bmfont_child(*self, parent, child, z_order),
    {
        if parent == 0 || child == 0 {
            return None;
        }
        let empty = "";
        proof {
            reveal_strlit("");
        }
        let parent_label = match self.object_label(parent) {
            Some(l) => l,
            None => empty,
        };
        assert(parent_label@ == label_or_empty(*self, parent));
        if !self.profile.should_dedupe_loading_bmfont_parent(parent_label) {
            return None;
        }
        let child_label = self.label_text(child);
        let child_label_str = string_from_chars(&child_label);
        if !(str_contains(child_label_str.as_str(), "CCLabelBMFont") || str_contains(
            child_label_str.as_str(),
            "FontAtlas",
        )) {
            return None;
        }
        let child_text = match self.backing_text_exec(child) {
            Some(t) => t,
            None => return None,
        };
        let child_state = match self.runtime.graphics.synthetic_sprites.get(&child) {
            Some(s) => *s,
            None => return None,
        };
        let children = self.sprite_or_default(parent).children;
        if children == 0 {
            return None;
        }
        let ghost items = arr_items(self.runtime.graphics, children);
        let count = self.synthetic_array_len(children);
        let mut index: usize = 0;
        while index < count
            invariant
                count == items.len(),
                index <= count,
                items == arr_items(self.runtime.graphics, children),
                child_label@ == label_or_empty(*self, child),
                backing_text(*self, child) == Some(child_text@),
                child_state == sprite_of(self.runtime.graphics, child),
                duplicate_bmfont_child(*self, parent, child, z_order) == first_duplicate(
                    *self,
                    items,
                    index as int,
                    child,
                    z_order,
                ),
            decreases count - index,
        {
            let sibling = self.synthetic_array_get(children, index);
            if sibling != 0 && sibling != child {
                let sibling_label = self.label_text(sibling);
                if chars_eq(&sibling_label, &child_label) {
                    match self.backing_text_exec(sibling) {
                        Some(t) => {
                            if chars_eq(&t, &child_text) {
                                match self.runtime.graphics.synthetic_sprites.get(&sibling) {
                                    Some(ss) => {
                                        if ss.z_order == z_order && ss.position_x_bits == child_state.position_x_bits
                                            && ss.position_y_bits == child_state.position_y_bits {
                                            return Some(sibling);
                                        }
                                    },
                                    None => {},
                                }
                            }
                        },
                        None => {},
                    }
                }
            }
            index = index + 1;
        }
        None
    }

}

} // verus!
