//! The part of a texture image a sprite shows. A sprite with an explicit
//! texture rectangle shows that rectangle; whether it is measured from the
//! top or from the bottom of the image is decided by the title, by the
//! sprite's texture and, failing those, by which crop shows more.
use vstd::prelude::*;
use crate::profiles::TitleProfile;
use crate::profiles::above_and_below::spec_should_force_top_left_low_strip;
use crate::text::{chars_of, seq_contains, string_from_chars, to_lower_chars};
use super::MemoryArm32Backend;
use super::nodes::SyntheticSpriteState;
use super::node_textures::{effective_texture, origin_key, prefers_bottom_left};
use super::pixels::{crop_end, crop_fits, crop_rows, region_score};
use super::guest_strings::{mem_u32, spec_c_string};
use super::span_mapped;

verus! {

/// The rectangle of a `src_w` x `src_h` image, if it fits.
pub open spec fn crop_opt(src: Seq<u8>, src_w: u32, src_h: u32, x: u32, y: u32, w: u32, h: u32) -> Option<Seq<u8>> {
    if crop_fits(src_w, src_h, x, y, w, h) {
        Some(crop_rows(src, src_w, x, y, w, h as int))
    } else {
        None
    }
}

/// Cutting the rectangle out of the image cannot fail part-way: when it
/// fits, its bytes and the indices that reach them stay within the image
/// and within `u32`.
pub open spec fn crop_safe(src: Seq<u8>, src_w: u32, src_h: u32, x: u32, y: u32, w: u32, h: u32) -> bool {
    crop_fits(src_w, src_h, x, y, w, h) ==> crop_end(src_w, x, y, w, h) <= src.len() && crop_end(src_w, x, y, w, h)
        <= u32::MAX && w * h * 4 <= u32::MAX
}

/// The name of the selector at `sel` (see `objc_read_selector_name`).
pub open spec fn selector_name(m: MemoryArm32Backend, sel: u32) -> Option<Seq<char>> {
    match spec_c_string(m.mem(), sel, 160) {
        Some(t) => Some(t),
        None => if span_mapped(m.mem(), sel, 4) {
            spec_c_string(m.mem(), mem_u32(m.mem(), sel), 160)
        } else {
            None
        },
    }
}

/// The callback selector name of the parent of a sprite (empty for none).
pub open spec fn parent_selector_name(m: MemoryArm32Backend, st: SyntheticSpriteState) -> Seq<char> {
    let g = m.runtime.graphics;
    if st.parent == 0 || !g.synthetic_sprites@.contains_key(st.parent) || g.synthetic_sprites@[st.parent].callback_selector
        == 0 {
        Seq::empty()
    } else {
        match selector_name(m, g.synthetic_sprites@[st.parent].callback_selector) {
            Some(s) => s,
            None => Seq::empty(),
        }
    }
}

/// The texture key of a sprite's texture (empty when it shows none).
pub open spec fn region_key(m: MemoryArm32Backend, node: u32) -> Seq<char> {
    let eff = effective_texture(m, node);
    if m.runtime.textures.synthetic_textures@.contains_key(eff) {
        origin_key(m, eff)
    } else {
        Seq::empty()
    }
}

/// `a - b`, at least 0.
pub open spec fn sat_sub_u32(a: u32, b: u32) -> u32 {
    if a >= b {
        (a - b) as u32
    } else {
        0
    }
}

/// The image bytes, width and height sprite `node` (in state `st`) shows of
/// a `src_w` x `src_h` image, its texture rectangle being `rect` (x, y,
/// width, height, in pixels):
/// - the whole image without an explicit rectangle; nothing for a sprite
///   or rectangle of no size;
/// - for the achievements strip of the title's menu buttons, the top-left
///   crop, else the bottom-left one, when it scores above 2048;
/// - for the low strip of the menu buttons, the top-left crop (unless it is
///   the achievements item's and scores at most 2048);
/// - otherwise the crop measured from the side the sprite prefers, unless
///   the other scores more by 4096 (bottom preferred) or 512 (top
///   preferred); the crop that fits when only one does; the whole image
///   when neither does.
pub open spec fn sprite_region(
    m: MemoryArm32Backend,
    node: u32,
    st: SyntheticSpriteState,
    src: Seq<u8>,
    src_w: u32,
    src_h: u32,
    rect: (u32, u32, u32, u32),
) -> (Seq<u8>, u32, u32) {
    let (rx, ry, rw, rh) = rect;
    if !st.texture_rect_explicit {
        (src, src_w, src_h)
    } else if st.width == 0 || st.height == 0 || rw == 0 || rh == 0 {
        (Seq::empty(), 0, 0)
    } else {
        let key = region_key(m, node);
        let top = crop_opt(src, src_w, src_h, rx, ry, rw, rh);
        let flipped = sat_sub_u32(src_h, crate::memory::sat_add_u32(ry, rh));
        let bottom = crop_opt(src, src_w, src_h, rx, flipped, rw, rh);
        let sel = parent_selector_name(m, st);
        let ab = m.profile == TitleProfile::AboveAndBelow;
        let low_strip = ab && spec_should_force_top_left_low_strip(key, rx, ry, rh);
        let achievements = ab && seq_contains(sel, "achievementsCallback:"@);
        if low_strip && achievements && top is Some && region_score(top->0) > 2048 {
            (top->0, rw, rh)
        } else if low_strip && achievements && bottom is Some && region_score(bottom->0) > 2048 {
            (bottom->0, rw, rh)
        } else if low_strip && top is Some && !(achievements && region_score(top->0) <= 2048) {
            (top->0, rw, rh)
        } else {
            match (top, bottom) {
                (Some(a), Some(b)) => if prefers_bottom_left(m, node) {
                    if region_score(a) > region_score(b) + 4096 {
                        (a, rw, rh)
                    } else {
                        (b, rw, rh)
                    }
                } else {
                    if region_score(b) > region_score(a) + 512 {
                        (b, rw, rh)
                    } else {
                        (a, rw, rh)
                    }
                },
                (Some(a), None) => (a, rw, rh),
                (None, Some(b)) => (b, rw, rh),
                (None, None) => (src, src_w, src_h),
            }
        }
    }
}

/// A crop has four bytes for each pixel of the rectangle.
proof fn lemma_crop_rows_len(src: Seq<u8>, src_w: u32, x: u32, y: u32, w: u32, n: int)
    requires
        0 <= n,
        forall|r: int|
            0 <= r < n ==> 0 <= #[trigger] super::pixels::crop_row_start(src_w, x, y, r) && super::pixels::crop_row_start(
                src_w,
                x,
                y,
                r,
            ) + w * 4 <= src.len(),
    ensures
        crop_rows(src, src_w, x, y, w, n).len() == n * (w * 4),
    decreases n,
{
    if n > 0 {
        lemma_crop_rows_len(src, src_w, x, y, w, n - 1);
        assert(n * (w * 4) == (n - 1) * (w * 4) + w * 4) by (nonlinear_arith);
    }
}

impl MemoryArm32Backend {
    /// The rectangle of the image, when it fits, with its score.
    fn scored_crop(
        src: &[u8],
        src_w: u32,
        src_h: u32,
        x: u32,
        y: u32,
        w: u32,
        h: u32,
    ) -> (r: Option<(Vec<u8>, u64)>)
        requires
            crop_safe(src@, src_w, src_h, x, y, w, h),
        ensures
            match crop_opt(src@, src_w, src_h, x, y, w, h) {
                Some(c) => r matches Some(p) && p.0@ == c && p.1 == region_score(c),
                None => r is None,
            },
    {
        match Self::crop_rgba_region(src, src_w, src_h, x, y, w, h) {
            Some(c) => {
                proof {
                    assert forall|r: int| 0 <= r < h implies 0 <= #[trigger] super::pixels::crop_row_start(
                        src_w,
                        x,
                        y,
                        r,
                    ) && super::pixels::crop_row_start(src_w, x, y, r) + w * 4 <= src@.len() by {
                        assert((y + r) * src_w <= (y + h - 1) * src_w) by (nonlinear_arith)
                            requires
                                r <= h - 1,
                        ;
                    }
                    lemma_crop_rows_len(src@, src_w, x, y, w, h as int);
                    assert(h * (w * 4) == w * h * 4) by (nonlinear_arith);
                }
                let s = Self::score_rgba_region(c.as_slice());
                Some((c, s))
            },
            None => None,
        }
    }

    /// The name of the callback selector of `st`'s parent (empty for none).
    fn parent_selector_name_exec(&self, st: &SyntheticSpriteState) -> (s: String)
        requires
            self.wf(),
        ensures
            s@ == parent_selector_name(*self, *st),
    {
        if st.parent == 0 {
            return String::new();
        }
        match self.runtime.graphics.synthetic_sprites.get(&st.parent) {
            Some(ps) => {
                if ps.callback_selector == 0 {
                    String::new()
                } else {
                    match self.objc_read_selector_name(ps.callback_selector) {
                        Some(n) => n,
                        None => String::new(),
                    }
                }
            },
            None => String::new(),
        }
    }

    /// The texture key of `node`'s texture (empty when it shows none).
    fn region_key_exec(&self, node: u32) -> (s: String)
        requires
            self.wf(),
        ensures
            s@ == region_key(*self, node),
    {
        let eff = self.synthetic_node_effective_texture(node);
        match self.runtime.textures.synthetic_textures.get(&eff) {
            Some(tex) => {
                let mut joined = String::from_str(tex.cache_key.as_str());
                joined.append("|");
                joined.append(tex.source_key.as_str());
                joined.append("|");
                joined.append(tex.source_path.as_str());
                string_from_chars(&to_lower_chars(&chars_of(joined.as_str())))
            },
            None => String::new(),
        }
    }

    /// The image bytes, width and height sprite `node` (in state `state`)
    /// shows of a `src_w` x `src_h` image, its texture rectangle measuring
    /// `rect` pixels (see `sprite_region`).
    pub fn resolve_sprite_texture_region(
        &self,
        node: u32,
        state: &SyntheticSpriteState,
        src: &[u8],
        src_w: u32,
        src_h: u32,
        rect: (u32, u32, u32, u32),
    ) -> (r: (Vec<u8>, u32, u32))
        requires
            self.wf(),
            crop_safe(src@, src_w, src_h, rect.0, rect.1, rect.2, rect.3),
            crop_safe(
                src@,
                src_w,
                src_h,
                rect.0,
                sat_sub_u32(src_h, crate::memory::sat_add_u32(rect.1, rect.3)),
                rect.2,
                rect.3,
            ),
        ensures
            (r.0@, r.1, r.2) == sprite_region(*self, node, *state, src@, src_w, src_h, rect),
    {
        let (rect_x, rect_y, rect_w, rect_h) = rect;
        if !state.texture_rect_explicit {
            return (vstd::slice::slice_to_vec(src), src_w, src_h);
        }
        if state.width == 0 || state.height == 0 || rect_w == 0 || rect_h == 0 {
            return (Vec::new(), 0, 0);
        }
        let key = self.region_key_exec(node);
        let top = Self::scored_crop(src, src_w, src_h, rect_x, rect_y, rect_w, rect_h);
        let flipped_y = src_h.saturating_sub(rect_y.saturating_add(rect_h));
        let bottom = Self::scored_crop(src, src_w, src_h, rect_x, flipped_y, rect_w, rect_h);
        let selector = self.parent_selector_name_exec(state);
        let low_strip = self.profile.should_force_top_left_low_strip(key.as_str(), rect_x, rect_y, rect_h);
        let achievements = self.profile.is_achievements_selector(selector.as_str());
        if low_strip && achievements {
            match &top {
                Some((a, s)) => {
                    if *s > 2048 {
                        return (vstd::slice::slice_to_vec(a.as_slice()), rect_w, rect_h);
                    }
                },
                None => {},
            }
            match &bottom {
                Some((b, s)) => {
                    if *s > 2048 {
                        return (vstd::slice::slice_to_vec(b.as_slice()), rect_w, rect_h);
                    }
                },
                None => {},
            }
        }
        if low_strip {
            match &top {
                Some((a, s)) => {
                    if !(achievements && *s <= 2048) {
                        return (vstd::slice::slice_to_vec(a.as_slice()), rect_w, rect_h);
                    }
                },
                None => {},
            }
        }
        let prefer_bottom_left = self.synthetic_node_prefers_bottom_left_texture_rect(node);
        match (top, bottom) {
            (Some((a, score_a)), Some((b, score_b))) => {
                if prefer_bottom_left {
                    if score_a > score_b.saturating_add(4096) {
                        (a, rect_w, rect_h)
                    } else {
                        (b, rect_w, rect_h)
                    }
                } else {
                    if score_b > score_a.saturating_add(512) {
                        (b, rect_w, rect_h)
                    } else {
                        (a, rect_w, rect_h)
                    }
                }
            },
            (Some((a, _)), None) => (a, rect_w, rect_h),
            (None, Some((b, _))) => (b, rect_w, rect_h),
            (None, None) => (vstd::slice::slice_to_vec(src), src_w, src_h),
        }
    }
}

} // verus!
