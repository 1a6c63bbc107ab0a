//! The logical drawing surface and its viewport, and how a scene root's
//! measured sizes pick a new logical surface.
//!
//! Each candidate is a width, a height and a priority. A candidate outside
//! 32..=4096 in either dimension is rejected; the others are scored by
//! priority, by how well they match the current surface (directly or
//! rotated) and by whether they cover most of it. The first candidate with
//! the highest score wins, and the surface changes only if it differs.
use vstd::prelude::*;
use crate::backend::MemoryArm32Backend;

verus! {

/// Candidate priority of a size measured with a scene projection probe.
pub const SURFACE_PRIORITY_PROBE: u32 = 300;
/// Candidate priority of the canvas spanned by a scene's children.
pub const SURFACE_PRIORITY_CHILDREN: u32 = 240;
/// Candidate priority of the children's canvas when the root's own layout
/// looks inflated beside it.
pub const SURFACE_PRIORITY_CHILDREN_INFLATED: u32 = 360;
/// Candidate priority of the root's own layout size.
pub const SURFACE_PRIORITY_LAYOUT: u32 = 180;

/// The logical surface size and the viewport drawn into it.
#[derive(Debug, Clone, Copy, PartialEq, Eq)]
pub struct LogicalSurface {
    pub surface_width: u32,
    pub surface_height: u32,
    pub viewport_x: i32,
    pub viewport_y: i32,
    pub viewport_width: u32,
    pub viewport_height: u32,
}

/// `x`, but at least 1.
pub open spec fn at_least_one(x: u32) -> u32 {
    if x == 0 {
        1
    } else {
        x
    }
}

/// `a * b`, held at `u32::MAX`.
pub open spec fn sat_mul_u32(a: u32, b: u32) -> int {
    if a * b > u32::MAX {
        u32::MAX as int
    } else {
        a * b
    }
}

/// Three quarters of `x` (computed with a saturating multiply).
pub open spec fn three_quarters(x: u32) -> int {
    sat_mul_u32(x, 3) / 4
}

/// Absolute difference.
pub open spec fn abs_int(x: int) -> int {
    if x < 0 {
        -x
    } else {
        x
    }
}

/// The score of candidate `(w, h, priority)` against a current surface of
/// `ow` x `oh`, or `None` if the candidate is rejected.
pub open spec fn candidate_score(ow: u32, oh: u32, w: u32, h: u32, priority: u32) -> Option<int> {
    if w < 32 || h < 32 || w > 4096 || h > 4096 || sat_mul_u32(w, h) < 32 * 32 {
        None
    } else {
        let direct = abs_int(w - ow) + abs_int(h - oh);
        let swapped = abs_int(w - oh) + abs_int(h - ow);
        let orientation = if swapped + 4 < direct {
            48int
        } else if direct + 4 < swapped {
            16int
        } else {
            0int
        };
        let fullscreen = if (w >= three_quarters(ow) && h >= three_quarters(oh)) || (w >= three_quarters(oh) && h
            >= three_quarters(ow)) {
            32int
        } else {
            0int
        };
        let nearest = if direct < swapped {
            direct
        } else {
            swapped
        };
        Some(priority + orientation + fullscreen - nearest / 16)
    }
}

/// The score of candidate `c`.
pub open spec fn cand_score(ow: u32, oh: u32, c: (u32, u32, u32)) -> Option<int> {
    candidate_score(ow, oh, c.0, c.1, c.2)
}

/// Index of the first candidate with the highest score, if any is
/// accepted.
pub open spec fn best_candidate(ow: u32, oh: u32, cands: Seq<(u32, u32, u32)>) -> Option<int>
    decreases cands.len(),
{
    if cands.len() == 0 {
        None
    } else {
        let prev = best_candidate(ow, oh, cands.drop_last());
        let last = (cands.len() - 1) as int;
        match cand_score(ow, oh, cands[last]) {
            None => prev,
            Some(s) => match prev {
                None => Some(last),
                Some(b) => if s > cand_score(ow, oh, cands[b])->0 {
                    Some(last)
                } else {
                    prev
                },
            },
        }
    }
}

/// The new logical size picked from `cands` for a surface of
/// `surface_w` x `surface_h` (each taken as at least 1): the best
/// candidate, unless it equals the current size.
pub open spec fn chosen_surface(surface_w: u32, surface_h: u32, cands: Seq<(u32, u32, u32)>) -> Option<(u32, u32)> {
    let ow = at_least_one(surface_w);
    let oh = at_least_one(surface_h);
    match best_candidate(ow, oh, cands) {
        None => None,
        Some(i) => if cands[i].0 == ow && cands[i].1 == oh {
            None
        } else {
            Some((cands[i].0, cands[i].1))
        },
    }
}

/// The best candidate is accepted and scores at least as high as every
/// accepted candidate, strictly higher than those before it.
pub proof fn lemma_best_candidate(ow: u32, oh: u32, cands: Seq<(u32, u32, u32)>)
    ensures
        best_candidate(ow, oh, cands) matches Some(b) ==> {
            &&& 0 <= b < cands.len()
            &&& cand_score(ow, oh, cands[b]) is Some
            &&& forall|j: int|
                0 <= j < cands.len() && #[trigger] cand_score(ow, oh, cands[j]) is Some ==> cand_score(
                    ow,
                    oh,
                    cands[j],
                )->0 <= cand_score(ow, oh, cands[b])->0
            &&& forall|j: int|
                0 <= j < b && #[trigger] cand_score(ow, oh, cands[j]) is Some ==> cand_score(ow, oh, cands[j])->0
                    < cand_score(ow, oh, cands[b])->0
        },
        best_candidate(ow, oh, cands) is None ==> forall|j: int|
            0 <= j < cands.len() ==> #[trigger] cand_score(ow, oh, cands[j]) is None,
    decreases cands.len(),
{
    if cands.len() > 0 {
        let d = cands.drop_last();
        lemma_best_candidate(ow, oh, d);
        assert forall|j: int| 0 <= j < d.len() implies d[j] == cands[j] by {}
    }
}

/// `a * b`, held at `u32::MAX`.
fn saturating_mul_u32(a: u32, b: u32) -> (r: u32)
    ensures
        r == sat_mul_u32(a, b),
{
    assert(a as u64 * b as u64 <= 0xffff_ffffu64 * 0xffff_ffffu64) by (nonlinear_arith)
        requires
            a <= 0xffff_ffffu32,
            b <= 0xffff_ffffu32,
    ;
    let p = a as u64 * b as u64;
    if p > u32::MAX as u64 {
        u32::MAX
    } else {
        p as u32
    }
}

/// One more candidate: it becomes the best when it is accepted and beats
/// the best so far.
proof fn lemma_best_step(ow: u32, oh: u32, cands: Seq<(u32, u32, u32)>, i: int)
    requires
        0 <= i < cands.len(),
    ensures
        best_candidate(ow, oh, cands.take(i + 1)) == (match cand_score(ow, oh, cands[i]) {
            None => best_candidate(ow, oh, cands.take(i)),
            Some(s) => match best_candidate(ow, oh, cands.take(i)) {
                None => Some(i),
                Some(b) => if s > cand_score(ow, oh, cands[b])->0 {
                    Some(i)
                } else {
                    Some(b)
                },
            },
        }),
{
    let t = cands.take(i + 1);
    assert(t.drop_last() =~= cands.take(i));
    lemma_best_candidate(ow, oh, cands.take(i));
    if let Some(b) = best_candidate(ow, oh, cands.take(i)) {
        assert(t[b] == cands[b]);
    }
    assert(t[i] == cands[i]);
}

/// A picked size is accepted and differs from the current one.
pub proof fn lemma_chosen_in_range(surface_w: u32, surface_h: u32, cands: Seq<(u32, u32, u32)>)
    ensures
        chosen_surface(surface_w, surface_h, cands) matches Some((w, h)) ==> 32 <= w <= 4096 && 32 <= h <= 4096 && (w
            != at_least_one(surface_w) || h != at_least_one(surface_h)),
{
    let ow = at_least_one(surface_w);
    let oh = at_least_one(surface_h);
    lemma_best_candidate(ow, oh, cands);
    if let Some(b) = best_candidate(ow, oh, cands) {
        reveal(candidate_score);
        assert(cand_score(ow, oh, cands[b]) is Some);
    }
}

/// Score of candidate `(w, h, priority)` against a surface of `ow` x `oh`,
/// or `None` when it is rejected.
pub fn surface_candidate_score(ow: u32, oh: u32, w: u32, h: u32, priority: u32) -> (r: Option<i64>)
    ensures
        match candidate_score(ow, oh, w, h, priority) {
            None => r is None,
            Some(s) => r == Some(s as i64),
        },
{
    reveal(candidate_score);
    if w < 32 || h < 32 || w > 4096 || h > 4096 {
        return None;
    }
    let area = saturating_mul_u32(w, h);
    if area < 32 * 32 {
        return None;
    }
    let wi = w as i64;
    let hi = h as i64;
    let owi = ow as i64;
    let ohi = oh as i64;
    let dw = if wi >= owi { wi - owi } else { owi - wi };
    let dh = if hi >= ohi { hi - ohi } else { ohi - hi };
    let sw = if wi >= ohi { wi - ohi } else { ohi - wi };
    let sh = if hi >= owi { hi - owi } else { owi - hi };
    let direct = dw + dh;
    let swapped = sw + sh;
    let orientation: i64 = if swapped + 4 < direct {
        48
    } else if direct + 4 < swapped {
        16
    } else {
        0
    };
    let ow34 = saturating_mul_u32(ow, 3) / 4;
    let oh34 = saturating_mul_u32(oh, 3) / 4;
    let fullscreen: i64 = if (w >= ow34 && h >= oh34) || (w >= oh34 && h >= ow34) {
        32
    } else {
        0
    };
    let nearest = if direct < swapped { direct } else { swapped };
    Some(priority as i64 + orientation + fullscreen - nearest / 16)
}

/// Priority of the children's canvas `child_w` x `child_h` beside the
/// root's layout `layout_w` x `layout_h` on a surface `old_w` wide: the
/// root looks inflated when it is more than a quarter wider than the
/// canvas, about as tall, and covers most of the surface's width.
pub fn scene_children_priority(layout_w: u32, layout_h: u32, child_w: u32, child_h: u32, old_w: u32) -> (p: u32)
    ensures
        p == (if layout_w > sat_mul_u32(child_w, 5) / 4 && abs_int(layout_h - child_h) <= (if at_least_one(child_h)
            / 6 > 8 {
            at_least_one(child_h) / 6
        } else {
            8
        }) && layout_w >= three_quarters(old_w) {
            SURFACE_PRIORITY_CHILDREN_INFLATED
        } else {
            SURFACE_PRIORITY_CHILDREN
        }),
{
    let ch = if child_h == 0 { 1 } else { child_h };
    let tol0 = ch / 6;
    let tol = if tol0 > 8 { tol0 } else { 8 };
    let dh = if layout_h >= child_h { layout_h - child_h } else { child_h - layout_h };
    let inflated = layout_w > saturating_mul_u32(child_w, 5) / 4 && dh <= tol && layout_w >= saturating_mul_u32(old_w, 3) / 4;
    if inflated {
        SURFACE_PRIORITY_CHILDREN_INFLATED
    } else {
        SURFACE_PRIORITY_CHILDREN
    }
}

/// Picks the new logical surface size from `cands` (width, height,
/// priority) for a surface of `surface_w` x `surface_h`: the first
/// candidate with the highest score, or `None` when no candidate is
/// accepted or the best one is the current size.
#[verifier::spinoff_prover]
pub fn choose_logical_surface(surface_w: u32, surface_h: u32, cands: &Vec<(u32, u32, u32)>) -> (r: Option<(u32, u32)>)
    ensures
        r == chosen_surface(surface_w, surface_h, cands@),
        r matches Some((w, h)) ==> 32 <= w <= 4096 && 32 <= h <= 4096 && (w != at_least_one(surface_w) || h
            != at_least_one(surface_h)),
{
    let ow = if surface_w == 0 { 1 } else { surface_w };
    let oh = if surface_h == 0 { 1 } else { surface_h };
    let mut best: Option<(usize, i64)> = None;
    let mut i: usize = 0;
    while i < cands.len()
        invariant
            i <= cands@.len(),
            best_candidate(ow, oh, cands@.take(i as int)) == (match best {
                None => None,
                Some((bi, _)) => Some(bi as int),
            }),
            best matches Some((bi, bs)) ==> bi < i && cand_score(ow, oh, cands@[bi as int]) == Some(bs as int),
        decreases cands.len() - i,
    {
        let (w, h, p) = cands[i];
        proof {
            lemma_best_step(ow, oh, cands@, i as int);
            reveal(candidate_score);
        }
        let sc = surface_candidate_score(ow, oh, w, h, p);
        match sc {
            None => {},
            Some(s) => {
                let replace = match best {
                    None => true,
                    Some((_, bs)) => s > bs,
                };
                if replace {
                    best = Some((i, s));
                }
            },
        }
        i = i + 1;
    }
    proof {
        assert(cands@.take(cands@.len() as int) =~= cands@);
        lemma_chosen_in_range(surface_w, surface_h, cands@);
    }
    match best {
        None => None,
        Some((b, _)) => {
            let (w, h, _) = cands[b];
            if w == ow && h == oh {
                None
            } else {
                Some((w, h))
            }
        },
    }
}

/// The surface after switching to `w` x `h`: the viewport is reset to the
/// whole new surface when it was empty or covered exactly the old surface
/// (taken as at least 1 x 1), and is kept otherwise.
pub open spec fn resized_surface(s: LogicalSurface, w: u32, h: u32) -> LogicalSurface {
    let ow = at_least_one(s.surface_width);
    let oh = at_least_one(s.surface_height);
    let follows = s.viewport_width == 0 || s.viewport_height == 0 || (s.viewport_x == 0 && s.viewport_y == 0
        && s.viewport_width == ow && s.viewport_height == oh);
    if follows {
        LogicalSurface {
            surface_width: w,
            surface_height: h,
            viewport_x: 0,
            viewport_y: 0,
            viewport_width: w,
            viewport_height: h,
        }
    } else {
        LogicalSurface { surface_width: w, surface_height: h, ..s }
    }
}

impl LogicalSurface {
    /// Switches to a logical surface of `w` x `h`, carrying the viewport
    /// along when it followed the old surface.
    pub fn resize(&mut self, w: u32, h: u32)
        ensures
            *final(self) == resized_surface(*old(self), w, h),
    {
        let ow = if self.surface_width == 0 { 1 } else { self.surface_width };
        let oh = if self.surface_height == 0 { 1 } else { self.surface_height };
        let follows = self.viewport_width == 0 || self.viewport_height == 0 || (self.viewport_x == 0
            && self.viewport_y == 0 && self.viewport_width == ow && self.viewport_height == oh);
        self.surface_width = w;
        self.surface_height = h;
        if follows {
            self.viewport_x = 0;
            self.viewport_y = 0;
            self.viewport_width = w;
            self.viewport_height = h;
        }
    }

    /// Picks a logical surface from `cands` and switches to it; returns
    /// the new size, or `None` (leaving the surface as it was) when none is
    /// picked.
    pub fn sync_from_candidates(&mut self, cands: &Vec<(u32, u32, u32)>) -> (r: Option<(u32, u32)>)
        ensures
            r == chosen_surface(old(self).surface_width, old(self).surface_height, cands@),
            match r {
                None => *final(self) == *old(self),
                Some((w, h)) => *final(self) == resized_surface(*old(self), w, h),
            },
    {
        let r = choose_logical_surface(self.surface_width, self.surface_height, cands);
        match r {
            None => {},
            Some((w, h)) => self.resize(w, h),
        }
        r
    }
}

/// The presentation state of the synthetic GL surface.
#[derive(Debug, Clone, Copy, PartialEq, Eq)]
pub struct GraphicsPresentState {
    pub gl_calls: u32,
    pub layer_attached: bool,
    pub context_current: bool,
    pub surface_ready: bool,
    pub framebuffer_complete: bool,
    pub viewport_ready: bool,
    pub surface: LogicalSurface,
    pub present_calls: u32,
    pub frame_index: u32,
    pub last_visible_bbox_x: u32,
    pub last_visible_bbox_y: u32,
    pub last_visible_bbox_width: u32,
    pub last_visible_bbox_height: u32,
}

/// What a graphics tick asks the host to do.
#[derive(Debug, Clone, Copy, PartialEq, Eq)]
pub enum GraphicsTickAction {
    /// The drawable layer was attached to the window.
    AttachLayer,
    /// The GL context was made current.
    MakeContextCurrent,
    /// Renderbuffer storage was allocated: the framebuffer backing is owed.
    AllocateSurface,
    /// The surface is ready: a frame is presented.
    Present,
}

/// `a + 1`, held at `u32::MAX`.
pub open spec fn sat_inc(a: u32) -> u32 {
    if a == u32::MAX {
        a
    } else {
        (a + 1) as u32
    }
}

/// The state after one tick: one more GL call, then the first setup step
/// not yet done (attach the layer, make the context current, allocate the
/// surface with the viewport covering it), or nothing more once all are.
pub open spec fn graphics_tick(s: GraphicsPresentState) -> GraphicsPresentState {
    let t = GraphicsPresentState { gl_calls: sat_inc(s.gl_calls), ..s };
    if !s.layer_attached {
        GraphicsPresentState { layer_attached: true, ..t }
    } else if !s.context_current {
        GraphicsPresentState { context_current: true, ..t }
    } else if !s.surface_ready {
        GraphicsPresentState {
            surface_ready: true,
            framebuffer_complete: true,
            viewport_ready: true,
            surface: LogicalSurface {
                viewport_x: 0,
                viewport_y: 0,
                viewport_width: s.surface.surface_width,
                viewport_height: s.surface.surface_height,
                ..s.surface
            },
            ..t
        }
    } else {
        t
    }
}

/// The action of a tick from state `s`.
pub open spec fn tick_action(s: GraphicsPresentState) -> GraphicsTickAction {
    if !s.layer_attached {
        GraphicsTickAction::AttachLayer
    } else if !s.context_current {
        GraphicsTickAction::MakeContextCurrent
    } else if !s.surface_ready {
        GraphicsTickAction::AllocateSurface
    } else {
        GraphicsTickAction::Present
    }
}

impl GraphicsPresentState {
    /// Nothing set up yet: no layer, no context, no surface, no frame.
    pub fn new() -> (g: Self)
        ensures
            !g.layer_attached && !g.context_current && !g.surface_ready,
            !g.framebuffer_complete && !g.viewport_ready,
            g.gl_calls == 0 && g.present_calls == 0 && g.frame_index == 0,
            g.surface == (LogicalSurface {
                surface_width: 0,
                surface_height: 0,
                viewport_x: 0,
                viewport_y: 0,
                viewport_width: 0,
                viewport_height: 0,
            }),
            g.last_visible_bbox_x == 0 && g.last_visible_bbox_y == 0,
            g.last_visible_bbox_width == 0 && g.last_visible_bbox_height == 0,
    {
        GraphicsPresentState {
            gl_calls: 0,
            layer_attached: false,
            context_current: false,
            surface_ready: false,
            framebuffer_complete: false,
            viewport_ready: false,
            surface: LogicalSurface {
                surface_width: 0,
                surface_height: 0,
                viewport_x: 0,
                viewport_y: 0,
                viewport_width: 0,
                viewport_height: 0,
            },
            present_calls: 0,
            frame_index: 0,
            last_visible_bbox_x: 0,
            last_visible_bbox_y: 0,
            last_visible_bbox_width: 0,
            last_visible_bbox_height: 0,
        }
    }

    /// One graphics tick: counts a GL call and takes the next setup step,
    /// or asks for a frame once the surface is ready.
    pub fn simulate_graphics_tick(&mut self) -> (a: GraphicsTickAction)
        ensures
            *final(self) == graphics_tick(*old(self)),
            a == tick_action(*old(self)),
    {
        self.gl_calls = if self.gl_calls == u32::MAX { u32::MAX } else { self.gl_calls + 1 };
        if !self.layer_attached {
            self.layer_attached = true;
            GraphicsTickAction::AttachLayer
        } else if !self.context_current {
            self.context_current = true;
            GraphicsTickAction::MakeContextCurrent
        } else if !self.surface_ready {
            self.surface_ready = true;
            self.framebuffer_complete = true;
            self.viewport_ready = true;
            self.surface.viewport_x = 0;
            self.surface.viewport_y = 0;
            self.surface.viewport_width = self.surface.surface_width;
            self.surface.viewport_height = self.surface.surface_height;
            GraphicsTickAction::AllocateSurface
        } else {
            GraphicsTickAction::Present
        }
    }
}

/// Setup takes at most three ticks: after three ticks from any state, every
/// tick presents a frame.
pub proof fn lemma_setup_completes(s: GraphicsPresentState)
    ensures
        tick_action(graphics_tick(graphics_tick(graphics_tick(s)))) == GraphicsTickAction::Present,
{
}

/// Whether the scene is drawn into the framebuffer this frame.
#[derive(Debug, Clone, Copy, PartialEq, Eq)]
pub struct AutoVisitDecision {
    /// A scene root exists and the guest drew at most one call since the
    /// last present (or only cleared).
    pub allow: bool,
    /// The scene is visited.
    pub visit: bool,
    /// The last visible box covered only part of the surface.
    pub partial_retained: bool,
    /// The guest only cleared the framebuffer since the last present.
    pub guest_clear_only: bool,
}

/// The last visible box covered only part of the surface: it is not empty
/// and is offset by more than 8 pixels or covers under 70% of the surface.
pub open spec fn partial_retained(s: GraphicsPresentState) -> bool {
    let bbox = sat_mul_u32(s.last_visible_bbox_width, s.last_visible_bbox_height);
    let area = sat_mul_u32(at_least_one(s.surface.surface_width), at_least_one(s.surface.surface_height));
    bbox > 0 && (s.last_visible_bbox_x > 8 || s.last_visible_bbox_y > 8 || (if bbox * 100 > u32::MAX {
        u32::MAX as int
    } else {
        bbox * 100
    }) < (if area * 70 > u32::MAX {
        u32::MAX as int
    } else {
        area * 70
    }))
}

/// The auto-visit decision for a frame.
pub open spec fn spec_auto_visit(
    s: GraphicsPresentState,
    has_scene_root: bool,
    scene_changed: bool,
    guest_dirty: bool,
    guest_draws: u32,
) -> AutoVisitDecision {
    let clear_only = guest_dirty && guest_draws == 0;
    let allow = has_scene_root && (!guest_dirty || clear_only || guest_draws <= 1);
    let partial = has_scene_root && partial_retained(s);
    AutoVisitDecision {
        allow,
        visit: allow && (scene_changed || partial || clear_only || s.present_calls == 0 || s.frame_index == 0),
        partial_retained: partial,
        guest_clear_only: clear_only,
    }
}

/// Decides whether a present frame visits the scene: `scene_changed` says
/// whether the scene's signature differs from the last drawn one,
/// `guest_dirty` and `guest_draws` what the guest drew since the last
/// present.
pub fn auto_scene_visit_decision(
    s: &GraphicsPresentState,
    has_scene_root: bool,
    scene_changed: bool,
    guest_dirty: bool,
    guest_draws: u32,
) -> (d: AutoVisitDecision)
    ensures
        d == spec_auto_visit(*s, has_scene_root, scene_changed, guest_dirty, guest_draws),
{
    let clear_only = guest_dirty && guest_draws == 0;
    let allow = has_scene_root && (!guest_dirty || clear_only || guest_draws <= 1);
    let bbox = saturating_mul_u32(s.last_visible_bbox_width, s.last_visible_bbox_height);
    let sw = if s.surface.surface_width == 0 { 1 } else { s.surface.surface_width };
    let sh = if s.surface.surface_height == 0 { 1 } else { s.surface.surface_height };
    let area = saturating_mul_u32(sw, sh);
    let partial = has_scene_root && bbox > 0 && (s.last_visible_bbox_x > 8 || s.last_visible_bbox_y > 8
        || saturating_mul_u32(bbox, 100) < saturating_mul_u32(area, 70));
    AutoVisitDecision {
        allow,
        visit: allow && (scene_changed || partial || clear_only || s.present_calls == 0 || s.frame_index == 0),
        partial_retained: partial,
        guest_clear_only: clear_only,
    }
}

/// `b` with its presentation state replaced by `g`, all else kept.
pub open spec fn with_ui_graphics(b: MemoryArm32Backend, g: GraphicsPresentState) -> MemoryArm32Backend {
    MemoryArm32Backend { runtime: crate::backend::BackendRuntimeState { ui_graphics: g, ..b.runtime }, ..b }
}

impl MemoryArm32Backend {
    /// Syncs the runtime's logical surface with the scene rooted at `root`,
    /// from the sizes measured for it (`cands`: width, height, priority). A
    /// null root, or one that is not a synthetic node, changes nothing and
    /// gives `None`; otherwise the best candidate is taken as by
    /// `LogicalSurface::sync_from_candidates`.
    pub fn maybe_sync_logical_surface_from_scene_root(&mut self, root: u32, cands: &Vec<(u32, u32, u32)>) -> (r: Option<
        (u32, u32),
    >)
        ensures
            ({
                let s0 = old(self).runtime.ui_graphics.surface;
                let known = root != 0 && old(self).runtime.graphics.synthetic_sprites@.contains_key(root);
                &&& !known ==> r is None
                &&& known ==> r == chosen_surface(s0.surface_width, s0.surface_height, cands@)
                &&& r is None ==> *final(self) == *old(self)
                &&& r matches Some((w, h)) ==> {
                    &&& *final(self) == with_ui_graphics(
                        *old(self),
                        GraphicsPresentState { surface: resized_surface(s0, w, h), ..old(self).runtime.ui_graphics },
                    )
                    &&& 32 <= w <= 4096 && 32 <= h <= 4096
                    &&& (w != at_least_one(s0.surface_width) || h != at_least_one(s0.surface_height))
                }
            }),
    {
        if root == 0 || !self.runtime.graphics.synthetic_sprites.contains_key(&root) {
            return None;
        }
        let ghost s0 = self.runtime.ui_graphics.surface;
        let r = self.runtime.ui_graphics.surface.sync_from_candidates(cands);
        proof {
            lemma_chosen_in_range(s0.surface_width, s0.surface_height, cands@);
        }
        r
    }

    /// One graphics tick of the runtime's presentation state (see
    /// `GraphicsPresentState::simulate_graphics_tick`); nothing else changes.
    pub fn simulate_graphics_tick(&mut self) -> (a: GraphicsTickAction)
        ensures
            *final(self) == with_ui_graphics(*old(self), graphics_tick(old(self).runtime.ui_graphics)),
            a == tick_action(old(self).runtime.ui_graphics),
    {
        self.runtime.ui_graphics.simulate_graphics_tick()
    }
}

} // verus!
