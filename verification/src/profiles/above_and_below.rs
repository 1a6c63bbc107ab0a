//! Title-specific rules for "Above and Below".
use vstd::prelude::*;
use crate::text::{
    chars_of, lower_contains, lower_seq, remove_char, remove_char_exec, seq_contains,
    str_contains, to_lower_chars, chars_eq,
};
use super::{
    payload_bytes, spec_payload_bytes, DirectorIvarLayout, SyntheticImageChannelTransform,
    SyntheticNetworkProfile,
};

verus! {

/// Whether a (lower-cased) bundle path names this title.
pub open spec fn spec_is_title_lowered(lower: Seq<char>) -> bool {
    seq_contains(lower, "aboveandbelow"@) || seq_contains(lower, "above-and-below"@) || seq_contains(
        lower,
        "above_and_below"@,
    ) || seq_contains(lower, "aboveandbelow-eng"@)
}

/// Whether the bundle root names this title; no bundle root never does.
pub open spec fn spec_is_title(bundle_root: Option<Seq<char>>) -> bool {
    match bundle_root {
        Some(p) => spec_is_title_lowered(lower_seq(p)),
        None => spec_is_title_lowered(Seq::empty()),
    }
}

/// Recognises the title's bundle from its root path (case-insensitive).
pub fn is_title(bundle_root: Option<&str>) -> (b: bool)
    ensures
        b == spec_is_title(
            match bundle_root {
                Some(p) => Some(p@),
                None => None,
            },
        ),
{
    let lower: Vec<char> = match bundle_root {
        Some(p) => {
            let c = chars_of(p);
            to_lower_chars(&c)
        },
        None => Vec::new(),
    };
    proof {
        if bundle_root is None {
            assert(lower@ == Seq::<char>::empty());
        }
    }
    lower_contains(&lower, "aboveandbelow") || lower_contains(&lower, "above-and-below")
        || lower_contains(&lower, "above_and_below") || lower_contains(&lower, "aboveandbelow-eng")
}

/// The director's instance-variable offsets for this title.
pub open spec fn spec_title_director_layout() -> DirectorIvarLayout {
    DirectorIvarLayout {
        open_gl_view_offset: 4,
        running_scene_offset: 68,
        next_scene_offset: 72,
        effect_scene_offset: None,
    }
}

/// The director layout, but only when the bundle is this title.
pub fn director_ivar_layout(bundle_root: Option<&str>) -> (r: Option<DirectorIvarLayout>)
    ensures
        r == (if spec_is_title(
            match bundle_root {
                Some(p) => Some(p@),
                None => None,
            },
        ) {
            Some(spec_title_director_layout())
        } else {
            None
        }),
{
    if !is_title(bundle_root) {
        return None;
    }
    Some(
        DirectorIvarLayout {
            open_gl_view_offset: 4,
            running_scene_offset: 68,
            next_scene_offset: 72,
            effect_scene_offset: None,
        },
    )
}

/// Preferred texture-rectangle origin for a texture: the loading bar uses a
/// bottom-left origin, the menu buttons a top-left origin.
pub open spec fn spec_texture_rect_origin_preference(key: Seq<char>) -> Option<bool> {
    if seq_contains(lower_seq(key), "loading_bar.png"@) {
        Some(false)
    } else if seq_contains(lower_seq(key), "menu_buttons.png"@) {
        Some(true)
    } else {
        None
    }
}

/// Whether a texture's rectangle origin is top-left (`Some(true)`),
/// bottom-left (`Some(false)`) or unknown.
pub fn texture_rect_origin_preference(texture_key: &str) -> (r: Option<bool>)
    ensures
        r == spec_texture_rect_origin_preference(texture_key@),
{
    let key = to_lower_chars(&chars_of(texture_key));
    if lower_contains(&key, "loading_bar.png") {
        return Some(false);
    }
    if lower_contains(&key, "menu_buttons.png") {
        return Some(true);
    }
    None
}

/// The title applies no channel transform to bundle images (the generic
/// decoder already normalises CgBI images).
pub fn bundle_image_channel_transform(
    texture_key: &str,
    path: &str,
    saw_cgbi: bool,
    used_cgbi: bool,
) -> (r: SyntheticImageChannelTransform)
    ensures
        r == SyntheticImageChannelTransform::Unchanged,
{
    SyntheticImageChannelTransform::Unchanged
}

/// `min(a * b, u32::MAX)`.
pub open spec fn sat_mul_u32(a: u32, b: u32) -> u32 {
    if a * b > u32::MAX {
        u32::MAX
    } else {
        (a * b) as u32
    }
}

/// Whether a menu-buttons sub-rectangle near the top-left must be read with
/// a top-left origin.
pub open spec fn spec_should_force_top_left_low_strip(key: Seq<char>, rect_x: u32, rect_y: u32, rect_h: u32) -> bool {
    seq_contains(lower_seq(key), "menu_buttons.png"@) && rect_x <= 4 && rect_y <= crate::memory::sat_add_u32(
        sat_mul_u32(rect_h, 2),
        8,
    )
}

/// Whether the menu-buttons low strip must use a top-left origin.
pub fn should_force_top_left_low_strip(texture_key: &str, rect_x: u32, rect_y: u32, rect_h: u32) -> (b: bool)
    ensures
        b == spec_should_force_top_left_low_strip(texture_key@, rect_x, rect_y, rect_h),
{
    let key = to_lower_chars(&chars_of(texture_key));
    let doubled: u32 = if rect_h > u32::MAX / 2 { u32::MAX } else { rect_h * 2 };
    lower_contains(&key, "menu_buttons.png") && rect_x <= 4 && rect_y <= doubled.saturating_add(8)
}

/// The low strip rule, restricted to the achievements button.
pub fn should_prefer_top_left_achievements_strip(
    texture_key: &str,
    rect_x: u32,
    rect_y: u32,
    rect_h: u32,
    parent_selector_name: &str,
) -> (b: bool)
    ensures
        b == (spec_should_force_top_left_low_strip(texture_key@, rect_x, rect_y, rect_h) && seq_contains(
            parent_selector_name@,
            "achievementsCallback:"@,
        )),
{
    should_force_top_left_low_strip(texture_key, rect_x, rect_y, rect_h) && str_contains(
        parent_selector_name,
        "achievementsCallback:",
    )
}

/// The first scene's label.
pub open spec fn spec_is_first_scene_label(label: Seq<char>) -> bool {
    seq_contains(label, "FirstScene"@)
}

/// A menu layer's label.
pub open spec fn spec_is_menu_layer_label(label: Seq<char>) -> bool {
    seq_contains(label, "MenuLayer"@)
}

/// A loading scene's label.
pub open spec fn spec_is_loading_scene_label(label: Seq<char>) -> bool {
    seq_contains(label, "LoadingMissionScene"@) || seq_contains(label, "LoadingMenuScene"@)
}

/// The mission loading scene's label.
pub open spec fn spec_is_loading_mission_scene_label(label: Seq<char>) -> bool {
    seq_contains(label, "LoadingMissionScene"@)
}

/// The full-screen bootstrap fill is skipped under the first scene or a menu
/// layer, provided a full-screen textured subtree is present.
pub fn should_skip_fullscreen_bootstrap_fill(parent_label: &str, has_fullscreen_textured_subtree: bool) -> (b: bool)
    ensures
        b == (has_fullscreen_textured_subtree && (spec_is_first_scene_label(parent_label@)
            || spec_is_menu_layer_label(parent_label@))),
{
    if !has_fullscreen_textured_subtree {
        return false;
    }
    is_first_scene_label(parent_label) || is_menu_layer_label(parent_label)
}

/// Whether `label` names the first scene.
pub fn is_first_scene_label(label: &str) -> (b: bool)
    ensures
        b == spec_is_first_scene_label(label@),
{
    str_contains(label, "FirstScene")
}

/// Whether `label` names a menu layer.
pub fn is_menu_layer_label(label: &str) -> (b: bool)
    ensures
        b == spec_is_menu_layer_label(label@),
{
    str_contains(label, "MenuLayer")
}

/// Whether `label` names a loading scene.
pub fn is_loading_scene_label(label: &str) -> (b: bool)
    ensures
        b == spec_is_loading_scene_label(label@),
{
    str_contains(label, "LoadingMissionScene") || str_contains(label, "LoadingMenuScene")
}

/// Whether `label` names the mission loading scene.
pub fn is_loading_mission_scene_label(label: &str) -> (b: bool)
    ensures
        b == spec_is_loading_mission_scene_label(label@),
{
    str_contains(label, "LoadingMissionScene")
}

/// Whether `label` names a loading scene or the mission manager.
pub fn is_loading_scene_or_manager_label(label: &str) -> (b: bool)
    ensures
        b == (spec_is_loading_scene_label(label@) || seq_contains(label@, "MissionManager"@)),
{
    is_loading_scene_label(label) || str_contains(label, "MissionManager")
}

/// Whether a text (NUL characters dropped, case ignored) is the loading
/// screen's continue prompt.
pub open spec fn spec_loading_continue_prompt_matches(text: Seq<char>) -> bool {
    let normalized = lower_seq(remove_char(text, '\0'));
    seq_contains(normalized, "tap to continue"@) || normalized == "continue"@
}

/// Whether `text` is the loading screen's continue prompt.
pub fn loading_continue_prompt_matches(text: &str) -> (b: bool)
    ensures
        b == spec_loading_continue_prompt_matches(text@),
{
    let stripped = remove_char_exec(&chars_of(text), '\0');
    let normalized = to_lower_chars(&stripped);
    lower_contains(&normalized, "tap to continue") || chars_eq(&normalized, &chars_of("continue"))
}

/// Bitmap-font children of the mission loading scene are deduplicated.
pub fn should_dedupe_loading_bmfont_parent(parent_label: &str) -> (b: bool)
    ensures
        b == spec_is_loading_mission_scene_label(parent_label@),
{
    is_loading_mission_scene_label(parent_label)
}

/// Whether `selector_name` is the achievements button callback.
pub fn is_achievements_selector(selector_name: &str) -> (b: bool)
    ensures
        b == seq_contains(selector_name@, "achievementsCallback:"@),
{
    str_contains(selector_name, "achievementsCallback:")
}

/// Whether `label` names the first scene or a loading scene.
pub fn is_title_scene_like_label(label: &str) -> (b: bool)
    ensures
        b == (spec_is_first_scene_label(label@) || spec_is_loading_scene_label(label@)),
{
    is_first_scene_label(label) || is_loading_scene_label(label)
}

/// Ticks a splash scene must age before it advances on its own: 18 in the
/// live host, 24 otherwise.
pub fn synthetic_splash_auto_advance_age_threshold(live_host_mode: bool) -> (t: u32)
    ensures
        t == (if live_host_mode { 18u32 } else { 24u32 }),
{
    if live_host_mode {
        18
    } else {
        24
    }
}

/// Idle ticks before a splash scene advances on its own: 8 in either mode.
pub fn synthetic_splash_auto_advance_idle_threshold(live_host_mode: bool) -> (t: u32)
    ensures
        t == 8,
{
    8
}

/// The title's synthetic bootstrap endpoint.
pub fn synthetic_network_profile() -> (p: SyntheticNetworkProfile)
    ensures
        p.url@ == "https://bootstrap.forever-entertainment.local/aboveandbelow/bootstrap.txt"@,
        p.host@ == "bootstrap.forever-entertainment.local"@,
        p.path@ == "/aboveandbelow/bootstrap.txt"@,
        p.method@ == "GET"@,
        p.bundle_id@ == "forever-entertainment.aboveandbelow"@,
{
    SyntheticNetworkProfile {
        url: "https://bootstrap.forever-entertainment.local/aboveandbelow/bootstrap.txt",
        host: "bootstrap.forever-entertainment.local",
        path: "/aboveandbelow/bootstrap.txt",
        method: "GET",
        bundle_id: "forever-entertainment.aboveandbelow",
    }
}

/// The bootstrap payload served for this title, cut or space-padded to
/// exactly `delivered` bytes.
pub fn synthetic_payload(connection_state_name: &str, retry: bool, delivered: usize) -> (bytes: Vec<u8>)
    ensures
        bytes@ == spec_payload_bytes(
            vstd::utf8::encode_utf8("forever-entertainment.aboveandbelow"@),
            vstd::utf8::encode_utf8(connection_state_name@),
            retry,
            delivered as nat,
        ),
{
    let profile = synthetic_network_profile();
    payload_bytes(profile.bundle_id, connection_state_name, retry, delivered)
}

/// The watched sprite whose name occurs in the lower-cased candidate, in
/// the order menu buttons, loading bar, menu notepad.
pub open spec fn spec_watched_sprite_match(candidate: Seq<char>) -> Option<Seq<char>> {
    let lower = lower_seq(candidate);
    if seq_contains(lower, "menu_buttons.png"@) {
        Some("menu_buttons.png"@)
    } else if seq_contains(lower, "loading_bar.png"@) {
        Some("loading_bar.png"@)
    } else if seq_contains(lower, "menu_notepad.png"@) {
        Some("menu_notepad.png"@)
    } else {
        None
    }
}

/// Matches a texture name against the watched sprites (case-insensitive).
pub fn watched_sprite_match(candidate: &str) -> (r: Option<&'static str>)
    ensures
        match r {
            Some(s) => spec_watched_sprite_match(candidate@) == Some(s@),
            None => spec_watched_sprite_match(candidate@) is None,
        },
{
    let lower = to_lower_chars(&chars_of(candidate));
    if lower_contains(&lower, "menu_buttons.png") {
        return Some("menu_buttons.png");
    }
    if lower_contains(&lower, "loading_bar.png") {
        return Some("loading_bar.png");
    }
    if lower_contains(&lower, "menu_notepad.png") {
        return Some("menu_notepad.png");
    }
    None
}

/// The rectangle-builder branch of the guest code that `pc` lies in.
pub open spec fn spec_phase69_branch(pc: u32) -> Option<Seq<char>> {
    if 0x0001d81c <= pc && pc <= 0x0001d840 {
        Some("62x202"@)
    } else if 0x0001d8a8 <= pc && pc <= 0x0001d8b8 {
        Some("201x65"@)
    } else {
        None
    }
}

/// Names the rectangle-builder branch that `pc` lies in, if any.
pub fn phase69_rect_builder_branch(pc: u32) -> (r: Option<&'static str>)
    ensures
        match r {
            Some(s) => spec_phase69_branch(pc) == Some(s@),
            None => spec_phase69_branch(pc) is None,
        },
{
    if 0x0001d81c <= pc && pc <= 0x0001d840 {
        Some("62x202")
    } else if 0x0001d8a8 <= pc && pc <= 0x0001d8b8 {
        Some("201x65")
    } else {
        None
    }
}

/// Whether a 4-byte store at `addr` from the rectangle builder at
/// `current_pc` is traced: the pc must lie in a known branch and the store
/// must target the first 0x140 bytes above `sp` (wrapping).
pub open spec fn spec_phase69_should_trace(current_pc: u32, sp: u32, addr: u32, width: u32) -> bool {
    current_pc != 0 && width == 4 && spec_phase69_branch(current_pc) is Some && addr >= sp && addr
        < (if sp + 0x140 > u32::MAX { sp + 0x140 - 0x1_0000_0000 } else { sp + 0x140 })
}

/// Decides whether a store is traced and, when it is, returns the branch
/// name and the store's offset from `sp`.
pub fn phase69_rect_builder_site(current_pc: u32, sp: u32, addr: u32, width: u32) -> (r: Option<(&'static str, u32)>)
    ensures
        r is Some <==> spec_phase69_should_trace(current_pc, sp, addr, width),
        r matches Some((b, off)) ==> spec_phase69_branch(current_pc) == Some(b@) && off == addr - sp,
{
    if current_pc == 0 || width != 4 {
        return None;
    }
    let branch = match phase69_rect_builder_branch(current_pc) {
        Some(b) => b,
        None => return None,
    };
    let limit = sp.wrapping_add(0x140);
    if !(addr >= sp && addr < limit) {
        return None;
    }
    Some((branch, addr - sp))
}

/// Stack offsets (from `sp`) of the words a branch's snapshot reports:
/// the preparation rectangle then the final y, width and height for
/// `62x202`; the source y, width, height then the final values for
/// `201x65`.
pub open spec fn spec_phase69_snapshot_offsets(branch: Seq<char>) -> Seq<u32> {
    if branch == "62x202"@ {
        seq![0xc4u32, 0xc8, 0xcc, 0xd0, 0, 4, 8]
    } else if branch == "201x65"@ {
        seq![0xb8u32, 0xbc, 0xc0, 0, 4, 8]
    } else {
        Seq::empty()
    }
}

/// The stack offsets read for a branch's snapshot.
pub fn phase69_snapshot_offsets(branch: &str) -> (r: Vec<u32>)
    ensures
        r@ == spec_phase69_snapshot_offsets(branch@),
{
    let b = chars_of(branch);
    if chars_eq(&b, &chars_of("62x202")) {
        vec![0xc4u32, 0xc8, 0xcc, 0xd0, 0, 4, 8]
    } else if chars_eq(&b, &chars_of("201x65")) {
        vec![0xb8u32, 0xbc, 0xc0, 0, 4, 8]
    } else {
        Vec::new()
    }
}

} // verus!
