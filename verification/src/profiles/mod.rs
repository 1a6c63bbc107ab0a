//! Per-title behaviour: the generic profile and the profile of a known title,
//! selected from the application bundle's path.
use vstd::prelude::*;
use crate::text::{lower_seq, seq_contains};

pub mod above_and_below;

use above_and_below::{
    spec_is_first_scene_label, spec_is_loading_mission_scene_label, spec_is_loading_scene_label,
    spec_is_menu_layer_label, spec_is_title, spec_loading_continue_prompt_matches,
    spec_should_force_top_left_low_strip, spec_texture_rect_origin_preference, spec_title_director_layout,
    spec_watched_sprite_match,
};

verus! {

/// The synthetic bootstrap endpoint a title talks to.
#[derive(Debug, Clone, Copy)]
pub struct SyntheticNetworkProfile {
    pub url: &'static str,
    pub host: &'static str,
    pub path: &'static str,
    pub method: &'static str,
    pub bundle_id: &'static str,
}

/// Instance-variable offsets of the cocos2d director object.
#[derive(Debug, Clone, Copy, PartialEq, Eq)]
pub struct DirectorIvarLayout {
    pub open_gl_view_offset: u32,
    pub running_scene_offset: u32,
    pub next_scene_offset: u32,
    pub effect_scene_offset: Option<u32>,
}

/// Channel fix-up applied to decoded bundle images.
#[derive(Debug, Clone, Copy, PartialEq, Eq)]
pub enum SyntheticImageChannelTransform {
    Unchanged,
    SwapRedBlue,
}

/// The active title profile.
#[derive(Debug, Clone, Copy, PartialEq, Eq)]
pub enum TitleProfile {
    Default,
    AboveAndBelow,
}

/// The text of a synthetic bootstrap payload, as bytes: the state and retry
/// lines come first so that they survive a short delivery budget.
pub open spec fn spec_payload_text(bundle: Seq<u8>, state: Seq<u8>, retry: bool) -> Seq<u8> {
    vstd::utf8::encode_utf8("bootstrap=ok\nstate="@) + state + vstd::utf8::encode_utf8("\nretry="@) + (if retry {
        vstd::utf8::encode_utf8("YES"@)
    } else {
        vstd::utf8::encode_utf8("NO"@)
    }) + vstd::utf8::encode_utf8("\ntransport=synthetic-hle\nbundle="@) + bundle + vstd::utf8::encode_utf8("\n"@)
}

/// The payload text cut to, or space-padded up to, exactly `delivered` bytes.
pub open spec fn spec_payload_bytes(bundle: Seq<u8>, state: Seq<u8>, retry: bool, delivered: nat) -> Seq<u8> {
    let text = spec_payload_text(bundle, state, retry);
    Seq::new(delivered, |i: int| if i < text.len() { text[i] } else { 32u8 })
}

/// Builds the bootstrap payload for `bundle_id`.
pub fn payload_bytes(bundle_id: &str, connection_state_name: &str, retry: bool, delivered: usize) -> (bytes: Vec<u8>)
    ensures
        bytes@ == spec_payload_bytes(
            vstd::utf8::encode_utf8(bundle_id@),
            vstd::utf8::encode_utf8(connection_state_name@),
            retry,
            delivered as nat,
        ),
{
    let mut text: Vec<u8> = Vec::new();
    text.extend_from_slice("bootstrap=ok\nstate=".as_bytes());
    text.extend_from_slice(connection_state_name.as_bytes());
    text.extend_from_slice("\nretry=".as_bytes());
    if retry {
        text.extend_from_slice("YES".as_bytes());
    } else {
        text.extend_from_slice("NO".as_bytes());
    }
    text.extend_from_slice("\ntransport=synthetic-hle\nbundle=".as_bytes());
    text.extend_from_slice(bundle_id.as_bytes());
    text.extend_from_slice("\n".as_bytes());
    let ghost full = text@;
    assert(full == spec_payload_text(vstd::utf8::encode_utf8(bundle_id@), vstd::utf8::encode_utf8(connection_state_name@), retry));
    let mut out: Vec<u8> = Vec::new();
    let mut i: usize = 0;
    while i < delivered
        invariant
            i <= delivered,
            text@ == full,
            out@.len() == i,
            forall|j: int| 0 <= j < i ==> out@[j] == (if j < full.len() { full[j] } else { 32u8 }),
        decreases delivered - i,
    {
        if i < text.len() {
            out.push(text[i]);
        } else {
            out.push(32u8);
        }
        i = i + 1;
    }
    assert(out@ == spec_payload_bytes(vstd::utf8::encode_utf8(bundle_id@), vstd::utf8::encode_utf8(connection_state_name@), retry, delivered as nat));
    out
}

/// The generic bootstrap endpoint.
pub fn generic_network_profile() -> (p: SyntheticNetworkProfile)
    ensures
        p.url@ == "https://bootstrap.generic.local/bootstrap.txt"@,
        p.host@ == "bootstrap.generic.local"@,
        p.path@ == "/bootstrap.txt"@,
        p.method@ == "GET"@,
        p.bundle_id@ == "generic.synthetic.title"@,
{
    SyntheticNetworkProfile {
        url: "https://bootstrap.generic.local/bootstrap.txt",
        host: "bootstrap.generic.local",
        path: "/bootstrap.txt",
        method: "GET",
        bundle_id: "generic.synthetic.title",
    }
}

/// The profile that a bundle path selects.
pub open spec fn spec_detect_title_profile(bundle_root: Option<Seq<char>>) -> TitleProfile {
    if spec_is_title(bundle_root) {
        TitleProfile::AboveAndBelow
    } else {
        TitleProfile::Default
    }
}

/// A bundle path that contains `aboveandbelow` in any letter case selects
/// the Above and Below profile.
pub proof fn lemma_title_spelling_joined(path: Seq<char>)
    requires
        seq_contains(lower_seq(path), "aboveandbelow"@),
    ensures
        spec_detect_title_profile(Some(path)) == TitleProfile::AboveAndBelow,
{
}

/// A bundle path that contains `above-and-below` in any letter case
/// selects the Above and Below profile.
pub proof fn lemma_title_spelling_hyphens(path: Seq<char>)
    requires
        seq_contains(lower_seq(path), "above-and-below"@),
    ensures
        spec_detect_title_profile(Some(path)) == TitleProfile::AboveAndBelow,
{
}

/// A bundle path that contains `above_and_below` in any letter case
/// selects the Above and Below profile.
pub proof fn lemma_title_spelling_underscores(path: Seq<char>)
    requires
        seq_contains(lower_seq(path), "above_and_below"@),
    ensures
        spec_detect_title_profile(Some(path)) == TitleProfile::AboveAndBelow,
{
}


/// Selects the title profile for a bundle root: the known title when its
/// path matches, the generic profile otherwise.
pub fn detect_title_profile(bundle_root: Option<&str>) -> (p: TitleProfile)
    ensures
        p == spec_detect_title_profile(
            match bundle_root {
                Some(s) => Some(s@),
                None => None,
            },
        ),
{
    if above_and_below::is_title(bundle_root) {
        TitleProfile::AboveAndBelow
    } else {
        TitleProfile::Default
    }
}

impl TitleProfile {
    /// The profile's identifier.
    pub fn profile_id(&self) -> (s: &'static str)
        ensures
            s@ == (match self {
                TitleProfile::Default => "default"@,
                TitleProfile::AboveAndBelow => "above_and_below"@,
            }),
    {
        match self {
            TitleProfile::Default => "default",
            TitleProfile::AboveAndBelow => "above_and_below",
        }
    }

    /// Whether this profile applies to a bundle root: the generic profile
    /// applies to every bundle.
    pub fn matches_bundle_root(&self, bundle_root: Option<&str>) -> (b: bool)
        ensures
            b == (match self {
                TitleProfile::Default => true,
                TitleProfile::AboveAndBelow => spec_is_title(
                    match bundle_root {
                        Some(s) => Some(s@),
                        None => None,
                    },
                ),
            }),
    {
        match self {
            TitleProfile::Default => true,
            TitleProfile::AboveAndBelow => above_and_below::is_title(bundle_root),
        }
    }

    /// Whether this is the generic profile.
    pub fn is_default(&self) -> (b: bool)
        ensures
            b == (*self == TitleProfile::Default),
    {
        match self {
            TitleProfile::Default => true,
            TitleProfile::AboveAndBelow => false,
        }
    }

    /// The director layout the profile knows, if any.
    pub fn director_ivar_layout(&self) -> (r: Option<DirectorIvarLayout>)
        ensures
            r == (match self {
                TitleProfile::Default => None,
                TitleProfile::AboveAndBelow => Some(spec_title_director_layout()),
            }),
    {
        match self {
            TitleProfile::Default => None,
            TitleProfile::AboveAndBelow => {
                let r = above_and_below::director_ivar_layout(Some("Payload/AboveAndBelow.app"));
                proof {
                    reveal_strlit("Payload/AboveAndBelow.app");
                    assert(seq_contains(lower_seq("Payload/AboveAndBelow.app"@), "aboveandbelow"@)) by {
                        reveal_strlit("aboveandbelow");
                        assert(lower_seq("Payload/AboveAndBelow.app"@).subrange(8, 21) =~= "aboveandbelow"@);
                        assert(crate::text::occurs_at(lower_seq("Payload/AboveAndBelow.app"@), "aboveandbelow"@, 8));
                    }
                }
                r
            },
        }
    }

    /// The profile's texture-rectangle origin preference.
    pub fn texture_rect_origin_preference(&self, texture_key: &str) -> (r: Option<bool>)
        ensures
            r == (match self {
                TitleProfile::Default => None,
                TitleProfile::AboveAndBelow => spec_texture_rect_origin_preference(texture_key@),
            }),
    {
        match self {
            TitleProfile::Default => None,
            TitleProfile::AboveAndBelow => above_and_below::texture_rect_origin_preference(texture_key),
        }
    }

    /// The channel transform for bundle images: none for either profile.
    pub fn bundle_image_channel_transform(
        &self,
        texture_key: &str,
        path: &str,
        saw_cgbi: bool,
        used_cgbi: bool,
    ) -> (r: SyntheticImageChannelTransform)
        ensures
            r == SyntheticImageChannelTransform::Unchanged,
    {
        match self {
            TitleProfile::Default => SyntheticImageChannelTransform::Unchanged,
            TitleProfile::AboveAndBelow => above_and_below::bundle_image_channel_transform(
                texture_key,
                path,
                saw_cgbi,
                used_cgbi,
            ),
        }
    }

    /// Whether a low strip of the texture must use a top-left origin.
    pub fn should_force_top_left_low_strip(&self, texture_key: &str, rect_x: u32, rect_y: u32, rect_h: u32) -> (b: bool)
        ensures
            b == (*self == TitleProfile::AboveAndBelow && spec_should_force_top_left_low_strip(
                texture_key@,
                rect_x,
                rect_y,
                rect_h,
            )),
    {
        match self {
            TitleProfile::Default => false,
            TitleProfile::AboveAndBelow => above_and_below::should_force_top_left_low_strip(
                texture_key,
                rect_x,
                rect_y,
                rect_h,
            ),
        }
    }

    /// Whether the achievements strip must use a top-left origin.
    pub fn should_prefer_top_left_achievements_strip(
        &self,
        texture_key: &str,
        rect_x: u32,
        rect_y: u32,
        rect_h: u32,
        parent_selector_name: &str,
    ) -> (b: bool)
        ensures
            b == (*self == TitleProfile::AboveAndBelow && spec_should_force_top_left_low_strip(
                texture_key@,
                rect_x,
                rect_y,
                rect_h,
            ) && seq_contains(parent_selector_name@, "achievementsCallback:"@)),
    {
        match self {
            TitleProfile::Default => false,
            TitleProfile::AboveAndBelow => above_and_below::should_prefer_top_left_achievements_strip(
                texture_key,
                rect_x,
                rect_y,
                rect_h,
                parent_selector_name,
            ),
        }
    }

    /// Whether the full-screen bootstrap fill is skipped under `parent_label`.
    pub fn should_skip_fullscreen_bootstrap_fill(&self, parent_label: &str, has_fullscreen_textured_subtree: bool) -> (b: bool)
        ensures
            b == (*self == TitleProfile::AboveAndBelow && has_fullscreen_textured_subtree && (
            spec_is_first_scene_label(parent_label@) || spec_is_menu_layer_label(parent_label@))),
    {
        match self {
            TitleProfile::Default => false,
            TitleProfile::AboveAndBelow => above_and_below::should_skip_fullscreen_bootstrap_fill(
                parent_label,
                has_fullscreen_textured_subtree,
            ),
        }
    }

    /// Whether `label` names the title's first scene.
    pub fn is_first_scene_label(&self, label: &str) -> (b: bool)
        ensures
            b == (*self == TitleProfile::AboveAndBelow && spec_is_first_scene_label(label@)),
    {
        match self {
            TitleProfile::Default => false,
            TitleProfile::AboveAndBelow => above_and_below::is_first_scene_label(label),
        }
    }

    /// Whether `label` names one of the title's menu layers.
    pub fn is_menu_layer_label(&self, label: &str) -> (b: bool)
        ensures
            b == (*self == TitleProfile::AboveAndBelow && spec_is_menu_layer_label(label@)),
    {
        match self {
            TitleProfile::Default => false,
            TitleProfile::AboveAndBelow => above_and_below::is_menu_layer_label(label),
        }
    }

    /// Whether `label` names one of the title's loading scenes.
    pub fn is_loading_scene_label(&self, label: &str) -> (b: bool)
        ensures
            b == (*self == TitleProfile::AboveAndBelow && spec_is_loading_scene_label(label@)),
    {
        match self {
            TitleProfile::Default => false,
            TitleProfile::AboveAndBelow => above_and_below::is_loading_scene_label(label),
        }
    }

    /// Whether `label` names the title's mission loading scene.
    pub fn is_loading_mission_scene_label(&self, label: &str) -> (b: bool)
        ensures
            b == (*self == TitleProfile::AboveAndBelow && spec_is_loading_mission_scene_label(label@)),
    {
        match self {
            TitleProfile::Default => false,
            TitleProfile::AboveAndBelow => above_and_below::is_loading_mission_scene_label(label),
        }
    }

    /// Whether `label` names a loading scene or the mission manager.
    pub fn is_loading_scene_or_manager_label(&self, label: &str) -> (b: bool)
        ensures
            b == (*self == TitleProfile::AboveAndBelow && (spec_is_loading_scene_label(label@) || seq_contains(
                label@,
                "MissionManager"@,
            ))),
    {
        match self {
            TitleProfile::Default => false,
            TitleProfile::AboveAndBelow => above_and_below::is_loading_scene_or_manager_label(label),
        }
    }

    /// Whether `text` is the title's continue prompt.
    pub fn loading_continue_prompt_matches(&self, text: &str) -> (b: bool)
        ensures
            b == (*self == TitleProfile::AboveAndBelow && spec_loading_continue_prompt_matches(text@)),
    {
        match self {
            TitleProfile::Default => false,
            TitleProfile::AboveAndBelow => above_and_below::loading_continue_prompt_matches(text),
        }
    }

    /// Whether bitmap-font children under `parent_label` are deduplicated.
    pub fn should_dedupe_loading_bmfont_parent(&self, parent_label: &str) -> (b: bool)
        ensures
            b == (*self == TitleProfile::AboveAndBelow && spec_is_loading_mission_scene_label(parent_label@)),
    {
        match self {
            TitleProfile::Default => false,
            TitleProfile::AboveAndBelow => above_and_below::should_dedupe_loading_bmfont_parent(parent_label),
        }
    }

    /// Whether `selector_name` is the title's achievements callback.
    pub fn is_achievements_selector(&self, selector_name: &str) -> (b: bool)
        ensures
            b == (*self == TitleProfile::AboveAndBelow && seq_contains(selector_name@, "achievementsCallback:"@)),
    {
        match self {
            TitleProfile::Default => false,
            TitleProfile::AboveAndBelow => above_and_below::is_achievements_selector(selector_name),
        }
    }

    /// Splash auto-advance age threshold, when the profile defines one.
    pub fn synthetic_splash_auto_advance_age_threshold(&self, live_host_mode: bool) -> (t: Option<u32>)
        ensures
            t == (match self {
                TitleProfile::Default => None,
                TitleProfile::AboveAndBelow => Some(if live_host_mode { 18u32 } else { 24u32 }),
            }),
    {
        match self {
            TitleProfile::Default => None,
            TitleProfile::AboveAndBelow => Some(
                above_and_below::synthetic_splash_auto_advance_age_threshold(live_host_mode),
            ),
        }
    }

    /// Splash auto-advance idle threshold, when the profile defines one.
    pub fn synthetic_splash_auto_advance_idle_threshold(&self, live_host_mode: bool) -> (t: Option<u32>)
        ensures
            t == (match self {
                TitleProfile::Default => None,
                TitleProfile::AboveAndBelow => Some(8u32),
            }),
    {
        match self {
            TitleProfile::Default => None,
            TitleProfile::AboveAndBelow => Some(
                above_and_below::synthetic_splash_auto_advance_idle_threshold(live_host_mode),
            ),
        }
    }

    /// The bundle identifier the profile reports to the synthetic endpoint.
    pub open spec fn spec_bundle_id(&self) -> Seq<char> {
        match self {
            TitleProfile::Default => "generic.synthetic.title"@,
            TitleProfile::AboveAndBelow => "forever-entertainment.aboveandbelow"@,
        }
    }

    /// The profile's synthetic network endpoint.
    pub fn synthetic_network_profile(&self) -> (p: SyntheticNetworkProfile)
        ensures
            p.bundle_id@ == self.spec_bundle_id(),
            p.method@ == "GET"@,
            *self == TitleProfile::Default ==> p.url@ == "https://bootstrap.generic.local/bootstrap.txt"@
                && p.host@ == "bootstrap.generic.local"@ && p.path@ == "/bootstrap.txt"@,
            *self == TitleProfile::AboveAndBelow ==> p.url@
                == "https://bootstrap.forever-entertainment.local/aboveandbelow/bootstrap.txt"@ && p.host@
                == "bootstrap.forever-entertainment.local"@ && p.path@ == "/aboveandbelow/bootstrap.txt"@,
    {
        match self {
            TitleProfile::Default => generic_network_profile(),
            TitleProfile::AboveAndBelow => above_and_below::synthetic_network_profile(),
        }
    }

    /// The bootstrap payload for the profile's bundle, exactly `delivered` bytes long.
    pub fn synthetic_payload(&self, connection_state_name: &str, retry: bool, delivered: usize) -> (bytes: Vec<u8>)
        ensures
            bytes@ == spec_payload_bytes(
                vstd::utf8::encode_utf8(self.spec_bundle_id()),
                vstd::utf8::encode_utf8(connection_state_name@),
                retry,
                delivered as nat,
            ),
    {
        let profile = self.synthetic_network_profile();
        payload_bytes(profile.bundle_id, connection_state_name, retry, delivered)
    }

    /// The watched sprite matched by a texture name, for the title profile.
    pub fn watched_sprite_match(&self, candidate: &str) -> (r: Option<&'static str>)
        ensures
            *self == TitleProfile::Default ==> r is None,
            *self == TitleProfile::AboveAndBelow ==> match r {
                Some(s) => spec_watched_sprite_match(candidate@) == Some(s@),
                None => spec_watched_sprite_match(candidate@) is None,
            },
    {
        match self {
            TitleProfile::Default => None,
            TitleProfile::AboveAndBelow => above_and_below::watched_sprite_match(candidate),
        }
    }
}

} // verus!
