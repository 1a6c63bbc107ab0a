use mkea_core::profiles::above_and_below::{
    director_ivar_layout, is_achievements_selector, is_first_scene_label, is_loading_mission_scene_label,
    is_loading_scene_label, is_loading_scene_or_manager_label, is_menu_layer_label, is_title,
    loading_continue_prompt_matches, should_dedupe_loading_bmfont_parent, should_skip_fullscreen_bootstrap_fill,
    synthetic_network_profile, synthetic_payload, synthetic_splash_auto_advance_age_threshold,
    synthetic_splash_auto_advance_idle_threshold, texture_rect_origin_preference, watched_sprite_match,
};
use mkea_core::profiles::{detect_title_profile, TitleProfile};

#[test]
fn director_ivar_layout_is_title_scoped() {
    let layout = director_ivar_layout(Some("Payload/AboveAndBelow.app")).unwrap();
    assert_eq!(layout.open_gl_view_offset, 4);
    assert_eq!(layout.running_scene_offset, 68);
    assert_eq!(layout.next_scene_offset, 72);
    assert!(director_ivar_layout(Some("Payload/OtherGame.app")).is_none());
}

#[test]
fn texture_rect_origin_preferences_are_title_specific() {
    assert_eq!(texture_rect_origin_preference("Menu_Buttons.png"), Some(true));
    assert_eq!(texture_rect_origin_preference("loading_bar.png"), Some(false));
    assert_eq!(texture_rect_origin_preference("atlas.png"), None);
}

#[test]
fn bootstrap_fill_skip_requires_title_parent_and_textured_subtree() {
    assert!(should_skip_fullscreen_bootstrap_fill("FirstScene.synthetic", true));
    assert!(should_skip_fullscreen_bootstrap_fill("MenuLayer0.synthetic", true));
    assert!(!should_skip_fullscreen_bootstrap_fill("CCLayer.synthetic", true));
    assert!(!should_skip_fullscreen_bootstrap_fill("MenuLayer0.synthetic", false));
}

#[test]
fn title_detection_matches_known_bundle_variants() {
    assert!(is_title(Some("Payload/AboveAndBelow.app")));
    assert!(is_title(Some("Payload/above_and_below-eng.app")));
    assert!(!is_title(Some("Payload/OtherGame.app")));
    assert!(!is_title(None));
}

#[test]
fn watched_sprite_matching_is_case_insensitive() {
    assert_eq!(watched_sprite_match("UI/Loading_Bar.PNG"), Some("loading_bar.png"));
    assert_eq!(watched_sprite_match("textures/menu_notepad.png"), Some("menu_notepad.png"));
    assert_eq!(watched_sprite_match("textures/unknown.png"), None);
}

#[test]
fn title_label_helpers_cover_remaining_scene_specific_rules() {
    assert!(is_first_scene_label("FirstScene.synthetic#0"));
    assert!(is_menu_layer_label("MenuLayer0.synthetic#0"));
    assert!(is_loading_scene_label("LoadingMissionScene.synthetic#0"));
    assert!(is_loading_scene_label("LoadingMenuScene.synthetic#0"));
    assert!(is_loading_mission_scene_label("LoadingMissionScene.synthetic#0"));
    assert!(!is_loading_mission_scene_label("LoadingMenuScene.synthetic#0"));
    assert!(is_loading_scene_or_manager_label("MissionManager.singleton"));
    assert!(should_dedupe_loading_bmfont_parent("LoadingMissionScene.synthetic#0"));
    assert!(is_achievements_selector("achievementsCallback:"));
    assert!(loading_continue_prompt_matches("Tap to continue"));
    assert!(loading_continue_prompt_matches("continue"));
    assert!(!loading_continue_prompt_matches("loading"));
}

#[test]
fn synthetic_network_profile_matches_bootstrap_contract() {
    let profile = synthetic_network_profile();
    assert_eq!(profile.method, "GET");
    assert!(profile.url.contains(profile.host));
    assert!(profile.url.ends_with(profile.path));
    assert_eq!(profile.bundle_id, "forever-entertainment.aboveandbelow");
}

#[test]
fn synthetic_payload_tracks_state_and_delivery_budget() {
    let bytes = synthetic_payload("receiving", true, 64);
    let text = String::from_utf8(bytes.clone()).expect("payload must stay utf8");
    assert!(text.contains("state=receiving"));
    assert!(text.contains("retry=YES"));
    assert_eq!(bytes.len(), 64);
}

#[test]
fn live_host_splash_thresholds_stay_tighter_than_legacy_guardrails() {
    assert_eq!(synthetic_splash_auto_advance_age_threshold(false), 24);
    assert_eq!(synthetic_splash_auto_advance_idle_threshold(false), 8);
    assert_eq!(synthetic_splash_auto_advance_age_threshold(true), 18);
    assert_eq!(synthetic_splash_auto_advance_idle_threshold(true), 8);
    assert!(synthetic_splash_auto_advance_age_threshold(true) < 24);
}

#[test]
fn bundle_path_selects_title_profile() {
    assert_eq!(detect_title_profile(Some("Payload/AboveAndBelow.app")), TitleProfile::AboveAndBelow);
    assert_eq!(detect_title_profile(Some("Payload/OtherGame.app")), TitleProfile::Default);
    assert_eq!(detect_title_profile(None), TitleProfile::Default);
    assert!(TitleProfile::Default.director_ivar_layout().is_none());
}

#[test]
fn payload_is_padded_to_the_delivered_length() {
    let bytes = synthetic_payload("completed", false, 128);
    assert_eq!(bytes.len(), 128);
    let text = String::from_utf8(bytes).unwrap();
    assert!(text.contains("state=completed"));
    assert!(text.contains("retry=NO"));
}
