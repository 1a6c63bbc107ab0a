use mkea_core::backend::textures::{SyntheticDictionary, SyntheticTexture};
use mkea_core::backend::{BackendTuning, MemoryArm32Backend};
use mkea_core::profiles::TitleProfile;

fn backend_for(profile: TitleProfile) -> MemoryArm32Backend {
    let mut b = MemoryArm32Backend::new(
        profile,
        0x2000_0000,
        0x4000,
        0x3000_0000,
        0x1000,
        0x4000_0000,
        0x1000,
        BackendTuning { synthetic_network_fault_probes: false },
    );
    b.map(0x1000, 0x1000, 3).unwrap();
    b
}

fn backend() -> MemoryArm32Backend {
    backend_for(TitleProfile::Default)
}

fn texture(w: u32, h: u32, cache_key: &str) -> SyntheticTexture {
    SyntheticTexture {
        width: w,
        height: h,
        gl_name: 1,
        has_premultiplied_alpha: true,
        image: 0,
        source_key: String::new(),
        source_path: String::new(),
        cache_key: cache_key.to_string(),
    }
}

fn dictionary(entries: &[(&str, u32)]) -> SyntheticDictionary {
    SyntheticDictionary { entries: entries.iter().map(|(k, v)| (k.to_string(), *v)).collect() }
}

fn edit_node(b: &mut MemoryArm32Backend, node: u32, f: impl Fn(&mut mkea_core::backend::nodes::SyntheticSpriteState)) {
    let mut st = b.sprite_or_default(node);
    f(&mut st);
    b.set_sprite_state(node, st);
}

#[test]
fn dictionaries_and_their_keys() {
    let mut b = backend();
    b.runtime.textures.synthetic_dictionaries.insert(0x900, dictionary(&[("walk", 0x910), ("run", 0x920)]));
    assert_eq!(b.synthetic_dictionary_get(0x900, "run"), 0x920);
    assert_eq!(b.synthetic_dictionary_get(0x900, "jump"), 0);
    assert_eq!(b.synthetic_dictionary_get(0x901, "run"), 0);
    b.write_bytes(0x1100, b"Walk\0").unwrap();
    assert_eq!(b.synthetic_dictionary_key(0x1100), "walk");
    assert_eq!(b.synthetic_dictionary_key(0x5000), "@0x00005000");
}

#[test]
fn the_default_animation_shows_a_frame() {
    let mut b = backend();
    let (node, dict, frames, last_frames, tex, tex2) = (0x100, 0x900, 0x910, 0x920, 0x930, 0x940);
    b.runtime.textures.synthetic_textures.insert(tex, texture(8, 8, "a"));
    b.runtime.textures.synthetic_textures.insert(tex2, texture(8, 8, "b"));
    b.synthetic_array_push(frames, tex);
    b.synthetic_array_push(last_frames, tex);
    b.synthetic_array_push(last_frames, tex2);
    b.runtime.textures.synthetic_dictionaries.insert(dict, dictionary(&[("normal", frames), ("run", last_frames)]));
    edit_node(&mut b, node, |st| st.animation_dictionary = dict);
    assert_eq!(b.synthetic_node_default_animation_texture(node), tex);
    // the frame shown last wins, its index capped at the last frame
    b.write_bytes(0x1100, b"RUN\0").unwrap();
    edit_node(&mut b, node, |st| {
        st.last_display_frame_key = 0x1100;
        st.last_display_frame_index = 9;
    });
    assert_eq!(b.synthetic_node_default_animation_texture(node), tex2);
    assert_eq!(b.synthetic_node_effective_texture(node), tex2);
    assert_eq!(b.synthetic_node_default_animation_texture(0x999), 0);
}

#[test]
fn batched_nodes_show_their_sheet_texture() {
    let mut b = backend();
    let (sheet, node, tex) = (0x200, 0x210, 0x930);
    b.runtime.textures.synthetic_textures.insert(tex, texture(64, 64, "sheet"));
    b.diag.object_labels.insert(sheet, "CCSpriteSheet.instance".to_string());
    edit_node(&mut b, sheet, |st| st.texture = tex);
    edit_node(&mut b, node, |st| st.parent = sheet);
    assert_eq!(b.synthetic_node_effective_texture(node), tex);
    assert!(b.synthetic_node_prefers_bottom_left_texture_rect(node));
    b.diag.object_labels.insert(sheet, "CCLayer".to_string());
    assert_eq!(b.synthetic_node_effective_texture(node), 0);
    assert!(!b.synthetic_node_prefers_bottom_left_texture_rect(node));
}

#[test]
fn rectangle_origin_follows_the_texture_key() {
    let mut b = backend_for(TitleProfile::AboveAndBelow);
    let (node, atlas_tex, bar_tex) = (0x100, 0x930, 0x940);
    b.runtime.textures.synthetic_textures.insert(atlas_tex, texture(8, 8, "Menu_Atlas.png"));
    b.runtime.textures.synthetic_textures.insert(bar_tex, texture(8, 8, "ui/Loading_Bar.png"));
    edit_node(&mut b, node, |st| st.texture = atlas_tex);
    assert!(b.synthetic_node_prefers_bottom_left_texture_rect(node));
    edit_node(&mut b, node, |st| {
        st.texture = bar_tex;
        st.texture_rect_explicit = true;
    });
    assert!(!b.synthetic_node_prefers_bottom_left_texture_rect(node));
    assert!(!b.synthetic_node_prefers_bottom_left_texture_rect(0x999));
}

#[test]
fn a_fullscreen_texture_is_found_below_a_node() {
    let mut b = backend();
    let (root, child, tex) = (0x100, 0x110, 0x930);
    b.runtime.textures.synthetic_textures.insert(tex, texture(480, 320, "bg"));
    let children = b.ensure_node_children_array(root);
    b.synthetic_array_push(children, child);
    edit_node(&mut b, root, |st| st.visible = true);
    edit_node(&mut b, child, |st| st.texture = tex);
    assert!(MemoryArm32Backend::synthetic_matches_surface_dims(480, 320, 318, 482));
    assert!(!MemoryArm32Backend::synthetic_matches_surface_dims(480, 320, 470, 320));
    assert!(b.synthetic_node_or_descendant_has_fullscreen_texture(root, 320, 480, 0, 0));
    assert!(!b.synthetic_node_or_descendant_has_fullscreen_texture(root, 320, 480, 0, child));
    assert!(!b.synthetic_node_or_descendant_has_fullscreen_texture(root, 1024, 768, 0, 0));
    assert!(!b.synthetic_node_or_descendant_has_fullscreen_texture(root, 320, 480, 32, 0));
    edit_node(&mut b, child, |st| st.visible = false);
    assert!(!b.synthetic_node_or_descendant_has_fullscreen_texture(root, 320, 480, 0, 0));
}

#[test]
fn a_fullscreen_colour_fill_is_skipped_over_a_textured_menu() {
    let mut b = backend_for(TitleProfile::AboveAndBelow);
    let (layer, fill, art, tex) = (0x100, 0x110, 0x120, 0x930);
    b.runtime.textures.synthetic_textures.insert(tex, texture(480, 320, "bg"));
    b.diag.object_labels.insert(layer, "MainMenuLayer.instance".to_string());
    let children = b.ensure_node_children_array(layer);
    b.synthetic_array_push(children, fill);
    b.synthetic_array_push(children, art);
    edit_node(&mut b, art, |st| st.texture = tex);
    edit_node(&mut b, fill, |st| {
        st.parent = layer;
        st.fill_rgba_explicit = true;
        st.fill_rgba = [0, 0, 0, 255];
    });
    let st = b.sprite_or_default(fill);
    assert!(b.synthetic_should_skip_fullscreen_color_layer_fill(fill, &st, 480, 320, 480, 320));
    // not the size of the surface, or transparent, or another title: drawn
    assert!(!b.synthetic_should_skip_fullscreen_color_layer_fill(fill, &st, 100, 320, 480, 320));
    let mut clear = st;
    clear.fill_rgba = [0, 0, 0, 0];
    assert!(!b.synthetic_should_skip_fullscreen_color_layer_fill(fill, &clear, 480, 320, 480, 320));
    b.profile = TitleProfile::Default;
    assert!(!b.synthetic_should_skip_fullscreen_color_layer_fill(fill, &st, 480, 320, 480, 320));
}

fn back_text(b: &mut MemoryArm32Backend, node: u32, text: &str) {
    b.runtime.foundation.synthetic_string_backing.insert(
        node,
        mkea_core::backend::foundation::SyntheticStringBacking {
            ptr: 0,
            len: text.chars().count() as u32,
            text: text.to_string(),
            font_name: None,
            font_size_bits: 0,
            font_size_explicit: false,
        },
    );
}

#[test]
fn a_duplicate_loading_label_is_found() {
    let mut b = backend_for(TitleProfile::AboveAndBelow);
    let (scene, old_label, other, new_label) = (0x100, 0x110, 0x120, 0x130);
    b.diag.object_labels.insert(scene, "LoadingMissionScene.instance".to_string());
    for n in [old_label, new_label, other] {
        b.diag.object_labels.insert(n, "CCLabelBMFont.instance".to_string());
        edit_node(&mut b, n, |st| {
            st.z_order = 2;
            st.position_x_bits = 100;
        });
    }
    back_text(&mut b, old_label, "Loading\0");
    back_text(&mut b, new_label, "Loading");
    back_text(&mut b, other, "Tap to continue");
    let children = b.ensure_node_children_array(scene);
    b.synthetic_array_push(children, other);
    b.synthetic_array_push(children, old_label);
    assert_eq!(b.maybe_find_duplicate_loading_bmfont_child(scene, new_label, 2), Some(old_label));
    assert_eq!(b.maybe_find_duplicate_loading_bmfont_child(scene, new_label, 3), None);
    assert_eq!(b.maybe_find_duplicate_loading_bmfont_child(scene, 0, 2), None);
    b.profile = TitleProfile::Default;
    assert_eq!(b.maybe_find_duplicate_loading_bmfont_child(scene, new_label, 2), None);
}
