use mkea_core::backend::textures::{SyntheticBitmapContext, SyntheticImage, SyntheticTexture, SyntheticTextureAtlasState};
use mkea_core::backend::{BackendTuning, MemoryArm32Backend};
use mkea_core::profiles::TitleProfile;

fn backend() -> MemoryArm32Backend {
    MemoryArm32Backend::new(
        TitleProfile::Default,
        0x2000_0000,
        0x4000,
        0x3000_0000,
        0x1000,
        0x4000_0000,
        0x1000,
        BackendTuning { synthetic_network_fault_probes: false },
    )
}

fn texture(w: u32, h: u32, cache_key: &str, source_key: &str, source_path: &str) -> SyntheticTexture {
    SyntheticTexture {
        width: w,
        height: h,
        gl_name: 7,
        has_premultiplied_alpha: false,
        image: 0,
        source_key: source_key.to_string(),
        source_path: source_path.to_string(),
        cache_key: cache_key.to_string(),
    }
}

fn atlas(texture: u32) -> SyntheticTextureAtlasState {
    SyntheticTextureAtlasState {
        texture,
        capacity: 4,
        total_quads: 2,
        quad_buffer_ptr: 0,
        quad_stride: 96,
        update_count: 0,
        invalid_update_count: 0,
        last_index: None,
        max_index_seen: None,
    }
}

#[test]
fn texture_lookups_fall_back_as_documented() {
    let mut b = backend();
    b.runtime.textures.synthetic_textures.insert(0x10, texture(64, 32, "", "src", "path"));
    b.runtime.textures.synthetic_images.insert(0x20, SyntheticImage { width: 8, height: 4, rgba: vec![0; 128] });
    assert_eq!(b.synthetic_texture_dimensions(0x10), Some((64, 32)));
    assert_eq!(b.synthetic_texture_dimensions(0x20), Some((8, 4)));
    assert_eq!(b.synthetic_texture_dimensions(0x30), None);
    assert_eq!(b.synthetic_texture_gl_name(0x10), 7);
    assert_eq!(b.synthetic_texture_gl_name(0x30), 0x30);
    assert!(!b.synthetic_texture_has_pma(0x10));
    assert!(b.synthetic_texture_has_pma(0x30));
    assert_eq!(b.synthetic_texture_debug_key(0x10), Some("src".to_string()));
    b.runtime.textures.synthetic_textures.insert(0x11, texture(1, 1, "", "", ""));
    assert_eq!(b.synthetic_texture_debug_key(0x11), None);
    assert_eq!(b.synthetic_texture_debug_key(0x30), None);
}

#[test]
fn texture_like_objects_resolve_to_their_texture() {
    let mut b = backend();
    b.runtime.textures.synthetic_textures.insert(0x10, texture(1, 1, "k", "", ""));
    b.runtime.textures.synthetic_texture_atlases.insert(0x40, atlas(0x10));
    let mut st = b.sprite_or_default(0x50);
    st.texture = 0x10;
    b.set_sprite_state(0x50, st);
    assert_eq!(b.synthetic_resolve_texture_like_object(0x10), 0x10);
    assert_eq!(b.synthetic_resolve_texture_like_object(0x40), 0x10);
    assert_eq!(b.synthetic_resolve_texture_like_object(0x50), 0x10);
    assert_eq!(b.synthetic_resolve_texture_like_object(0x60), 0);
    assert_eq!(b.synthetic_resolve_texture_like_object(0), 0);
    assert_eq!(b.synthetic_texture_atlas_texture(0x40), 0x10);
    assert_eq!(b.synthetic_texture_atlas_texture(0x50), 0x10);
    assert_eq!(b.synthetic_texture_atlas_capacity(0x40), 4);
    assert_eq!(b.synthetic_texture_atlas_total_quads(0x40), 2);
    assert_eq!(b.synthetic_texture_atlas_capacity(0x41), 0);
}

#[test]
fn drawing_contexts_stack_up() {
    let mut b = backend();
    for ctx in [0x100, 0x200] {
        b.runtime.textures.synthetic_bitmap_contexts.insert(
            ctx,
            SyntheticBitmapContext { width: 2, height: 2, rgba: vec![0; 16], fill_rgba: [0, 0, 0, 0] },
        );
    }
    b.push_uigraphics_context(0x100);
    b.push_uigraphics_context(0x999);
    b.push_uigraphics_context(0x200);
    assert_eq!(b.runtime.textures.current_uigraphics_context, 0x200);
    assert_eq!(b.pop_uigraphics_context(), 0x200);
    assert_eq!(b.runtime.textures.current_uigraphics_context, 0x100);
    assert_eq!(b.pop_uigraphics_context(), 0x100);
    assert_eq!(b.runtime.textures.current_uigraphics_context, 0);
    assert_eq!(b.pop_uigraphics_context(), 0);
}

#[test]
fn bitmap_contexts_fill_and_clear() {
    let mut b = backend();
    b.runtime.textures.synthetic_bitmap_contexts.insert(
        0x100,
        SyntheticBitmapContext { width: 2, height: 1, rgba: vec![0; 8], fill_rgba: [0, 0, 0, 0] },
    );
    assert!(b.set_bitmap_context_fill_rgba(0x100, [10, 20, 30, 255]));
    assert!(!b.set_bitmap_context_fill_rgba(0x101, [10, 20, 30, 255]));
    assert!(b.fill_bitmap_context_rect(0x100, (1, 0, 1, 1)));
    assert_eq!(b.runtime.textures.synthetic_bitmap_contexts[&0x100].rgba, vec![0, 0, 0, 0, 10, 20, 30, 255]);
    assert!(b.clear_bitmap_context_rect(0x100, (0, 0, 2, 1)));
    assert_eq!(b.runtime.textures.synthetic_bitmap_contexts[&0x100].rgba, vec![0; 8]);
    assert!(!b.fill_bitmap_context_rect(0x101, (0, 0, 1, 1)));
    assert!(!b.clear_bitmap_context_rect(0x101, (0, 0, 1, 1)));
}

#[test]
fn the_texture_cache_object_is_made_once() {
    let mut b = backend();
    let obj = b.ensure_cocos_texture_cache_object();
    assert_eq!(obj, 0x6fff_0800);
    assert_eq!(b.object_label(obj), Some("CCTextureCache.synthetic#0"));
    assert_eq!(b.ensure_cocos_texture_cache_object(), obj);
    assert_eq!(b.runtime.graphics.synthetic_ui_object_cursor, 0x6fff_0820);
}
