use mkea_core::backend::{BackendTuning, MemoryArm32Backend};
use mkea_core::profiles::TitleProfile;

#[test]
fn blending_mixes_by_alpha_and_makes_the_pixel_opaque() {
    let mut buf = vec![0u8; 2 * 2 * 4];
    MemoryArm32Backend::ui_blend_pixel(&mut buf, 2, 2, 1, 0, [255, 0, 0, 255]);
    assert_eq!(&buf[4..8], &[255, 0, 0, 255]);
    MemoryArm32Backend::ui_blend_pixel(&mut buf, 2, 2, 0, 1, [200, 100, 50, 128]);
    assert_eq!(&buf[8..12], &[100, 50, 25, 255]);
    // over an existing colour
    let mut one = vec![100u8, 100, 100, 0];
    MemoryArm32Backend::ui_blend_pixel(&mut one, 1, 1, 0, 0, [200, 0, 100, 51]);
    assert_eq!(one, vec![120, 80, 100, 255]);
}

#[test]
fn pixels_off_the_surface_are_left_alone() {
    let mut buf = vec![7u8; 2 * 2 * 4];
    let before = buf.clone();
    MemoryArm32Backend::ui_blend_pixel(&mut buf, 2, 2, 2, 0, [1, 2, 3, 255]);
    MemoryArm32Backend::ui_blend_pixel(&mut buf, 2, 2, -1, 0, [1, 2, 3, 255]);
    MemoryArm32Backend::ui_blend_pixel(&mut buf, 2, 2, 0, 2, [1, 2, 3, 255]);
    // a buffer shorter than the surface
    let mut short = vec![7u8; 6];
    MemoryArm32Backend::ui_blend_pixel(&mut short, 2, 2, 1, 0, [1, 2, 3, 255]);
    assert_eq!(buf, before);
    assert_eq!(short, vec![7u8; 6]);
}

#[test]
fn filling_a_rectangle_clips_to_the_surface() {
    let mut buf = vec![0u8; 3 * 2 * 4];
    MemoryArm32Backend::ui_fill_rect_rgba(&mut buf, 3, 2, 1, 0, 5, 5, [9, 8, 7, 255]);
    for (x, y) in [(1, 0), (2, 0), (1, 1), (2, 1)] {
        let i = (y * 3 + x) * 4;
        assert_eq!(&buf[i..i + 4], &[9, 8, 7, 255]);
    }
    for y in 0..2 {
        let i = y * 3 * 4;
        assert_eq!(&buf[i..i + 4], &[0, 0, 0, 0]);
    }
    let mut edge = vec![0u8; 4];
    MemoryArm32Backend::ui_fill_rect_rgba(&mut edge, 1, 1, i32::MAX, 0, 10, 1, [9, 9, 9, 255]);
    assert_eq!(edge, vec![0u8; 4]);
}

#[test]
fn clearing_a_rectangle_makes_it_transparent() {
    let mut buf = vec![9u8; 2 * 2 * 4];
    MemoryArm32Backend::ui_clear_rect_rgba(&mut buf, 2, 2, 0, 1, 1, 1);
    assert_eq!(&buf[8..12], &[0, 0, 0, 0]);
    assert_eq!(buf.iter().filter(|b| **b == 0).count(), 4);
    MemoryArm32Backend::ui_clear_rect_rgba(&mut buf, 2, 2, -5, -5, 100, 100);
    assert!(buf.iter().all(|b| *b == 0));
}

#[test]
fn cropping_copies_the_rectangle_row_by_row() {
    let src: Vec<u8> = (0u8..24).collect();
    let out = MemoryArm32Backend::crop_rgba_region(&src, 3, 2, 1, 0, 2, 2).unwrap();
    let mut expected: Vec<u8> = (4u8..12).collect();
    expected.extend(16u8..24);
    assert_eq!(out, expected);
    assert_eq!(MemoryArm32Backend::crop_rgba_region(&src, 3, 2, 0, 0, 0, 1), None);
    assert_eq!(MemoryArm32Backend::crop_rgba_region(&src, 3, 2, 2, 0, 2, 1), None);
    assert_eq!(MemoryArm32Backend::crop_rgba_region(&src, 3, 2, u32::MAX, 0, 2, 1), None);
    assert_eq!(MemoryArm32Backend::crop_rgba_region(&src, 0, 2, 0, 0, 1, 1), None);
}

#[test]
fn scoring_counts_opaque_pixels_and_colour_spread() {
    assert_eq!(MemoryArm32Backend::score_rgba_region(&[]), 0);
    assert_eq!(MemoryArm32Backend::score_rgba_region(&[10, 20, 40, 255]), 1024 + 10 + 20 + 30 + 31);
    // a transparent grey pixel scores nothing; a trailing partial pixel is ignored
    assert_eq!(MemoryArm32Backend::score_rgba_region(&[5, 5, 5, 8, 1, 2]), 1);
    assert_eq!(MemoryArm32Backend::score_rgba_region(&[5, 5, 5, 0, 200]), 0);
}

fn region_backend() -> MemoryArm32Backend {
    MemoryArm32Backend::new(
        TitleProfile::Default,
        0x2000_0000,
        0x4000,
        0x3000_0000,
        0x1000,
        0x4000_0000,
        0x1000,
        BackendTuning { synthetic_network_fault_probes: false },
    )
}

#[test]
fn a_sprite_region_picks_the_crop_that_shows_more() {
    let b = region_backend();
    // a 2x4 image: the top two rows transparent, the bottom two opaque red
    let mut src = vec![0u8; 2 * 4 * 4];
    for px in 4..8 {
        src[px * 4..px * 4 + 4].copy_from_slice(&[255, 0, 0, 255]);
    }
    let mut st = b.sprite_or_default(0x100);
    st.width = 2;
    st.height = 2;
    // without an explicit rectangle the whole image is shown
    let whole = b.resolve_sprite_texture_region(0x100, &st, &src, 2, 4, (0, 0, 2, 2));
    assert_eq!(whole, (src.clone(), 2, 4));
    st.texture_rect_explicit = true;
    let (rgba, w, h) = b.resolve_sprite_texture_region(0x100, &st, &src, 2, 4, (0, 0, 2, 2));
    assert_eq!((w, h), (2, 2));
    assert_eq!(rgba, src[16..32].to_vec());
    // a rectangle of no size shows nothing
    assert_eq!(b.resolve_sprite_texture_region(0x100, &st, &src, 2, 4, (0, 0, 0, 2)), (Vec::new(), 0, 0));
    // a rectangle that fits neither way shows the whole image
    assert_eq!(b.resolve_sprite_texture_region(0x100, &st, &src, 2, 4, (1, 0, 2, 2)), (src.clone(), 2, 4));
}
