use mkea_core::backend::{BackendTuning, MemoryArm32Backend};
use mkea_core::profiles::TitleProfile;

const HEAP: u32 = 0x2000_0000;
const ATLAS: u32 = 0x6fff_5000;

fn backend() -> MemoryArm32Backend {
    let mut b = MemoryArm32Backend::new(
        TitleProfile::Default,
        HEAP,
        0x4000,
        0x3000_0000,
        0x1000,
        0x4000_0000,
        0x1000,
        BackendTuning { synthetic_network_fault_probes: false },
    );
    b.map(0x1000, 0x1000, 3).unwrap();
    b.map(HEAP, 0x4000, 3).unwrap();
    b
}

#[test]
fn atlas_storage_is_made_and_kept() {
    let mut b = backend();
    let ptr = b.ensure_synthetic_texture_atlas_storage(ATLAS, 2);
    assert_eq!(ptr, HEAP);
    let st = b.atlas_state(ATLAS);
    assert_eq!((st.capacity, st.quad_stride, st.quad_buffer_ptr), (2, 96, HEAP));
    assert_eq!(b.read_guest_bytes(ptr, 192).unwrap(), vec![0u8; 192]);
    // a smaller request keeps the buffer
    assert_eq!(b.ensure_synthetic_texture_atlas_storage(ATLAS, 1), ptr);
    assert_eq!(b.ensure_synthetic_texture_atlas_storage(ATLAS, 0), ptr);
}

#[test]
fn growing_an_atlas_keeps_its_quads() {
    let mut b = backend();
    let old = b.ensure_synthetic_texture_atlas_storage(ATLAS, 1);
    b.write_bytes(old, &[7u8; 96]).unwrap();
    let line = b.resize_synthetic_texture_atlas(ATLAS, 3, "resizeCapacity:");
    let st = b.atlas_state(ATLAS);
    assert_eq!(st.capacity, 3);
    assert_ne!(st.quad_buffer_ptr, old);
    assert_eq!(b.read_guest_bytes(st.quad_buffer_ptr, 96).unwrap(), vec![7u8; 96]);
    assert_eq!(b.read_guest_bytes(st.quad_buffer_ptr + 96, 192).unwrap(), vec![0u8; 192]);
    assert!(line.starts_with("cocos resizeCapacity: textureAtlas oldCapacity=1 -> 3 oldBuffer=0x20000000"));
}

#[test]
fn a_quad_update_copies_both_halves_into_its_slot() {
    let mut b = backend();
    b.write_bytes(0x1100, &[1u8; 32]).unwrap();
    b.write_bytes(0x1200, &[2u8; 64]).unwrap();
    let line = b.update_synthetic_texture_atlas_quad(ATLAS, 0x1100, 0x1200, 1, "updateQuad:");
    let st = b.atlas_state(ATLAS);
    assert_eq!((st.capacity, st.total_quads, st.last_index, st.update_count), (2, 2, Some(1), 1));
    assert_eq!(st.invalid_update_count, 1);
    let slot = st.quad_buffer_ptr + 96;
    assert_eq!(b.read_guest_bytes(slot, 64).unwrap(), vec![2u8; 64]);
    assert_eq!(b.read_guest_bytes(slot + 64, 32).unwrap(), vec![1u8; 32]);
    assert!(line.contains("index=1 capacity=2 totalQuads=2"));
    assert!(line.ends_with("copiedTex=32 copiedVertex=64 invalidUpdates=1"));
    // an unreadable source copies nothing
    let line = b.update_synthetic_texture_atlas_quad(ATLAS, 0x5000_0000, 0, 0, "updateQuad:");
    assert!(line.ends_with("copiedTex=0 copiedVertex=0 invalidUpdates=1"));
    assert_eq!(b.atlas_state(ATLAS).max_index_seen, Some(1));
}

#[test]
fn resetting_zeroes_the_quads() {
    let mut b = backend();
    let ptr = b.ensure_synthetic_texture_atlas_storage(ATLAS, 2);
    b.write_bytes(ptr, &[9u8; 192]).unwrap();
    b.update_synthetic_texture_atlas_quad(ATLAS, 0, 0, 1, "updateQuad:");
    let line = b.reset_synthetic_texture_atlas_quads(ATLAS, "removeAllQuads");
    assert_eq!(b.read_guest_bytes(ptr, 192).unwrap(), vec![0u8; 192]);
    let st = b.atlas_state(ATLAS);
    assert_eq!((st.total_quads, st.last_index, st.capacity), (0, None, 2));
    assert!(line.starts_with("cocos removeAllQuads textureAtlas reset buffer=0x20000000"));
    assert!(line.ends_with("capacity=2"));
}
