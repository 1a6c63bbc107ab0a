use mkea_core::backend::foundation::{
    HLE_FAKE_NSSTRING_ERROR_DESCRIPTION, HLE_FAKE_NSSTRING_HTTP_METHOD, HLE_FAKE_NSSTRING_URL_ABSOLUTE,
};
use mkea_core::backend::{BackendTuning, MemoryArm32Backend};
use mkea_core::profiles::TitleProfile;

const HEAP: u32 = 0x2000_0000;

fn backend() -> MemoryArm32Backend {
    let mut b = MemoryArm32Backend::new(
        TitleProfile::Default,
        HEAP,
        0x4000,
        0x3000_0000,
        0x1000,
        0x4000_0000,
        0x1000,
        BackendTuning { synthetic_network_fault_probes: false },
    );
    b.map(0x1000, 0x1000, 3).unwrap();
    b.map(HEAP, 0x4000, 3).unwrap();
    b
}

#[test]
fn a_string_backing_holds_the_text_and_a_nul() {
    let mut b = backend();
    b.ensure_string_backing(0x7000_0000, "NSString.test".to_string(), "héllo").unwrap();
    let backing = &b.runtime.foundation.synthetic_string_backing[&0x7000_0000];
    assert_eq!(backing.text, "héllo");
    assert_eq!(backing.len, 5);
    assert_eq!(backing.ptr, HEAP);
    let bytes = b.read_guest_bytes(backing.ptr, 7).unwrap();
    assert_eq!(bytes, "héllo\0".as_bytes());
    assert_eq!(b.object_label(0x7000_0000), Some("NSString.test"));
    assert_eq!(b.guest_string_value(0x7000_0000), Some("héllo".to_string()));
}

#[test]
fn a_full_heap_leaves_everything_as_it_was() {
    let mut b = backend();
    let long = "x".repeat(0x5000);
    assert!(b.ensure_string_backing(0x7000_0000, "big".to_string(), &long).is_err());
    assert!(b.runtime.foundation.synthetic_string_backing.is_empty());
    assert_eq!(b.object_label(0x7000_0000), None);
}

#[test]
fn a_blob_backing_keeps_a_preview_without_nuls() {
    let mut b = backend();
    b.ensure_blob_backing(0x7000_0100, "NSData.test".to_string(), b"ab\0c\xff").unwrap();
    let blob = &b.runtime.foundation.synthetic_blob_backing[&0x7000_0100];
    assert_eq!(blob.len, 5);
    assert_eq!(blob.preview_ascii, "abc\u{fffd}");
    assert_eq!(b.read_guest_bytes(blob.ptr, 5).unwrap(), b"ab\0c\xff".to_vec());
    b.ensure_blob_backing(0x7000_0200, "NSData.empty".to_string(), b"").unwrap();
    assert_eq!(b.runtime.foundation.synthetic_blob_backing[&0x7000_0200].ptr, 0);
    assert!(!b.foundation_data_backing_ready());
}

#[test]
fn guest_values_read_as_c_strings() {
    let mut b = backend();
    b.write_bytes(0x1100, b"Menu.png\0").unwrap();
    assert_eq!(b.guest_string_value(0x1100), Some("Menu.png".to_string()));
    assert_eq!(b.guest_string_value(0), None);
    assert_eq!(b.guest_string_value(0x5000_0000), None);
}

#[test]
fn host_strings_are_materialized_as_objects() {
    let mut b = backend();
    let obj = b.materialize_host_string_object("NSString.host", "done");
    assert_eq!(obj, 0x6fff_0800);
    assert_eq!(b.guest_string_value(obj), Some("done".to_string()));
    assert_eq!(b.object_label(obj), Some("NSString.host"));
}

#[test]
fn a_value_gets_a_labelled_backing_once() {
    let mut b = backend();
    b.write_bytes(0x1100, b"Menu.png\0").unwrap();
    b.write_bytes(0x1200, b"Title.png\0").unwrap();
    b.diag.object_labels.insert(0x1200, "0x00001200".to_string());
    let made = b.ensure_string_backing_for_value(0x1100, "NSString.file").unwrap();
    assert_eq!(made.text, "Menu.png");
    assert_eq!(b.object_label(0x1100), Some("NSString.file"));
    b.ensure_string_backing_for_value(0x1200, "NSString.file").unwrap();
    assert_eq!(b.object_label(0x1200), Some("NSString.file<'Title.png'>"));
    let again = b.ensure_string_backing_for_value(0x1100, "other").unwrap();
    assert_eq!(again.ptr, made.ptr);
    assert!(b.ensure_string_backing_for_value(0, "x").is_none());
    assert!(b.ensure_string_backing_for_value(0x1800, "x").is_none());
}

#[test]
fn refreshing_backs_every_connection_string_and_the_payload() {
    let mut b = backend();
    assert!(!b.foundation_string_backing_ready());
    b.refresh_foundation_backing_objects().unwrap();
    assert!(b.foundation_string_backing_ready());
    assert!(b.foundation_data_backing_ready());
    assert_eq!(
        b.guest_string_value(HLE_FAKE_NSSTRING_URL_ABSOLUTE),
        Some("https://bootstrap.generic.local/bootstrap.txt".to_string())
    );
    assert_eq!(b.guest_string_value(HLE_FAKE_NSSTRING_HTTP_METHOD), Some("GET".to_string()));
    assert_eq!(b.object_label(HLE_FAKE_NSSTRING_HTTP_METHOD), Some("NSString.synthetic.request.method<'GET'>"));
    assert_eq!(
        b.guest_string_value(HLE_FAKE_NSSTRING_ERROR_DESCRIPTION),
        Some("The request timed out.".to_string())
    );
    let data = b.runtime.ui_network.network_data;
    assert_eq!(b.object_label(data), Some("NSData.synthetic#0<0 / 128 bytes>"));
}
