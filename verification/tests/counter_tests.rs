use mkea_core::backend::counters::RECENT_ENTRY_LIMIT;
use mkea_core::backend::{BackendTuning, MemoryArm32Backend, RuntimeCountEntry};
use mkea_core::profiles::TitleProfile;

fn backend() -> MemoryArm32Backend {
    MemoryArm32Backend::new(
        TitleProfile::Default,
        0x2000_0000,
        0x4000,
        0x3000_0000,
        0x1000,
        0x4000_0000,
        0x1000,
        BackendTuning { synthetic_network_fault_probes: false },
    )
}

fn entry(name: &str, count: u32) -> RuntimeCountEntry {
    RuntimeCountEntry { name: name.to_string(), count }
}

#[test]
fn recent_entries_keep_the_newest() {
    let mut list = Vec::new();
    for v in ["a", "b", "c"] {
        MemoryArm32Backend::push_recent_entry(&mut list, v.to_string(), 2);
    }
    assert_eq!(list, vec!["b".to_string(), "c".to_string()]);
    MemoryArm32Backend::push_recent_entry(&mut list, "d".to_string(), 0);
    assert!(list.is_empty());
}

#[test]
fn counts_start_at_one_and_saturate() {
    let mut map = Vec::new();
    MemoryArm32Backend::bump_count(&mut map, "glDrawArrays");
    MemoryArm32Backend::bump_count(&mut map, "glClear");
    MemoryArm32Backend::bump_count(&mut map, "glDrawArrays");
    assert_eq!(MemoryArm32Backend::count_for(&map, "glDrawArrays"), 2);
    assert_eq!(MemoryArm32Backend::count_for(&map, "glClear"), 1);
    assert_eq!(MemoryArm32Backend::count_for(&map, "glFlush"), 0);
    assert_eq!(map.len(), 2);
    let mut full = vec![entry("x", u32::MAX)];
    MemoryArm32Backend::bump_count(&mut full, "x");
    assert_eq!(full[0].count, u32::MAX);
}

#[test]
fn top_counts_come_busiest_first_then_by_name() {
    let map = vec![entry("b", 2), entry("a", 2), entry("c", 5), entry("d", 1)];
    let top = MemoryArm32Backend::top_count_entries(&map, 3);
    let names: Vec<(String, u32)> = top.into_iter().map(|e| (e.name, e.count)).collect();
    assert_eq!(names, vec![("c".to_string(), 5), ("a".to_string(), 2), ("b".to_string(), 2)]);
    assert_eq!(MemoryArm32Backend::top_count_entries(&map, 10).len(), 4);
    assert!(MemoryArm32Backend::top_count_entries(&map, 0).is_empty());
    // names compare by code point: upper case before lower case
    let mixed = vec![entry("b", 1), entry("B", 1), entry("ab", 1), entry("a", 1)];
    let order: Vec<String> = MemoryArm32Backend::top_count_entries(&mixed, 4).into_iter().map(|e| e.name).collect();
    assert_eq!(order, vec!["B", "a", "ab", "b"]);
}

#[test]
fn gl_calls_are_counted_and_remembered() {
    let mut b = backend();
    assert_eq!(b.record_gl_call("glClear", "glClear(0x4000)".to_string()), 1);
    assert_eq!(b.record_gl_call("glClear", "glClear(0x4100)".to_string()), 2);
    for i in 0..30 {
        b.record_gl_call("glDrawArrays", format!("glDrawArrays #{i}"));
    }
    assert_eq!(b.runtime.recent_gl_calls.len(), RECENT_ENTRY_LIMIT);
    assert_eq!(b.runtime.recent_gl_calls.last().map(String::as_str), Some("glDrawArrays #29"));
    assert_eq!(MemoryArm32Backend::count_for(&b.runtime.gl_call_counts, "glDrawArrays"), 30);
}

#[test]
fn selectors_are_counted() {
    let mut b = backend();
    b.record_objc_selector("init", "-[Foo init]".to_string());
    b.record_objc_selector("init", "-[Bar init]".to_string());
    b.record_objc_selector("alloc", "+[Foo alloc]".to_string());
    assert_eq!(b.runtime.objc.objc_msgsend_calls, 3);
    assert_eq!(MemoryArm32Backend::count_for(&b.runtime.objc.objc_selector_counts, "init"), 2);
    assert_eq!(b.runtime.objc.recent_objc_selectors.len(), 3);
}
