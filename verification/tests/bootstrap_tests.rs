use mkea_core::bootstrap::{
    build_image_region, build_initial_stack_layout, data_external_binding, read_segment_bytes, simple_region,
    trampoline_page, BootstrapPlanner, CoreConfig, SegmentInfo, HLE_EXTERN_DATA_CGAFFINE_TRANSFORM_IDENTITY,
    HLE_EXTERN_DATA_CGPOINT_ZERO,
};

fn config() -> CoreConfig {
    CoreConfig {
        page_size: 0x1000,
        stack_base: 0x7000_0000,
        stack_size: 0x10_0000,
        heap_base: 0x2000_0000,
        heap_size: 0x10_0000,
        selector_pool_base: 0x3000_0000,
        selector_pool_size: 0x1000,
        trampoline_addr: 0x6fff_0000,
        trampoline_size: 0x1000,
        argv0: "Game".to_string(),
    }
}

fn segment(vmaddr: u32, vmsize: u32, fileoff: u32, filesize: u32) -> SegmentInfo {
    SegmentInfo { name: "__TEXT".to_string(), vmaddr, vmsize, fileoff, filesize, initprot: 5 }
}

#[test]
fn initial_stack_places_argv_below_the_reservation() {
    let s = build_initial_stack_layout(&config(), "Game").unwrap();
    let top = 0x7010_0000u32;
    assert_eq!(s.argv0_addr, top - 0x1000 - 8);
    assert_eq!(s.argv_ptr, s.argv0_addr - 8);
    assert_eq!(s.sp, s.argv_ptr - 4);
    assert_eq!(s.argc, 1);
    assert_eq!(s.argv0, "Game");
}

#[test]
fn initial_stack_reports_overflow_and_underflow() {
    let mut cfg = config();
    cfg.stack_base = 0xffff_0000;
    cfg.stack_size = 0x2_0000;
    assert_eq!(build_initial_stack_layout(&cfg, "x").unwrap_err().message(), "stack top overflow");
    cfg.stack_base = 0;
    cfg.stack_size = 0x800;
    assert_eq!(build_initial_stack_layout(&cfg, "x").unwrap_err().message(), "stack reservation underflow");
}

#[test]
fn image_regions_are_widened_to_pages() {
    let r = build_image_region(&segment(0x4100, 0x1f00, 0, 0x1000), 0x1000).unwrap();
    assert_eq!(r.start, 0x4000);
    assert_eq!(r.end, 0x6000);
    assert_eq!(r.size, 0x2000);
    assert_eq!(r.kind, "image");
    assert_eq!(r.prot, "R-X");
    assert_eq!(r.loaded_bytes, Some(0x1000));
    assert_eq!(r.zero_fill_bytes, Some(0xf00));
    let err = build_image_region(&segment(0xffff_f000, 0x2000, 0, 0), 0x1000).unwrap_err();
    assert_eq!(err.message(), "segment __TEXT overflows guest address space");
}

#[test]
fn segment_bytes_must_lie_inside_the_slice() {
    let slice: Vec<u8> = (0u8..32).collect();
    assert_eq!(read_segment_bytes(&slice, &segment(0, 0, 4, 3)).unwrap(), vec![4, 5, 6]);
    assert!(read_segment_bytes(&slice, &segment(0, 0, 30, 8)).is_err());
}

#[test]
fn simple_regions_reject_wrapping() {
    let r = simple_region("heap", "heap", 0x1000, 0x1000, 3, None).unwrap();
    assert_eq!(r.end, 0x2000);
    assert_eq!(r.prot, "RW-");
    let err = simple_region("heap", "heap", 0xffff_f000, 0x2000, 3, None).unwrap_err();
    assert_eq!(err.message(), "synthetic region heap overflows guest address space");
}

#[test]
fn extern_data_symbols_resolve_to_constants() {
    let (addr, bytes, note) = data_external_binding("CGPointZero").unwrap();
    assert_eq!(addr, HLE_EXTERN_DATA_CGPOINT_ZERO);
    assert_eq!(bytes, vec![0u8; 8]);
    assert_eq!(note, "CGPoint{0,0}");
    let (addr, bytes, _) = data_external_binding("CGAffineTransformIdentity").unwrap();
    assert_eq!(addr, HLE_EXTERN_DATA_CGAFFINE_TRANSFORM_IDENTITY);
    assert_eq!(bytes.len(), 24);
    assert_eq!(&bytes[0..4], &[0, 0, 0x80, 0x3f]);
    assert_eq!(&bytes[12..16], &[0, 0, 0x80, 0x3f]);
    assert!(data_external_binding("CGPointMake").is_none());
}

#[test]
fn trampoline_page_is_filled_with_returns() {
    let page = trampoline_page(0x6fff_0000, 0x1000);
    assert_eq!(page.len(), 0x1000);
    assert_eq!(&page[0..4], &[0x1e, 0xff, 0x2f, 0xe1]);
    assert_eq!(&page[0xfd0..0xfd4], &[0x70, 0x47, 0x70, 0x47]);
    assert_eq!(&page[0xff0..0xff4], &[0x70, 0x47, 0x70, 0x47]);
    assert_eq!(&page[0xff4..0xff8], &[0x1e, 0xff, 0x2f, 0xe1]);
}

#[test]
fn planner_lists_the_synthetic_regions_in_order() {
    let planner = BootstrapPlanner::new(config());
    let regions = planner.synthetic_regions().unwrap();
    let names: Vec<&str> = regions.iter().map(|r| r.name.as_str()).collect();
    assert_eq!(names, vec!["stack", "heap", "selector_pool", "extern_data", "trampoline"]);
    assert_eq!(regions[4].prot, "R-X");
    assert_eq!(regions[0].prot, "RW-");
    let mut bad = config();
    bad.heap_base = 0xffff_ff00;
    let err = BootstrapPlanner::new(bad).synthetic_regions().unwrap_err();
    assert_eq!(err.message(), "synthetic region heap overflows guest address space");
}
