use mkea_core::memory::{
    align_down, align_up_checked, mach_prot_to_guest, prot_to_string, GuestMemory, MemoryRegion, GUEST_PROT_EXEC,
    GUEST_PROT_READ, GUEST_PROT_WRITE,
};

fn region(name: &str, kind: &str, addr: u32, size: u32, prot: u32) -> MemoryRegion {
    MemoryRegion { name: name.to_string(), kind: kind.to_string(), addr, size, prot }
}

#[test]
fn register_region_rejects_overlap() {
    let mut mem = GuestMemory::new();
    mem.register_region(region("text", "image", 0x1000, 0x1000, GUEST_PROT_READ | GUEST_PROT_EXEC)).unwrap();

    let err = mem
        .register_region(region("data", "image", 0x1800, 0x1000, GUEST_PROT_READ | GUEST_PROT_WRITE))
        .unwrap_err();

    let message = err.message().clone();
    assert!(message.contains("overlaps"));
}

#[test]
fn guest_write_requires_covered_region() {
    let mut mem = GuestMemory::new();
    mem.register_region(region("stack", "stack", 0x7000_0000, 0x1000, GUEST_PROT_READ | GUEST_PROT_WRITE)).unwrap();

    mem.write_bytes(0x7000_0010, 4, "stack-init".to_string()).unwrap();
    assert_eq!(mem.writes().len(), 1);

    let err = mem.write_bytes(0x7000_0ff0, 0x40, "overflow".to_string()).unwrap_err();
    let message = err.message().clone();
    assert!(message.contains("not fully covered"));
}

#[test]
fn align_up_checked_rounds_to_alignment() {
    assert_eq!(align_down(0x1234, 0x1000), 0x1000);
    assert_eq!(align_up_checked(0x1234, 0x1000).unwrap(), 0x2000);
}

#[test]
fn regions_stay_sorted_by_address() {
    let mut mem = GuestMemory::new();
    mem.register_region(region("b", "image", 0x3000, 0x1000, GUEST_PROT_READ)).unwrap();
    mem.register_region(region("a", "image", 0x1000, 0x1000, GUEST_PROT_READ)).unwrap();
    mem.register_region(region("c", "image", 0x2000, 0x1000, GUEST_PROT_READ)).unwrap();
    let addrs: Vec<u32> = mem.regions().iter().map(|r| r.addr).collect();
    assert_eq!(addrs, vec![0x1000, 0x2000, 0x3000]);
    assert_eq!(mem.region_count(), 3);
}

#[test]
fn zero_sized_region_is_rejected() {
    let mut mem = GuestMemory::new();
    let err = mem.register_region(region("z", "image", 0x1000, 0, GUEST_PROT_READ)).unwrap_err();
    assert!(!err.message().is_empty());
    assert_eq!(mem.region_count(), 0);
}

#[test]
fn write_into_read_only_region_is_rejected() {
    let mut mem = GuestMemory::new();
    mem.register_region(region("rodata", "segment", 0x1000, 0x1000, GUEST_PROT_READ)).unwrap();
    let err = mem.write_bytes(0x1000, 4, "patch".to_string()).unwrap_err();
    assert!(err.message().contains("non-writable"));
    assert_eq!(mem.writes().len(), 0);
    mem.register_region(region("text", "image", 0x4000, 0x1000, GUEST_PROT_READ | GUEST_PROT_EXEC)).unwrap();
    assert!(mem.write_bytes(0x4000, 4, "patch".to_string()).is_ok());
    assert_eq!(mem.writes().len(), 1);
}

#[test]
fn align_up_checked_reports_overflow_and_bad_alignment() {
    assert_eq!(align_up_checked(0xffff_fff0, 0x1000).unwrap_err().message(), "align_up overflow");
    assert_eq!(align_up_checked(5, 0).unwrap_err().message(), "invalid alignment");
    assert_eq!(align_up_checked(0x2000, 0x1000).unwrap(), 0x2000);
}

#[test]
fn mach_protection_maps_to_guest_bits() {
    assert_eq!(mach_prot_to_guest(5), GUEST_PROT_READ | GUEST_PROT_EXEC);
    assert_eq!(mach_prot_to_guest(0), GUEST_PROT_READ);
    assert_eq!(prot_to_string(GUEST_PROT_READ | GUEST_PROT_WRITE), "RW-");
    assert_eq!(prot_to_string(GUEST_PROT_READ | GUEST_PROT_EXEC), "R-X");
}
