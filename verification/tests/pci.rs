use axdriver::pci::{cam_offset, config_word_index, Cam, DeviceFunction, PciRangeAllocator};

#[test]
fn cam_sizes() {
    assert_eq!(Cam::MmioCam.size(), 0x100_0000);
    assert_eq!(Cam::Ecam.size(), 0x1000_0000);
}

#[test]
fn device_function_validity() {
    assert!(DeviceFunction { bus: 255, device: 31, function: 7 }.valid());
    assert!(!DeviceFunction { bus: 0, device: 32, function: 0 }.valid());
    assert!(!DeviceFunction { bus: 0, device: 0, function: 8 }.valid());
}

#[test]
fn cam_offset_of_interrupt_line() {
    let df = DeviceFunction { bus: 1, device: 2, function: 3 };
    assert_eq!(cam_offset(Cam::MmioCam, df, 0x3C), 0x0001_133C);
    assert_eq!(cam_offset(Cam::Ecam, df, 0x3C), 0x0011_303C);
}

#[test]
fn cam_offset_rounds_register_down_to_a_word() {
    let df = DeviceFunction { bus: 0, device: 1, function: 0 };
    assert_eq!(cam_offset(Cam::MmioCam, df, 0x3F), cam_offset(Cam::MmioCam, df, 0x3C));
    assert_eq!(cam_offset(Cam::MmioCam, df, 0x05), 0x0804);
}

#[test]
fn cam_offset_of_last_function_fits() {
    let df = DeviceFunction { bus: 255, device: 31, function: 7 };
    assert_eq!(cam_offset(Cam::MmioCam, df, 0xFF), 0x00FF_FFFC);
    assert_eq!(cam_offset(Cam::Ecam, df, 0xFF), 0x0FFF_F0FC);
}

#[test]
fn word_index_is_offset_in_words() {
    let df = DeviceFunction { bus: 1, device: 2, function: 3 };
    assert_eq!(config_word_index(Cam::MmioCam, df, 0x3C), 0x0001_133C / 4);
}

#[test]
fn allocations_are_aligned_and_disjoint() {
    let mut a = PciRangeAllocator::new(0x1000_0000, 0x1000);
    assert_eq!(a.allocate(0x100), Some(0x1000_0000));
    assert_eq!(a.allocate(0x10), Some(0x1000_0100));
    assert_eq!(a.allocate(0x200), Some(0x1000_0200));
    assert_eq!(a.allocate(0x800), Some(0x1000_0800));
    assert_eq!(a.allocate(0x1), None);
}

#[test]
fn allocation_skips_to_the_next_multiple() {
    let mut a = PciRangeAllocator::new(0x100, 0x1000);
    assert_eq!(a.allocate(0x4), Some(0x100));
    assert_eq!(a.allocate(0x400), Some(0x400));
    assert_eq!(a.allocate(0x8), Some(0x800));
}

#[test]
fn non_power_of_two_is_refused() {
    let mut a = PciRangeAllocator::new(0, 0x1000);
    assert_eq!(a.allocate(3), None);
    assert_eq!(a.allocate(0), None);
    assert_eq!(a.allocate(0x100), Some(0));
}

#[test]
fn too_large_is_refused_and_changes_nothing() {
    let mut a = PciRangeAllocator::new(0x2000, 0x1000);
    assert_eq!(a.allocate(0x2000), None);
    assert_eq!(a.allocate(0x1000), Some(0x2000));
    assert_eq!(a.allocate(1), None);
}

#[test]
fn bounds_check_at_the_top_of_the_address_space() {
    let a = PciRangeAllocator::new(u64::MAX - 0xFFF, 0xFFF);
    assert!(!a.alloc_in_bounds(0x1000));
    assert!(a.alloc_in_bounds(0x800));
    assert!(a.alloc_in_bounds(3));
    let mut a = a;
    assert_eq!(a.allocate(0x800), Some(u64::MAX - 0xFFF));
}

#[test]
fn sequence_of_allocations_never_overlaps() {
    let mut a = PciRangeAllocator::new(0x1000, 0x10000);
    let sizes = [0x10u64, 0x1000, 3, 0x8, 0x4000, 0x100000, 0x20];
    let mut regions: Vec<(u64, u64)> = Vec::new();
    for s in sizes {
        if let Some(r) = a.allocate(s) {
            assert_eq!(r % s, 0);
            assert!(r >= 0x1000 && r + s <= 0x11000);
            regions.push((r, s));
        }
    }
    assert_eq!(regions.len(), 5);
    for w in regions.windows(2) {
        assert!(w[0].0 + w[0].1 <= w[1].0);
    }
}
