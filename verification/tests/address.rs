use oxy_kernel::arch::x86_64::memory::canonicalize_virtual_address;
use oxy_kernel::memory::{PhysicalAddress, VirtualAddress};

#[test]
fn canonicalize_sign_extends_bit_47() {
    assert_eq!(canonicalize_virtual_address(0x8000_0000_0000), 0xFFFF_8000_0000_0000);
    assert_eq!(canonicalize_virtual_address(0x7FFF_FFFF_FFFF), 0x7FFF_FFFF_FFFF);
    assert_eq!(canonicalize_virtual_address(0xFFFF_FFFF_FFFF), 0xFFFF_FFFF_FFFF_FFFF);
    assert_eq!(canonicalize_virtual_address(0), 0);
}

#[test]
fn canonicalize_clears_stray_high_bits() {
    assert_eq!(canonicalize_virtual_address(0x1234_0000_0000_1000), 0x1000);
    assert_eq!(canonicalize_virtual_address(0x0001_8000_0000_0000), 0xFFFF_8000_0000_0000);
}

#[test]
fn canonicalize_is_idempotent() {
    for &a in &[
        0u64,
        0x1000,
        0x7FFF_FFFF_FFFF,
        0x8000_0000_0000,
        0xFFFF_8000_0000_0000,
        0x1234_5678_9ABC_DEF0,
        u64::MAX,
    ] {
        let once = canonicalize_virtual_address(a);
        assert_eq!(canonicalize_virtual_address(once), once);
    }
}

#[test]
fn canonicalize_leaves_canonical_addresses_unchanged() {
    for &a in &[0u64, 0xFFF, 0x7FFF_FFFF_FFFF, 0xFFFF_8000_0000_0000, 0xFFFF_9000_0000_0123, u64::MAX] {
        assert_eq!(canonicalize_virtual_address(a), a);
    }
}

#[test]
fn canonicalize_agrees_with_x86_64() {
    for &a in &[
        0u64,
        0x1000,
        0x7FFF_FFFF_FFFF,
        0x8000_0000_0000,
        0x1234_5678_9ABC_DEF0,
        0xFFFF_7FFF_FFFF_F000,
        u64::MAX,
    ] {
        assert_eq!(canonicalize_virtual_address(a), x86_64::VirtAddr::new_truncate(a).as_u64());
    }
}

#[test]
fn physical_address_keeps_its_value() {
    assert_eq!(PhysicalAddress::new(0x1234).value(), 0x1234);
    assert_eq!(PhysicalAddress::new(u64::MAX).value(), u64::MAX);
}

#[test]
fn physical_address_alignment() {
    let a = PhysicalAddress::new(0x1234);
    assert_eq!(a.align_down(0x1000).value(), 0x1000);
    assert_eq!(a.align_up(0x1000).value(), 0x2000);
    assert!(!a.is_aligned(0x1000));
    assert!(a.is_aligned(4));
    assert!(a.is_aligned(1));
    let b = PhysicalAddress::new(0x3000);
    assert!(b.is_aligned(0x1000));
    assert_eq!(b.align_down(0x1000), b);
    assert_eq!(b.align_up(0x1000), b);
    assert_eq!(a.align_down(1), a);
    assert_eq!(a.align_up(1), a);
}

#[test]
fn physical_address_align_up_at_the_top() {
    let a = PhysicalAddress::new(u64::MAX - 0xFFF);
    assert_eq!(a.align_up(0x1000).value(), 0xFFFF_FFFF_FFFF_F000);
    assert_eq!(PhysicalAddress::new(u64::MAX).align_down(0x8000_0000_0000_0000).value(), 0x8000_0000_0000_0000);
}

#[test]
fn physical_address_offsets() {
    let a = PhysicalAddress::new(0x1234);
    assert_eq!((a + 4).value(), 0x1238);
    assert_eq!((a - 4).value(), 0x1230);
    assert_eq!((a + 0), a);
}

#[test]
fn virtual_address_is_stored_canonical() {
    assert_eq!(VirtualAddress::new(0x8000_0000_0000).value(), 0xFFFF_8000_0000_0000);
    assert_eq!(VirtualAddress::new(0x9000_0000_0000).value(), 0xFFFF_9000_0000_0000);
    assert_eq!(VirtualAddress::new(0x1000).value(), 0x1000);
    assert_eq!(VirtualAddress::new(0xFFFF_9000_0000_0000), VirtualAddress::new(0x9000_0000_0000));
}

#[test]
fn virtual_address_alignment() {
    let a = VirtualAddress::new(0xFFFF_9000_0000_1234);
    assert_eq!(a.align_down(0x1000).value(), 0xFFFF_9000_0000_1000);
    assert_eq!(a.align_up(0x1000).value(), 0xFFFF_9000_0000_2000);
    assert!(!a.is_aligned(0x1000));
    assert!(a.align_down(0x1000).is_aligned(0x1000));
}

#[test]
fn virtual_address_align_up_crosses_into_the_upper_half() {
    let a = VirtualAddress::new(0x7FFF_FFFF_F001);
    assert_eq!(a.align_up(0x1000).value(), 0xFFFF_8000_0000_0000);
}

#[test]
fn virtual_address_align_down_beyond_the_half_is_canonicalized() {
    let a = VirtualAddress::new(0xFFFF_8000_0000_0000);
    assert_eq!(a.align_down(0x1_0000_0000_0000).value(), 0);
}

#[test]
fn virtual_address_offsets() {
    let a = VirtualAddress::new(0xFFFF_9000_0000_0000);
    assert_eq!((a + 0x18FFF).value(), 0xFFFF_9000_0001_8FFF);
    assert_eq!((a + 0x1000 - 0x1000), a);
}

#[test]
fn addresses_are_ordered_by_value() {
    assert!(PhysicalAddress::new(1) < PhysicalAddress::new(2));
    assert!(VirtualAddress::new(0x7FFF_FFFF_FFFF) < VirtualAddress::new(0x8000_0000_0000));
}
