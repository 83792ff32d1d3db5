use oxy_kernel::memory::{Error, Frame, NotAlignedError, Page, PhysicalAddress, VirtualAddress};

#[test]
fn addresses_in_the_log() {
    assert_eq!(PhysicalAddress::new(0x1000).to_string(), "0x0x1000phys");
    assert_eq!(PhysicalAddress::new(0).to_string(), "0x0x0phys");
    assert_eq!(PhysicalAddress::new(0xABCDEF).to_string(), "0x0xabcdefphys");
    assert_eq!(PhysicalAddress::new(u64::MAX).to_string(), "0x0xffffffffffffffffphys");
    assert_eq!(VirtualAddress::new(0x9000_0000_0000).to_string(), "0x0xffff900000000000virt");
    assert_eq!(VirtualAddress::new(0x10).to_string(), "0x0x10virt");
}

#[test]
fn pages_and_frames_in_the_log() {
    let page = Page::containing(VirtualAddress::new(0x1A123));
    assert_eq!(page.to_string(), "Page(26 @ 0x0x1a000virt)");
    let frame = Frame::containing(PhysicalAddress::new(0x64000));
    assert_eq!(frame.to_string(), "Frame(100 @ 0x0x64000phys)");
    assert_eq!(Frame::containing(PhysicalAddress::new(0)).to_string(), "Frame(0 @ 0x0x0phys)");
    assert_eq!(
        Page::containing(VirtualAddress::new(u64::MAX)).to_string(),
        "Page(4503599627370495 @ 0x0xfffffffffffff000virt)"
    );
}

#[test]
fn errors_in_the_log() {
    let frame = Frame::containing(PhysicalAddress::new(0x5000));
    assert_eq!(
        Error::PageAlreadyMapped(frame).to_string(),
        "page is already mapped to frame Frame(5 @ 0x0x5000phys)"
    );
    assert_eq!(Error::FrameAllocationFailed.to_string(), "frame allocation failed");
    assert_eq!(Error::Other("a parent entry is a huge page").to_string(), "a parent entry is a huge page");
    assert_eq!(NotAlignedError.to_string(), "address is not properly aligned");
}
