use oxy_kernel::arch::x86_64::memory::PAGE_SIZE;
use oxy_kernel::memory::{Frame, NotAlignedError, Page, PhysicalAddress, VirtualAddress};
use x86_64::structures::paging::PageSize;

fn page_at(address: u64) -> Page {
    Page::new(VirtualAddress::new(address)).unwrap()
}

fn frame_at(address: u64) -> Frame {
    Frame::new(PhysicalAddress::new(address)).unwrap()
}

fn starts_of_pages(mut run: oxy_kernel::memory::PageRange) -> Vec<u64> {
    let mut starts = Vec::new();
    while let Some(page) = run.next() {
        starts.push(page.start_address().value());
    }
    starts
}

fn starts_of_frames(mut run: oxy_kernel::memory::FrameRange) -> Vec<u64> {
    let mut starts = Vec::new();
    while let Some(frame) = run.next() {
        starts.push(frame.start_address().value());
    }
    starts
}

#[test]
fn page_size_is_that_of_the_x86_64_crate() {
    assert_eq!(PAGE_SIZE, x86_64::structures::paging::Size4KiB::SIZE);
}

#[test]
fn page_new_accepts_aligned_addresses() {
    for &a in &[0u64, 0x1000, 0x7FFF_FFFF_F000, 0xFFFF_8000_0000_0000, 0xFFFF_FFFF_FFFF_F000] {
        let address = VirtualAddress::new(a);
        let page = Page::new(address);
        assert!(page.is_ok());
        assert_eq!(page.unwrap().start_address(), address);
    }
}

#[test]
fn page_new_rejects_unaligned_addresses() {
    for &a in &[1u64, 0xFFF, 0x1001, 0xFFFF_8000_0000_0800, u64::MAX] {
        let address = VirtualAddress::new(a);
        assert_eq!(Page::new(address), Err(NotAlignedError));
        let page = Page::containing(address);
        assert_eq!(page.start_address().value(), a - a % 0x1000);
    }
}

#[test]
fn page_containing_gives_the_number() {
    for &a in &[0u64, 1, 0xFFF, 0x1000, 0x1234_5678, 0xFFFF_9000_0001_8FFF, u64::MAX] {
        let address = VirtualAddress::new(a);
        assert_eq!(Page::containing(address).number(), address.value() / PAGE_SIZE);
    }
}

#[test]
fn page_with_number() {
    assert_eq!(Page::with_number(0).start_address().value(), 0);
    assert_eq!(Page::with_number(3).start_address().value(), 0x3000);
    assert_eq!(Page::with_number(3).number(), 3);
    assert_eq!(Page::with_number(0x8_0000_0000).start_address().value(), 0xFFFF_8000_0000_0000);
    assert_eq!(Page::with_number(0xF_FFFF_FFFF_FFFF).start_address().value(), 0xFFFF_FFFF_FFFF_F000);
}

#[test]
fn frame_new_accepts_aligned_addresses() {
    for &a in &[0u64, 0x1000, 0x8000_0000_0000, 0xFFFF_FFFF_FFFF_F000] {
        let address = PhysicalAddress::new(a);
        let frame = Frame::new(address);
        assert!(frame.is_ok());
        assert_eq!(frame.unwrap().start_address(), address);
    }
}

#[test]
fn frame_new_rejects_unaligned_addresses() {
    for &a in &[1u64, 0xFFF, 0x1001, u64::MAX] {
        let address = PhysicalAddress::new(a);
        assert_eq!(Frame::new(address), Err(NotAlignedError));
        assert_eq!(Frame::containing(address).start_address().value(), a - a % 0x1000);
    }
}

#[test]
fn frame_containing_gives_the_number() {
    for &a in &[0u64, 0xFFF, 0x1000, 0x5678_1234, u64::MAX] {
        assert_eq!(Frame::containing(PhysicalAddress::new(a)).number(), a / PAGE_SIZE);
    }
    assert_eq!(Frame::with_number(5).start_address().value(), 0x5000);
    assert_eq!(Frame::with_number(5).number(), 5);
}

#[test]
fn pages_and_frames_are_ordered_by_address() {
    assert!(page_at(0x1000) < page_at(0x2000));
    assert!(page_at(0x7FFF_FFFF_F000) < page_at(0xFFFF_8000_0000_0000));
    assert!(frame_at(0x1000) < frame_at(0x2000));
    assert_eq!(page_at(0x1000), Page::containing(VirtualAddress::new(0x1FFF)));
}

#[test]
fn page_index_counts_canonical_pages() {
    assert_eq!(page_at(0).index(), 0);
    assert_eq!(page_at(0x7FFF_FFFF_F000).index(), 0x7_FFFF_FFFF);
    assert_eq!(page_at(0xFFFF_8000_0000_0000).index(), 0x8_0000_0000);
    assert_eq!(page_at(0xFFFF_FFFF_FFFF_F000).index(), 0xF_FFFF_FFFF);
}

#[test]
fn page_steps_between() {
    assert_eq!(Page::steps_between(&page_at(0x1000), &page_at(0x4000)), Some(3));
    assert_eq!(Page::steps_between(&page_at(0x1000), &page_at(0x1000)), Some(0));
    assert_eq!(Page::steps_between(&page_at(0x4000), &page_at(0x1000)), None);
    assert_eq!(
        Page::steps_between(&page_at(0x7FFF_FFFF_F000), &page_at(0xFFFF_8000_0000_0000)),
        Some(1)
    );
}

#[test]
fn page_forward_checked() {
    assert_eq!(Page::forward_checked(page_at(0x1000), 2), Some(page_at(0x3000)));
    assert_eq!(Page::forward_checked(page_at(0x1000), 0), Some(page_at(0x1000)));
    assert_eq!(
        Page::forward_checked(page_at(0x7FFF_FFFF_F000), 1),
        Some(page_at(0xFFFF_8000_0000_0000))
    );
    assert_eq!(
        Page::forward_checked(page_at(0xFFFF_FFFF_FFFF_E000), 1),
        Some(page_at(0xFFFF_FFFF_FFFF_F000))
    );
    assert_eq!(Page::forward_checked(page_at(0xFFFF_FFFF_FFFF_F000), 1), None);
    assert_eq!(Page::forward_checked(page_at(0), 0x10_0000_0000), None);
    assert_eq!(Page::forward_checked(page_at(0x1000), u64::MAX), None);
}

#[test]
fn page_backward_checked() {
    assert_eq!(Page::backward_checked(page_at(0x3000), 2), Some(page_at(0x1000)));
    assert_eq!(Page::backward_checked(page_at(0x3000), 3), Some(page_at(0)));
    assert_eq!(Page::backward_checked(page_at(0x3000), 4), None);
    assert_eq!(
        Page::backward_checked(page_at(0xFFFF_8000_0000_0000), 1),
        Some(page_at(0x7FFF_FFFF_F000))
    );
}

#[test]
fn frame_steps() {
    assert_eq!(Frame::steps_between(&frame_at(0x1000), &frame_at(0x4000)), Some(3));
    assert_eq!(Frame::steps_between(&frame_at(0x4000), &frame_at(0x1000)), None);
    assert_eq!(Frame::forward_checked(frame_at(0x1000), 2), Some(frame_at(0x3000)));
    assert_eq!(Frame::forward_checked(frame_at(0xFFFF_FFFF_FFFF_F000), 1), None);
    assert_eq!(Frame::forward_checked(frame_at(0x1000), u64::MAX), None);
    assert_eq!(
        Frame::forward_checked(frame_at(0x7FFF_FFFF_F000), 1),
        Some(frame_at(0x8000_0000_0000))
    );
    assert_eq!(Frame::backward_checked(frame_at(0x3000), 3), Some(frame_at(0)));
    assert_eq!(Frame::backward_checked(frame_at(0x3000), 4), None);
}

#[test]
fn page_range_visits_every_page_once_in_order() {
    let run = Page::range_inclusive(page_at(0x2000), page_at(0x5000));
    assert_eq!(run.len(), 4);
    assert!(!run.is_empty());
    assert_eq!(starts_of_pages(run), vec![0x2000, 0x3000, 0x4000, 0x5000]);
    let run = Page::range(page_at(0x2000), page_at(0x5000));
    assert_eq!(run.len(), 3);
    assert_eq!(starts_of_pages(run), vec![0x2000, 0x3000, 0x4000]);
}

#[test]
fn page_range_is_restartable() {
    let first = starts_of_pages(Page::range_inclusive(page_at(0x2000), page_at(0x9000)));
    let second = starts_of_pages(Page::range_inclusive(page_at(0x2000), page_at(0x9000)));
    assert_eq!(first, second);
    let run = Page::range(page_at(0x2000), page_at(0x9000));
    let copy = run;
    assert_eq!(starts_of_pages(run), starts_of_pages(copy));
}

#[test]
fn page_range_edges() {
    assert_eq!(starts_of_pages(Page::range_inclusive(page_at(0x2000), page_at(0x2000))), vec![0x2000]);
    assert!(Page::range(page_at(0x2000), page_at(0x2000)).is_empty());
    assert!(Page::range(page_at(0x3000), page_at(0x2000)).is_empty());
    assert!(Page::range_inclusive(page_at(0x3000), page_at(0x2000)).is_empty());
    assert_eq!(Page::range_inclusive(page_at(0x3000), page_at(0x2000)).next(), None);
    assert_eq!(
        starts_of_pages(Page::range_inclusive(page_at(0x7FFF_FFFF_E000), page_at(0xFFFF_8000_0000_1000))),
        vec![0x7FFF_FFFF_E000, 0x7FFF_FFFF_F000, 0xFFFF_8000_0000_0000, 0xFFFF_8000_0000_1000]
    );
    assert_eq!(
        starts_of_pages(Page::range_inclusive(page_at(0xFFFF_FFFF_FFFF_E000), page_at(0xFFFF_FFFF_FFFF_F000))),
        vec![0xFFFF_FFFF_FFFF_E000, 0xFFFF_FFFF_FFFF_F000]
    );
    assert_eq!(Page::range_inclusive(page_at(0), page_at(0xFFFF_FFFF_FFFF_F000)).len(), 0x10_0000_0000);
}

#[test]
fn page_range_next_takes_the_first() {
    let mut run = Page::range(page_at(0x2000), page_at(0x4000));
    assert_eq!(run.next(), Some(page_at(0x2000)));
    assert_eq!(run.len(), 1);
    assert_eq!(run.next(), Some(page_at(0x3000)));
    assert_eq!(run.next(), None);
    assert_eq!(run.next(), None);
    assert_eq!(run.len(), 0);
}

#[test]
fn frame_range_visits_every_frame_once_in_order() {
    let run = Frame::range_inclusive(frame_at(0x2000), frame_at(0x5000));
    assert_eq!(run.len(), 4);
    assert_eq!(starts_of_frames(run), vec![0x2000, 0x3000, 0x4000, 0x5000]);
    assert_eq!(starts_of_frames(Frame::range(frame_at(0x2000), frame_at(0x5000))), vec![0x2000, 0x3000, 0x4000]);
    assert!(Frame::range(frame_at(0x5000), frame_at(0x2000)).is_empty());
    assert_eq!(
        starts_of_frames(Frame::range_inclusive(frame_at(0xFFFF_FFFF_FFFF_E000), frame_at(0xFFFF_FFFF_FFFF_F000))),
        vec![0xFFFF_FFFF_FFFF_E000, 0xFFFF_FFFF_FFFF_F000]
    );
    let again = starts_of_frames(Frame::range_inclusive(frame_at(0x2000), frame_at(0x5000)));
    assert_eq!(again, vec![0x2000, 0x3000, 0x4000, 0x5000]);
}

#[test]
fn both_orders_agree() {
    let addresses = [0u64, 0x1000, 0x7FFF_FFFF_F000, 0xFFFF_8000_0000_0000, 0xFFFF_FFFF_FFFF_F000];
    for &a in &addresses {
        for &b in &addresses {
            let (p, q) = (page_at(a), page_at(b));
            assert_eq!(p.partial_cmp(&q), Some(p.cmp(&q)));
            assert_eq!(p.partial_cmp(&q), a.partial_cmp(&b));
            let (f, g) = (frame_at(a), frame_at(b));
            assert_eq!(f.partial_cmp(&g), Some(f.cmp(&g)));
            assert_eq!(f.partial_cmp(&g), a.partial_cmp(&b));
            let (v, w) = (VirtualAddress::new(a), VirtualAddress::new(b));
            assert_eq!(v.partial_cmp(&w), Some(v.cmp(&w)));
            assert_eq!(v < w, a < b);
            let (x, y) = (PhysicalAddress::new(a), PhysicalAddress::new(b));
            assert_eq!(x.partial_cmp(&y), Some(x.cmp(&y)));
            assert_eq!(x >= y, a >= b);
        }
    }
}
