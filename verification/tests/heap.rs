use core::alloc::Layout;
use core::mem::MaybeUninit;
use linked_list_allocator::Heap;
use oxy_kernel::arch::x86_64::memory::vmm::MapToError;
use oxy_kernel::arch::x86_64::memory::{MemoryRegion, MemoryRegionKind, VirtualMemoryManager};
use oxy_kernel::memory::allocator::{initialize, HeapWindow, INITIAL_HEAP_PAGES, INITIAL_HEAP_SIZE};
use oxy_kernel::memory::{
    Error, FlushPromise, Frame, KernelMemory, Page, PageWritability, PhysicalAddress,
    VirtualAddress, VirtualMemoryManagerProtocol,
};

const HEAP_BASE: u64 = 0xFFFF_9000_0000_0000;

struct Flushed;

impl FlushPromise for Flushed {
    fn flush(self) {}
}

/// Page tables kept as a list, for want of hardware.
struct ListedTables {
    manager: VirtualMemoryManager<'static>,
    entries: Vec<(Page, Frame, u64)>,
}

impl ListedTables {
    fn with_frames(count: u64) -> Self {
        let map = vec![MemoryRegion {
            start: 0x10_0000,
            end: 0x10_0000 + count * 0x1000,
            kind: MemoryRegionKind::Usable,
        }];
        let map: &'static [MemoryRegion] = Box::leak(map.into_boxed_slice());
        ListedTables { manager: VirtualMemoryManager::new(0xFFFF_D000_0000_0000, map), entries: Vec::new() }
    }
}

impl VirtualMemoryManagerProtocol for ListedTables {
    type FlushPromise = Flushed;

    fn try_map(&mut self, page: Page, writability: PageWritability) -> Result<Flushed, Error> {
        let request = self.manager.prepare_map(page, writability)?;
        let outcome = match self.entries.iter().find(|entry| entry.0 == page) {
            Some(entry) => Err(MapToError::PageAlreadyMapped(entry.1)),
            None => {
                self.entries.push((request.page, request.frame, request.flags));
                Ok(())
            }
        };
        VirtualMemoryManager::complete_map(outcome)?;
        Ok(Flushed)
    }

    fn virtual_to_physical(&self, addr: VirtualAddress) -> Option<PhysicalAddress> {
        let page = Page::containing(addr);
        self.entries
            .iter()
            .find(|entry| entry.0 == page)
            .map(|entry| entry.1.start_address() + (addr.value() - page.start_address().value()))
    }
}

fn page_at(address: u64) -> Page {
    Page::new(VirtualAddress::new(address)).unwrap()
}

#[test]
fn initial_heap_is_one_hundred_kibibytes() {
    assert_eq!(INITIAL_HEAP_SIZE, 102400);
    assert_eq!(INITIAL_HEAP_PAGES, 25);
    assert_eq!(INITIAL_HEAP_PAGES * 4096, INITIAL_HEAP_SIZE);
}

#[test]
fn initialize_maps_every_page_of_the_window() {
    let mut tables = ListedTables::with_frames(64);
    let window = initialize(&mut tables).unwrap();
    assert_eq!(window, HeapWindow { base: VirtualAddress::new(HEAP_BASE), size: 102400 });
    assert_eq!(tables.entries.len(), 25);
    for (k, entry) in tables.entries.iter().enumerate() {
        assert_eq!(entry.0.start_address().value(), HEAP_BASE + k as u64 * 0x1000);
        assert_eq!(entry.1.start_address().value(), 0x10_0000 + k as u64 * 0x1000);
        assert_eq!(entry.2, 3);
    }
    assert!(tables.virtual_to_physical(VirtualAddress::new(HEAP_BASE + 102400 - 1)).is_some());
    assert!(tables.virtual_to_physical(VirtualAddress::new(HEAP_BASE + 102400)).is_none());
    assert!(tables.virtual_to_physical(VirtualAddress::new(HEAP_BASE - 1)).is_none());
}

#[test]
fn initialize_with_exactly_enough_frames() {
    let mut tables = ListedTables::with_frames(25);
    assert!(initialize(&mut tables).is_ok());
    assert!(matches!(
        tables.try_map(page_at(0x4000), PageWritability::ReadOnly),
        Err(Error::FrameAllocationFailed)
    ));
}

#[test]
fn initialize_stops_where_the_frames_run_out() {
    let mut tables = ListedTables::with_frames(10);
    assert!(matches!(initialize(&mut tables), Err(Error::FrameAllocationFailed)));
    assert_eq!(tables.entries.len(), 10);
    assert_eq!(tables.entries[9].0.start_address().value(), HEAP_BASE + 9 * 0x1000);
    let mut none = ListedTables::with_frames(0);
    assert!(matches!(initialize(&mut none), Err(Error::FrameAllocationFailed)));
    assert!(none.entries.is_empty());
}

#[test]
fn initialize_twice_conflicts_on_the_first_page() {
    let mut tables = ListedTables::with_frames(64);
    initialize(&mut tables).unwrap();
    match initialize(&mut tables) {
        Err(Error::PageAlreadyMapped(frame)) => assert_eq!(frame.start_address().value(), 0x10_0000),
        _ => panic!("the heap's first page is mapped already"),
    }
    assert_eq!(tables.entries.len(), 25);
}

#[test]
fn mapping_then_translating_round_trips() {
    let mut tables = ListedTables::with_frames(4);
    let page = page_at(0xFFFF_9000_0000_3000);
    assert!(tables.virtual_to_physical(page.start_address()).is_none());
    tables.try_map(page, PageWritability::ReadWrite).unwrap().flush();
    assert_eq!(
        tables.virtual_to_physical(page.start_address()),
        Some(PhysicalAddress::new(0x10_0000))
    );
    assert_eq!(
        tables.virtual_to_physical(VirtualAddress::new(0xFFFF_9000_0000_3ABC)),
        Some(PhysicalAddress::new(0x10_0ABC))
    );
    assert!(tables.virtual_to_physical(VirtualAddress::new(0xFFFF_9000_0000_4000)).is_none());
}

#[test]
fn mapping_the_same_page_twice_conflicts() {
    let mut tables = ListedTables::with_frames(4);
    let page = page_at(0x7000);
    tables.try_map(page, PageWritability::ReadWrite).unwrap().flush();
    match tables.try_map(page, PageWritability::ReadWrite) {
        Err(Error::PageAlreadyMapped(frame)) => {
            assert_eq!(frame.start_address().value(), 0x10_0000)
        }
        _ => panic!("the page is mapped already"),
    }
    assert_eq!(tables.virtual_to_physical(page.start_address()), Some(PhysicalAddress::new(0x10_0000)));
}

#[test]
fn mapping_the_same_page_twice_without_a_frame_left() {
    let mut tables = ListedTables::with_frames(1);
    let page = page_at(0x7000);
    tables.try_map(page, PageWritability::ReadWrite).unwrap().flush();
    assert!(matches!(
        tables.try_map(page, PageWritability::ReadWrite),
        Err(Error::FrameAllocationFailed)
    ));
}

#[test]
fn physical_memory_is_mirrored() {
    let tables = ListedTables::with_frames(0);
    assert_eq!(
        tables.physical_to_virtual(PhysicalAddress::new(0)).value(),
        0xFFFF_D000_0000_0000
    );
    assert_eq!(
        tables.physical_to_virtual(PhysicalAddress::new(0xB8000)).value(),
        0xFFFF_D000_000B_8000
    );
    assert_eq!(
        tables.physical_to_virtual(PhysicalAddress::new(0x2FFF_FFFF_FFFE)).value(),
        0xFFFF_FFFF_FFFF_FFFE
    );
}

#[test]
fn kernel_memory_owns_a_mapped_heap() {
    let memory = KernelMemory::new(ListedTables::with_frames(32)).ok().unwrap();
    assert_eq!(memory.heap_window().base.value(), HEAP_BASE);
    assert_eq!(memory.heap_window().size, INITIAL_HEAP_SIZE);
    for k in 0..25u64 {
        assert_eq!(
            memory.vmm().virtual_to_physical(VirtualAddress::new(HEAP_BASE + k * 0x1000 + 8)),
            Some(PhysicalAddress::new(0x10_0000 + k * 0x1000 + 8))
        );
    }
    assert_eq!(memory.vmm().physical_to_virtual(PhysicalAddress::new(0x1000)).value(), 0xFFFF_D000_0000_1000);
}

#[test]
fn kernel_memory_needs_frames() {
    assert!(matches!(
        KernelMemory::new(ListedTables::with_frames(24)),
        Err(Error::FrameAllocationFailed)
    ));
}

#[test]
fn heap_bootstrap_end_to_end() {
    let memory = KernelMemory::new(ListedTables::with_frames(32)).ok().unwrap();
    let window = memory.heap_window();
    let backing: &'static mut [MaybeUninit<u8>] =
        Box::leak(vec![MaybeUninit::<u8>::uninit(); window.size as usize].into_boxed_slice());
    let mut heap = Heap::empty();
    heap.init_from_slice(backing);
    assert!(heap.size() <= window.size as usize);
    assert!(heap.size() + 64 > window.size as usize);
    assert!(heap.allocate_first_fit(Layout::from_size_align(4096, 8).unwrap()).is_ok());
    assert!(heap.allocate_first_fit(Layout::from_size_align(64 * 1024, 8).unwrap()).is_ok());
    assert!(heap.allocate_first_fit(Layout::from_size_align(1024 * 1024, 8).unwrap()).is_err());
    assert!(heap.allocate_first_fit(Layout::from_size_align(16, 8).unwrap()).is_ok());
}
