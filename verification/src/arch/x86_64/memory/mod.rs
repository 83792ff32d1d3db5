//! x86-64 virtual memory: canonical addresses, the address-space layout and
//! the boot-time frame allocator.

pub mod canonical;
pub mod frame_allocator;
pub mod layout;
pub mod vmm;

pub use canonical::canonical_form;
pub use canonical::canonicalize_virtual_address;
pub use canonical::is_canonical;
pub use canonical::PAGE_SIZE;
pub use frame_allocator::BootInfoFrameAllocator;
pub use frame_allocator::MemoryRegion;
pub use frame_allocator::MemoryRegionKind;
pub use vmm::VirtualMemoryManager;
