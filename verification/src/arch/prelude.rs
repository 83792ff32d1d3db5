//! The items of the selected architecture backend that the architecture
//! independent code relies on.

pub use crate::arch::x86_64::memory::canonical::canonical_form;
pub use crate::arch::x86_64::memory::canonicalize_virtual_address;
pub use crate::arch::x86_64::memory::is_canonical;
pub use crate::arch::x86_64::memory::PAGE_SIZE;
pub use crate::arch::x86_64::memory::layout::KERNEL_HEAP_SPACE_END;
pub use crate::arch::x86_64::memory::layout::KERNEL_HEAP_SPACE_START;
pub use crate::arch::x86_64::memory::layout::KERNEL_PHYSICAL_SPACE_END;
pub use crate::arch::x86_64::memory::layout::KERNEL_PHYSICAL_SPACE_START;
pub use crate::arch::x86_64::memory::VirtualMemoryManager;
