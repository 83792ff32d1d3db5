//! Architecture independent memory types.

pub mod address;
pub mod allocator;
pub mod error;
pub mod kmm;
pub mod page;
pub mod range;
pub mod text;
pub mod vmm;

pub use address::PhysicalAddress;
pub use address::VirtualAddress;
pub use error::Error;
pub use error::NotAlignedError;
pub use page::Frame;
pub use page::Page;
pub use page::PageWritability;
pub use range::FrameRange;
pub use range::PageRange;
pub use vmm::FlushPromise;
pub use vmm::VirtualMemoryManagerProtocol;
pub use kmm::KernelMemory;
