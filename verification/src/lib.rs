//! Bring-up core of a freestanding x86-64 kernel: typed addresses, pages and
//! frames, the address-space layout, the boot-time frame allocator and the
//! kernel heap bootstrap.

pub mod arch;
pub mod memory;
