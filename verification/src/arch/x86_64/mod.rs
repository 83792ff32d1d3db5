//! The x86-64 backend.

pub mod interrupts;
pub mod memory;
