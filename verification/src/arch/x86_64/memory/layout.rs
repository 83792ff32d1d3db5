use crate::arch::x86_64::memory::vmm::VirtualMemoryManager;
use crate::memory::PhysicalAddress;
use crate::memory::VirtualAddress;
use core::ops::Range;
use vstd::prelude::*;

verus! {

/// The first address of the whole of virtual memory.
pub const VIRTUAL_ADDRESS_SPACE_START: u64 = 0;

/// The end of the whole of virtual memory: the address behind its last.
pub const VIRTUAL_ADDRESS_SPACE_END: u64 = 0xFFFF_FFFF_FFFF_FFFF;

/// The first address of user space.
pub const USER_SPACE_START: u64 = 0;

/// The end of user space: the address behind its last.
pub const USER_SPACE_END: u64 = 0xFFFF_8000_0000_0000;

/// The first address of kernel space.
pub const KERNEL_SPACE_START: u64 = 0xFFFF_8000_0000_0000;

/// The end of kernel space: the address behind its last.
pub const KERNEL_SPACE_END: u64 = 0xFFFF_FFFF_FFFF_FFFF;

/// The first address of the window of the kernel's code and globals.
pub const KERNEL_FIXED_SPACE_START: u64 = 0xFFFF_8000_0000_0000;

/// The end of the window of the kernel's code and globals: the address behind its last.
pub const KERNEL_FIXED_SPACE_END: u64 = 0xFFFF_9000_0000_0000;

/// The first address of the window of the kernel heap.
pub const KERNEL_HEAP_SPACE_START: u64 = 0xFFFF_9000_0000_0000;

/// The end of the window of the kernel heap: the address behind its last.
pub const KERNEL_HEAP_SPACE_END: u64 = 0xFFFF_A000_0000_0000;

/// The first address of the window of the kernel stacks.
pub const KERNEL_STACK_SPACE_START: u64 = 0xFFFF_A000_0000_0000;

/// The end of the window of the kernel stacks: the address behind its last.
pub const KERNEL_STACK_SPACE_END: u64 = 0xFFFF_B000_0000_0000;

/// The first address of the window of what is mapped at boot time.
pub const KERNEL_BOOT_SPACE_START: u64 = 0xFFFF_C000_0000_0000;

/// The end of the window of what is mapped at boot time: the address behind its last.
pub const KERNEL_BOOT_SPACE_END: u64 = 0xFFFF_D000_0000_0000;

/// The first address of the mirror of physical memory.
pub const KERNEL_PHYSICAL_SPACE_START: u64 = 0xFFFF_D000_0000_0000;

/// The end of the mirror of physical memory: the address behind its last.
pub const KERNEL_PHYSICAL_SPACE_END: u64 = 0xFFFF_FFFF_FFFF_FFFF;

/// The first address of physical memory.
pub const PHYSICAL_ADDRESS_SPACE_START: u64 = 0;

/// The end of physical memory: the address behind its last.
pub const PHYSICAL_ADDRESS_SPACE_END: u64 = 0x1F_FFFF_FFFF_FFFF;

/// Whether the windows from `a_start` to `a_end` and from `b_start` to
/// `b_end`, each without its end, share no address.
pub open spec fn windows_disjoint(a_start: u64, a_end: u64, b_start: u64, b_end: u64) -> bool {
    a_end <= b_start || b_end <= a_start
}

/// Whether the window from `start` to `end` lies in the window from
/// `outer_start` to `outer_end`.
pub open spec fn window_within(start: u64, end: u64, outer_start: u64, outer_end: u64) -> bool {
    outer_start <= start && start <= end && end <= outer_end
}

/// The windows of the address space never overlap: user space and kernel
/// space share no address, and the five windows inside kernel space lie in
/// it and share no address with one another.
pub proof fn lemma_windows_never_overlap()
    ensures
        window_within(
            USER_SPACE_START,
            USER_SPACE_END,
            VIRTUAL_ADDRESS_SPACE_START,
            VIRTUAL_ADDRESS_SPACE_END,
        ),
        window_within(
            KERNEL_SPACE_START,
            KERNEL_SPACE_END,
            VIRTUAL_ADDRESS_SPACE_START,
            VIRTUAL_ADDRESS_SPACE_END,
        ),
        windows_disjoint(
            USER_SPACE_START,
            USER_SPACE_END,
            KERNEL_SPACE_START,
            KERNEL_SPACE_END,
        ),
        window_within(
            KERNEL_FIXED_SPACE_START,
            KERNEL_FIXED_SPACE_END,
            KERNEL_SPACE_START,
            KERNEL_SPACE_END,
        ),
        window_within(
            KERNEL_HEAP_SPACE_START,
            KERNEL_HEAP_SPACE_END,
            KERNEL_SPACE_START,
            KERNEL_SPACE_END,
        ),
        window_within(
            KERNEL_STACK_SPACE_START,
            KERNEL_STACK_SPACE_END,
            KERNEL_SPACE_START,
            KERNEL_SPACE_END,
        ),
        window_within(
            KERNEL_BOOT_SPACE_START,
            KERNEL_BOOT_SPACE_END,
            KERNEL_SPACE_START,
            KERNEL_SPACE_END,
        ),
        window_within(
            KERNEL_PHYSICAL_SPACE_START,
            KERNEL_PHYSICAL_SPACE_END,
            KERNEL_SPACE_START,
            KERNEL_SPACE_END,
        ),
        windows_disjoint(
            KERNEL_FIXED_SPACE_START,
            KERNEL_FIXED_SPACE_END,
            KERNEL_HEAP_SPACE_START,
            KERNEL_HEAP_SPACE_END,
        ),
        windows_disjoint(
            KERNEL_FIXED_SPACE_START,
            KERNEL_FIXED_SPACE_END,
            KERNEL_STACK_SPACE_START,
            KERNEL_STACK_SPACE_END,
        ),
        windows_disjoint(
            KERNEL_FIXED_SPACE_START,
            KERNEL_FIXED_SPACE_END,
            KERNEL_BOOT_SPACE_START,
            KERNEL_BOOT_SPACE_END,
        ),
        windows_disjoint(
            KERNEL_FIXED_SPACE_START,
            KERNEL_FIXED_SPACE_END,
            KERNEL_PHYSICAL_SPACE_START,
            KERNEL_PHYSICAL_SPACE_END,
        ),
        windows_disjoint(
            KERNEL_HEAP_SPACE_START,
            KERNEL_HEAP_SPACE_END,
            KERNEL_STACK_SPACE_START,
            KERNEL_STACK_SPACE_END,
        ),
        windows_disjoint(
            KERNEL_HEAP_SPACE_START,
            KERNEL_HEAP_SPACE_END,
            KERNEL_BOOT_SPACE_START,
            KERNEL_BOOT_SPACE_END,
        ),
        windows_disjoint(
            KERNEL_HEAP_SPACE_START,
            KERNEL_HEAP_SPACE_END,
            KERNEL_PHYSICAL_SPACE_START,
            KERNEL_PHYSICAL_SPACE_END,
        ),
        windows_disjoint(
            KERNEL_STACK_SPACE_START,
            KERNEL_STACK_SPACE_END,
            KERNEL_BOOT_SPACE_START,
            KERNEL_BOOT_SPACE_END,
        ),
        windows_disjoint(
            KERNEL_STACK_SPACE_START,
            KERNEL_STACK_SPACE_END,
            KERNEL_PHYSICAL_SPACE_START,
            KERNEL_PHYSICAL_SPACE_END,
        ),
        windows_disjoint(
            KERNEL_BOOT_SPACE_START,
            KERNEL_BOOT_SPACE_END,
            KERNEL_PHYSICAL_SPACE_START,
            KERNEL_PHYSICAL_SPACE_END,
        ),
{
}

impl<'a> VirtualMemoryManager<'a> {
    /// The whole of virtual memory.
    pub fn virtual_address_space() -> (window: Range<VirtualAddress>)
        ensures
            window.start@ == VIRTUAL_ADDRESS_SPACE_START,
            window.end@ == VIRTUAL_ADDRESS_SPACE_END,
    {
        VirtualAddress::new(0)..VirtualAddress::new(0xFFFF_FFFF_FFFF)
    }

    /// User space: the part of virtual memory that programs run in.
    pub fn user_space() -> (window: Range<VirtualAddress>)
        ensures
            window.start@ == USER_SPACE_START,
            window.end@ == USER_SPACE_END,
    {
        VirtualAddress::new(0)..VirtualAddress::new(0x8000_0000_0000)
    }

    /// Kernel space: the part of virtual memory that the kernel keeps to itself.
    pub fn kernel_space() -> (window: Range<VirtualAddress>)
        ensures
            window.start@ == KERNEL_SPACE_START,
            window.end@ == KERNEL_SPACE_END,
    {
        VirtualAddress::new(0x8000_0000_0000)..VirtualAddress::new(0xFFFF_FFFF_FFFF)
    }

    /// The window of the kernel's code and globals.
    pub fn kernel_fixed_space() -> (window: Range<VirtualAddress>)
        ensures
            window.start@ == KERNEL_FIXED_SPACE_START,
            window.end@ == KERNEL_FIXED_SPACE_END,
    {
        VirtualAddress::new(0x8000_0000_0000)..VirtualAddress::new(0x9000_0000_0000)
    }

    /// The window of the kernel heap.
    pub fn kernel_heap_space() -> (window: Range<VirtualAddress>)
        ensures
            window.start@ == KERNEL_HEAP_SPACE_START,
            window.end@ == KERNEL_HEAP_SPACE_END,
    {
        VirtualAddress::new(0x9000_0000_0000)..VirtualAddress::new(0xA000_0000_0000)
    }

    /// The window of the kernel stacks.
    pub fn kernel_stack_space() -> (window: Range<VirtualAddress>)
        ensures
            window.start@ == KERNEL_STACK_SPACE_START,
            window.end@ == KERNEL_STACK_SPACE_END,
    {
        VirtualAddress::new(0xA000_0000_0000)..VirtualAddress::new(0xB000_0000_0000)
    }

    /// The window of what is mapped at boot time, such as the frame buffer
    /// and the initial ramdrive.
    pub fn kernel_boot_space() -> (window: Range<VirtualAddress>)
        ensures
            window.start@ == KERNEL_BOOT_SPACE_START,
            window.end@ == KERNEL_BOOT_SPACE_END,
    {
        VirtualAddress::new(0xC000_0000_0000)..VirtualAddress::new(0xD000_0000_0000)
    }

    /// The mirror of physical memory: one virtual byte for each physical
    /// byte. The kernel cannot reach physical memory beyond what fits in it.
    pub fn kernel_physical_space() -> (window: Range<VirtualAddress>)
        ensures
            window.start@ == KERNEL_PHYSICAL_SPACE_START,
            window.end@ == KERNEL_PHYSICAL_SPACE_END,
    {
        VirtualAddress::new(0xD000_0000_0000)..VirtualAddress::new(0xFFFF_FFFF_FFFF)
    }

    /// Physical memory as far as the layout provides for it. Not every
    /// address in it is backed by memory.
    pub fn physical_address_space() -> (window: Range<PhysicalAddress>)
        ensures
            window.start@ == PHYSICAL_ADDRESS_SPACE_START,
            window.end@ == PHYSICAL_ADDRESS_SPACE_END,
    {
        PhysicalAddress::new(0)..PhysicalAddress::new(0x1F_FFFF_FFFF_FFFF)
    }
}

} // verus!
