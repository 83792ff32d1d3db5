use crate::arch::x86_64::memory::frame_allocator::memory_map_valid;
use crate::arch::x86_64::memory::frame_allocator::usable_frames;
use crate::arch::x86_64::memory::frame_allocator::BootInfoFrameAllocator;
use crate::arch::x86_64::memory::frame_allocator::MemoryRegion;
use crate::arch::x86_64::memory::canonical::canonical_form;
use crate::arch::x86_64::memory::canonical::lemma_canonical_form_idempotent;
use crate::memory::page::is_frame_start;
use crate::memory::vmm::map_attempt;
use crate::memory::vmm::Mapping;
use crate::memory::Error;
use crate::memory::Frame;
use crate::memory::Page;
use crate::memory::PageWritability;
use crate::memory::VirtualAddress;
use vstd::prelude::*;

verus! {

/// The bit of a page-table entry that says the entry is in use.
pub const ENTRY_PRESENT: u64 = 1;

/// The bit of a page-table entry that allows writes through it.
pub const ENTRY_WRITABLE: u64 = 2;

/// The flags of a page-table entry that grants `writability`: present for
/// both, writable only for read-write.
pub open spec fn entry_flags(writability: PageWritability) -> u64 {
    match writability {
        PageWritability::ReadOnly => ENTRY_PRESENT,
        PageWritability::ReadWrite => ENTRY_PRESENT | ENTRY_WRITABLE,
    }
}

/// Whether the x86_64 crate takes `addr` for a virtual address: bits 48 to
/// 63 are all zero, or they repeat a set bit 47.
pub open spec fn is_sign_extendable(addr: u64) -> bool {
    addr < 0x1_0000_0000_0000 || addr >= 0xFFFF_8000_0000_0000
}

/// Calls `VirtAddr::new` of the x86_64 crate and returns the address it
/// holds. `VirtAddr::new` panics unless bits 48 to 63 are all zero or repeat
/// a set bit 47; otherwise it extends bit 47 into them.
#[verifier::external_body]
fn checked_virtual_address(addr: u64) -> (result: u64)
    requires
        is_sign_extendable(addr),
    ensures
        result == canonical_form(addr),
{
    x86_64::VirtAddr::new(addr).as_u64()
}

/// Reads the bits of `PageTableFlags::PRESENT` of the x86_64 crate, which
/// its source declares as 1.
#[verifier::external_body]
fn present_flag_bits() -> (bits: u64)
    ensures
        bits == ENTRY_PRESENT,
{
    x86_64::structures::paging::PageTableFlags::PRESENT.bits()
}

/// Reads the bits of `PageTableFlags::WRITABLE` of the x86_64 crate, which
/// its source declares as 1 shifted left once.
#[verifier::external_body]
fn writable_flag_bits() -> (bits: u64)
    ensures
        bits == ENTRY_WRITABLE,
{
    x86_64::structures::paging::PageTableFlags::WRITABLE.bits()
}

/// The flags of a page-table entry that grants `writability`.
pub fn table_entry_flags(writability: PageWritability) -> (bits: u64)
    ensures
        bits == entry_flags(writability),
        bits == match writability {
            PageWritability::ReadOnly => 1u64,
            PageWritability::ReadWrite => 3u64,
        },
{
    match writability {
        PageWritability::ReadOnly => present_flag_bits(),
        PageWritability::ReadWrite => {
            let present: u64 = present_flag_bits();
            let writable: u64 = writable_flag_bits();
            assert(1u64 | 2u64 == 3u64) by (bit_vector);
            present | writable
        },
    }
}

/// Why the page tables refused a mapping.
#[derive(Copy, Clone, Debug, PartialEq, Eq, Structural)]
pub enum MapToError {
    /// No frame could be had for a table that the mapping needs.
    FrameAllocationFailed,
    /// An entry above the page maps a huge page, so there is no table to
    /// put the page in.
    ParentEntryHugePage,
    /// The page already resolves to the frame given.
    PageAlreadyMapped(Frame),
}

/// The error that a refusal of the page tables is reported as.
pub open spec fn mapping_error(e: MapToError) -> Error {
    match e {
        MapToError::PageAlreadyMapped(f) => Error::PageAlreadyMapped(f),
        MapToError::FrameAllocationFailed => Error::FrameAllocationFailed,
        MapToError::ParentEntryHugePage => Error::Other("a parent entry is a huge page"),
    }
}

impl From<MapToError> for Error {
    fn from(e: MapToError) -> (result: Error)
        ensures
            result == mapping_error(e),
    {
        match e {
            MapToError::PageAlreadyMapped(f) => Error::PageAlreadyMapped(f),
            MapToError::FrameAllocationFailed => Error::FrameAllocationFailed,
            MapToError::ParentEntryHugePage => Error::Other("a parent entry is a huge page"),
        }
    }
}

impl vstd::std_specs::convert::FromSpecImpl<MapToError> for Error {
    open spec fn obeys_from_spec() -> bool {
        true
    }

    open spec fn from_spec(e: MapToError) -> Error {
        mapping_error(e)
    }
}

/// What has to be written into the page tables to establish one mapping.
#[derive(Copy, Clone, Debug, PartialEq, Eq, Structural)]
pub struct MapRequest {
    pub page: Page,
    pub frame: Frame,
    pub flags: u64,
}

/// What is asked of whoever writes the page tables for `request`, where
/// `before` and `after` are the mappings around the attempt and `outcome`
/// is what the tables said. A success maps the page, which was unmapped, to
/// the frame of the request, with the access asked for, and changes no
/// other mapping. A refusal changes nothing; where it is
/// `PageAlreadyMapped`, it names the frame that the page resolves to; and
/// where the page is mapped, it is not for want of a frame.
pub open spec fn tables_written(
    before: Map<u64, Mapping>,
    request: MapRequest,
    writability: PageWritability,
    outcome: Result<(), MapToError>,
    after: Map<u64, Mapping>,
) -> bool {
    match outcome {
        Ok(_) => {
            &&& !before.contains_key(request.page@)
            &&& after == before.insert(
                request.page@,
                Mapping { frame: request.frame@, writability },
            )
        },
        Err(e) => {
            &&& after == before
            &&& e matches MapToError::PageAlreadyMapped(frame) ==> (before.contains_key(
                request.page@,
            ) && before[request.page@].frame == frame@)
            &&& before.contains_key(request.page@) ==> !(e is FrameAllocationFailed)
        },
    }
}

/// A backend that takes the frame with `prepare_map`, has the page tables
/// written as asked, and reports what they said with `complete_map`, maps
/// as the protocol of memory managers wants it: where a frame was left, the
/// attempt is one that the protocol allows; and so is the refusal for want
/// of a frame that `prepare_map` gives where none was left.
pub proof fn lemma_backend_maps_as_asked(
    before: Map<u64, Mapping>,
    request: MapRequest,
    writability: PageWritability,
    outcome: Result<(), MapToError>,
    after: Map<u64, Mapping>,
)
    requires
        is_frame_start(request.frame@),
        tables_written(before, request, writability, outcome, after),
    ensures
        map_attempt(
            before,
            true,
            request.page@,
            writability,
            match outcome {
                Ok(_) => None,
                Err(e) => Some(mapping_error(e)),
            },
            after,
        ),
        map_attempt(
            before,
            false,
            request.page@,
            writability,
            Some(Error::FrameAllocationFailed),
            before,
        ),
{
}

/// The x86-64 backend's part in mapping memory: it owns the frame allocator
/// and decides what goes into a page-table entry. The page tables themselves
/// are written by the caller, who holds the hardware.
pub struct VirtualMemoryManager<'a> {
    physical_memory_offset: VirtualAddress,
    frame_allocator: BootInfoFrameAllocator<'a>,
}

impl<'a> VirtualMemoryManager<'a> {
    /// The memory map that frames are drawn from.
    pub closed spec fn regions(&self) -> Seq<MemoryRegion> {
        self.frame_allocator.regions()
    }

    /// How many frames have been handed out.
    pub closed spec fn position(&self) -> nat {
        self.frame_allocator.position()
    }

    /// Where the earlier boot stage has mapped the whole of physical memory.
    pub closed spec fn spec_physical_memory_offset(&self) -> VirtualAddress {
        self.physical_memory_offset
    }

    /// A manager over the firmware's memory map that has handed out no
    /// frame yet. The caller vouches for both arguments: physical memory is
    /// mapped at `physical_memory_offset`, and the frames that the map calls
    /// usable are unused.
    pub fn new(physical_memory_offset: u64, memory_regions: &'a [MemoryRegion]) -> (result: Self)
        requires
            is_sign_extendable(physical_memory_offset),
            memory_map_valid(memory_regions@),
        ensures
            result.spec_physical_memory_offset()@ == canonical_form(physical_memory_offset),
            result.regions() == memory_regions@,
            result.position() == 0,
    {
        let offset: u64 = checked_virtual_address(physical_memory_offset);
        proof {
            lemma_canonical_form_idempotent(physical_memory_offset);
        }
        VirtualMemoryManager {
            physical_memory_offset: VirtualAddress::canonical(offset),
            frame_allocator: BootInfoFrameAllocator::init(memory_regions),
        }
    }

    /// Where the earlier boot stage has mapped the whole of physical memory.
    #[verifier::when_used_as_spec(spec_physical_memory_offset)]
    pub fn physical_memory_offset(&self) -> (result: VirtualAddress)
        ensures
            result == self.spec_physical_memory_offset(),
    {
        self.physical_memory_offset
    }

    /// Hands out the next frame of the stream, for a page table that a
    /// mapping needs, or nothing once the stream is used up.
    pub fn allocate_frame(&mut self) -> (result: Option<Frame>)
        ensures
            final(self).regions() == old(self).regions(),
            final(self).spec_physical_memory_offset() == old(self).spec_physical_memory_offset(),
            match result {
                Some(frame) => {
                    &&& old(self).position() < usable_frames(old(self).regions()).len()
                    &&& frame@ == usable_frames(old(self).regions())[old(self).position() as int]
                    &&& final(self).position() == old(self).position() + 1
                },
                None => {
                    &&& old(self).position() == usable_frames(old(self).regions()).len()
                    &&& final(self).position() == old(self).position()
                },
            },
    {
        self.frame_allocator.allocate_frame()
    }

    /// The first step of mapping `page`: takes the next frame of the stream
    /// and says what the page-table entry has to hold. Fails with
    /// `FrameAllocationFailed`, and changes nothing, exactly when the stream
    /// is used up.
    pub fn prepare_map(&mut self, page: Page, writability: PageWritability) -> (result: Result<
        MapRequest,
        Error,
    >)
        ensures
            final(self).regions() == old(self).regions(),
            final(self).spec_physical_memory_offset() == old(self).spec_physical_memory_offset(),
            match result {
                Ok(request) => {
                    &&& old(self).position() < usable_frames(old(self).regions()).len()
                    &&& request.page == page
                    &&& request.frame@ == usable_frames(old(self).regions())[old(
                        self,
                    ).position() as int]
                    &&& request.flags == entry_flags(writability)
                    &&& final(self).position() == old(self).position() + 1
                },
                Err(e) => {
                    &&& e == Error::FrameAllocationFailed
                    &&& old(self).position() == usable_frames(old(self).regions()).len()
                    &&& final(self).position() == old(self).position()
                },
            },
    {
        let frame: Frame = match self.frame_allocator.allocate_frame() {
            Some(frame) => frame,
            None => {
                return Err(Error::FrameAllocationFailed);
            },
        };
        let flags: u64 = table_entry_flags(writability);
        Ok(MapRequest { page, frame, flags })
    }

    /// The last step of mapping a page: turns what the page tables said
    /// into the result of the mapping.
    pub fn complete_map(outcome: Result<(), MapToError>) -> (result: Result<(), Error>)
        ensures
            match outcome {
                Ok(_) => result is Ok,
                Err(e) => result == Err::<(), Error>(mapping_error(e)),
            },
    {
        match outcome {
            Ok(_) => Ok(()),
            Err(e) => Err(Error::from(e)),
        }
    }
}

} // verus!
