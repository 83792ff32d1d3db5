use crate::arch::prelude::VirtualMemoryManager;
use crate::arch::prelude::KERNEL_PHYSICAL_SPACE_END;
use crate::arch::prelude::KERNEL_PHYSICAL_SPACE_START;
use crate::arch::prelude::PAGE_SIZE;
use crate::memory::address::align_down_spec;
use crate::memory::page::is_frame_start;
use crate::memory::page::is_page_start;
use crate::memory::Error;
use crate::memory::Page;
use crate::memory::PageWritability;
use crate::memory::PhysicalAddress;
use crate::memory::VirtualAddress;
use vstd::prelude::*;

verus! {

/// A change to the mappings that the processor's translation cache has yet
/// to learn of. Until it is flushed, the processor may go on using what it
/// has cached.
#[must_use]
pub trait FlushPromise {
    /// Makes the change visible to the processor.
    fn flush(self);
}

/// What a mapped page resolves to: the start of its frame, and the access
/// that the mapping grants.
pub struct Mapping {
    pub frame: u64,
    pub writability: PageWritability,
}

/// The physical address that `address` translates to under `mappings`, a
/// map from the start of each mapped page to what it resolves to: the
/// frame of the page that holds `address`, at the same distance from its
/// start. None where that page is not mapped.
pub open spec fn translate(mappings: Map<u64, Mapping>, address: u64) -> Option<u64> {
    let page = align_down_spec(address, PAGE_SIZE);
    if mappings.contains_key(page) {
        Some((mappings[page].frame + (address - page)) as u64)
    } else {
        None
    }
}

/// What an attempt to map `page` with `writability` may do. `before` and
/// `after` are the mappings around it, `free` says whether a frame was left
/// before it, and `error` is the error it gave, if any.
///
/// A success maps the page, which was unmapped, to a frame that was to be
/// had, with the access asked for, and changes no other mapping. A failure
/// changes nothing; it is `FrameAllocationFailed` where no frame was left;
/// where it is `PageAlreadyMapped`, it names the frame that the page
/// resolves to; and where a frame was left and the page is mapped, it is
/// `PageAlreadyMapped` or a refusal of the translation tables.
pub open spec fn map_attempt(
    before: Map<u64, Mapping>,
    free: bool,
    page: u64,
    writability: PageWritability,
    error: Option<Error>,
    after: Map<u64, Mapping>,
) -> bool {
    match error {
        None => {
            &&& free
            &&& !before.contains_key(page)
            &&& after.contains_key(page)
            &&& is_frame_start(after[page].frame)
            &&& after[page].writability == writability
            &&& after == before.insert(page, after[page])
        },
        Some(e) => {
            &&& after == before
            &&& !free ==> e == Error::FrameAllocationFailed
            &&& e matches Error::PageAlreadyMapped(frame) ==> (before.contains_key(page)
                && before[page].frame == frame@)
            &&& free && before.contains_key(page) ==> e is PageAlreadyMapped || e is Other
        },
    }
}

/// Mapping then translating round-trips: once a page has been mapped, every
/// address in it translates to the address at the same distance into the
/// frame that the page was given; the page's start translates to the
/// frame's start.
pub proof fn lemma_map_then_translate(
    before: Map<u64, Mapping>,
    free: bool,
    page: u64,
    writability: PageWritability,
    after: Map<u64, Mapping>,
    address: u64,
)
    requires
        is_page_start(page),
        map_attempt(before, free, page, writability, None, after),
        page <= address < page + PAGE_SIZE,
    ensures
        translate(after, page) == Some(after[page].frame),
        translate(after, address) == Some((after[page].frame + (address - page)) as u64),
{
}

/// Mapping the same page twice fails the second time and changes nothing.
/// If the second attempt reports a conflict, it names the frame that the
/// first attempt installed; and it does report a conflict if a frame was
/// still to be had and the translation tables did not refuse.
pub proof fn lemma_map_twice_conflicts(
    before: Map<u64, Mapping>,
    free: bool,
    page: u64,
    writability: PageWritability,
    between: Map<u64, Mapping>,
    free_again: bool,
    writability_again: PageWritability,
    second: Option<Error>,
    after: Map<u64, Mapping>,
)
    requires
        map_attempt(before, free, page, writability, None, between),
        map_attempt(between, free_again, page, writability_again, second, after),
    ensures
        second is Some,
        after == between,
        second matches Some(Error::PageAlreadyMapped(frame)) ==> frame@ == between[page].frame,
        free_again && !(second matches Some(Error::Other(_))) ==> (second matches Some(
            Error::PageAlreadyMapped(frame),
        ) && frame@ == between[page].frame),
{
}

/// What every architecture backend provides: the mapping of pages to
/// frames, and translation both ways. Exactly one backend is compiled in;
/// the trait says what the rest of the kernel may rely on.
///
/// A backend writes the translation tables of a running processor, which
/// is beyond what can be proved here, so no type of this crate implements
/// the trait. What `try_map` and `virtual_to_physical` ensure is what a
/// backend owes; the code that is generic over backends takes it on trust.
pub trait VirtualMemoryManagerProtocol {
    /// What `try_map` returns, to be flushed before the mapping is relied
    /// on.
    type FlushPromise: FlushPromise;

    /// The mappings in force: the start of each page that resolves to a
    /// frame, with what it resolves to. A backend states its own; of one
    /// that states none, nothing is known.
    open spec fn mappings(&self) -> Map<u64, Mapping> {
        arbitrary()
    }

    /// Whether a frame is left to back another mapping. A backend states
    /// its own; of one that states none, nothing is known.
    open spec fn has_free_frame(&self) -> bool {
        arbitrary()
    }

    /// Maps `page` to a frame that has not been handed out before, with the
    /// access that `writability` grants.
    fn try_map(&mut self, page: Page, writability: PageWritability) -> (result: Result<
        Self::FlushPromise,
        Error,
    >)
        ensures
            map_attempt(
                old(self).mappings(),
                old(self).has_free_frame(),
                page@,
                writability,
                match result {
                    Ok(_) => None,
                    Err(e) => Some(e),
                },
                final(self).mappings(),
            ),
    ;

    /// The physical address that `addr` translates to, or none if the page
    /// that holds `addr` is not mapped.
    fn virtual_to_physical(&self, addr: VirtualAddress) -> (result: Option<PhysicalAddress>)
        ensures
            match result {
                Some(physical) => translate(self.mappings(), addr@) == Some(physical@),
                None => translate(self.mappings(), addr@) is None,
            },
    ;

    /// The virtual address at which the physical address `addr` can be read
    /// and written: its place in the mirror of physical memory.
    fn physical_to_virtual(&self, addr: PhysicalAddress) -> (result: VirtualAddress)
        requires
            addr@ < KERNEL_PHYSICAL_SPACE_END - KERNEL_PHYSICAL_SPACE_START,
        ensures
            result@ == KERNEL_PHYSICAL_SPACE_START + addr@,
            KERNEL_PHYSICAL_SPACE_START <= result@ < KERNEL_PHYSICAL_SPACE_END,
    {
        let base: VirtualAddress = VirtualMemoryManager::kernel_physical_space().start;
        VirtualAddress::new(base.value() + addr.value())
    }
}

} // verus!
