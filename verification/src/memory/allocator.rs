use crate::arch::prelude::VirtualMemoryManager;
use crate::arch::prelude::KERNEL_HEAP_SPACE_END;
use crate::arch::prelude::KERNEL_HEAP_SPACE_START;
use crate::arch::prelude::PAGE_SIZE;
use crate::memory::address::align_down_spec;
use crate::memory::page::is_frame_start;
use crate::memory::page::lemma_page_at_index_value;
use crate::memory::page::lemma_page_size_power_of_two;
use crate::memory::page::page_at_index;
use crate::memory::page::page_index;
use crate::memory::range::pages_through;
use crate::memory::vmm::map_attempt;
use crate::memory::vmm::Mapping;
use crate::memory::Error;
use crate::memory::FlushPromise;
use crate::memory::Page;
use crate::memory::PageRange;
use crate::memory::PageWritability;
use crate::memory::VirtualAddress;
use crate::memory::VirtualMemoryManagerProtocol;
use vstd::prelude::*;

verus! {

/// How many bytes the kernel heap has when the kernel starts: 100 KiB.
pub const INITIAL_HEAP_SIZE: u64 = 100 * 1024;

/// How many pages the kernel heap has when the kernel starts.
pub const INITIAL_HEAP_PAGES: u64 = 25;

/// A stretch of mapped virtual memory for an allocator to manage: `size`
/// bytes from `base` on.
#[derive(Copy, Clone, Debug, PartialEq, Eq, Structural)]
pub struct HeapWindow {
    pub base: VirtualAddress,
    pub size: u64,
}

/// The starts of the pages that back the heap when the kernel starts: the
/// pages that hold the first `INITIAL_HEAP_SIZE` bytes of the kernel heap
/// window, in ascending order.
pub open spec fn initial_heap_pages() -> Seq<u64> {
    pages_through(
        KERNEL_HEAP_SPACE_START,
        align_down_spec((KERNEL_HEAP_SPACE_START + INITIAL_HEAP_SIZE - 1) as u64, PAGE_SIZE),
    )
}

/// The pages that back the heap at first are the first
/// `INITIAL_HEAP_PAGES` pages of the kernel heap window. They hold exactly
/// the first `INITIAL_HEAP_SIZE` bytes of that window, and lie within it.
pub proof fn lemma_initial_heap_pages()
    ensures
        initial_heap_pages().len() == INITIAL_HEAP_PAGES,
        forall|k: int|
            0 <= k < INITIAL_HEAP_PAGES ==> #[trigger] initial_heap_pages()[k]
                == KERNEL_HEAP_SPACE_START + k * PAGE_SIZE,
        INITIAL_HEAP_PAGES * PAGE_SIZE == INITIAL_HEAP_SIZE,
        KERNEL_HEAP_SPACE_START + INITIAL_HEAP_SIZE <= KERNEL_HEAP_SPACE_END,
{
    let first: int = page_index(KERNEL_HEAP_SPACE_START);
    assert(first == 0x9_0000_0000);
    assert(align_down_spec((KERNEL_HEAP_SPACE_START + INITIAL_HEAP_SIZE - 1) as u64, PAGE_SIZE)
        == 0xFFFF_9000_0001_8000);
    assert(page_index(0xFFFF_9000_0001_8000) == first + 24);
    assert forall|k: int| 0 <= k < INITIAL_HEAP_PAGES implies #[trigger] initial_heap_pages()[k]
        == KERNEL_HEAP_SPACE_START + k * PAGE_SIZE by {
        lemma_page_at_index_value(first + k);
        assert(initial_heap_pages()[k] == page_at_index(first + k));
    }
}

/// Whether `after` is `before` with the first `count` pages of the heap
/// mapped as well: those pages were unmapped, each has got a frame and can
/// be read and written, and no other mapping has changed.
pub open spec fn heap_pages_mapped(
    before: Map<u64, Mapping>,
    after: Map<u64, Mapping>,
    count: int,
) -> bool {
    &&& forall|p: u64| #[trigger]
        after.contains_key(p) <==> before.contains_key(p) || initial_heap_pages().take(
            count,
        ).contains(p)
    &&& forall|p: u64| #[trigger] before.contains_key(p) ==> after[p] == before[p]
    &&& forall|k: int|
        0 <= k < count ==> {
            &&& !before.contains_key(#[trigger] initial_heap_pages()[k])
            &&& is_frame_start(after[initial_heap_pages()[k]].frame)
            &&& after[initial_heap_pages()[k]].writability == PageWritability::ReadWrite
        }
}

/// Whether mapping the heap's pages has stopped at the page at place
/// `count` with the error `e`: `after` is `before` with the pages before
/// that one mapped, and the attempt on that one, made where `free` says
/// whether a frame was left, has failed with `e`.
pub open spec fn heap_mapping_stopped(
    before: Map<u64, Mapping>,
    after: Map<u64, Mapping>,
    count: int,
    free: bool,
    e: Error,
) -> bool {
    &&& 0 <= count < INITIAL_HEAP_PAGES
    &&& heap_pages_mapped(before, after, count)
    &&& map_attempt(
        after,
        free,
        initial_heap_pages()[count],
        PageWritability::ReadWrite,
        Some(e),
        after,
    )
}

/// Maps the pages that back the heap at first, each readable and writable,
/// each flushed as soon as it is mapped, and returns the window that they
/// make up, for the allocator to be started on.
///
/// It succeeds exactly if every page could be mapped. At the first page that
/// could not, it stops and returns that page's error; the pages before it
/// stay mapped.
pub fn initialize<M: VirtualMemoryManagerProtocol>(vmm: &mut M) -> (result: Result<
    HeapWindow,
    Error,
>)
    ensures
        match result {
            Ok(window) => {
                &&& window.base@ == KERNEL_HEAP_SPACE_START
                &&& window.size == INITIAL_HEAP_SIZE
                &&& heap_pages_mapped(
                    old(vmm).mappings(),
                    final(vmm).mappings(),
                    INITIAL_HEAP_PAGES as int,
                )
            },
            Err(e) => exists|count: int, free: bool|
                heap_mapping_stopped(
                    old(vmm).mappings(),
                    final(vmm).mappings(),
                    count,
                    free,
                    e,
                ),
        },
{
    proof {
        lemma_page_size_power_of_two();
        lemma_initial_heap_pages();
    }
    let base: VirtualAddress = VirtualMemoryManager::kernel_heap_space().start;
    let start_page: Page = Page::containing(base);
    let end_page: Page = Page::containing(base + (INITIAL_HEAP_SIZE - 1));
    let mut pages: PageRange = Page::range_inclusive(start_page, end_page);
    let ghost before = vmm.mappings();
    let ghost mut done: int = 0;
    proof {
        assert(initial_heap_pages().take(0) =~= Seq::<u64>::empty());
        assert(pages@ =~= initial_heap_pages().skip(0));
    }
    loop
        invariant
            0 <= done <= INITIAL_HEAP_PAGES,
            before == old(vmm).mappings(),
            initial_heap_pages().len() == INITIAL_HEAP_PAGES,
            pages@ == initial_heap_pages().skip(done),
            heap_pages_mapped(before, vmm.mappings(), done),
        ensures
            done == INITIAL_HEAP_PAGES,
        decreases pages@.len(),
    {
        let page: Page = match pages.next() {
            Some(page) => page,
            None => {
                break ;
            },
        };
        let ghost so_far = vmm.mappings();
        let ghost free = vmm.has_free_frame();
        match vmm.try_map(page, PageWritability::ReadWrite) {
            Ok(promise) => {
                promise.flush();
            },
            Err(e) => {
                proof {
                    assert(page@ == initial_heap_pages()[done]);
                    assert(heap_mapping_stopped(before, vmm.mappings(), done, free, e));
                }
                return Err(e);
            },
        }
        proof {
            let after = vmm.mappings();
            assert(page@ == initial_heap_pages()[done]);
            assert(initial_heap_pages().take(done + 1) =~= initial_heap_pages().take(done).push(
                page@,
            ));
            assert(initial_heap_pages().skip(done).drop_first() =~= initial_heap_pages().skip(
                done + 1,
            ));
            let shorter = initial_heap_pages().take(done);
            let longer = initial_heap_pages().take(done + 1);
            assert forall|p: u64| #[trigger]
                after.contains_key(p) <==> before.contains_key(p) || longer.contains(p) by {
                if longer.contains(p) {
                    let i = choose|i: int| 0 <= i < longer.len() && longer[i] == p;
                    if i < done {
                        assert(shorter[i] == p);
                    }
                }
                if shorter.contains(p) {
                    let i = choose|i: int| 0 <= i < shorter.len() && shorter[i] == p;
                    assert(longer[i] == p);
                }
                if p == page@ {
                    assert(longer[done] == p);
                }
            }
            assert forall|k: int| 0 <= k < done + 1 implies {
                &&& !before.contains_key(#[trigger] initial_heap_pages()[k])
                &&& is_frame_start(after[initial_heap_pages()[k]].frame)
                &&& after[initial_heap_pages()[k]].writability == PageWritability::ReadWrite
            } by {
                if k < done {
                    assert(initial_heap_pages().take(done)[k] == initial_heap_pages()[k]);
                    assert(so_far.contains_key(initial_heap_pages()[k]));
                }
            }
            done = done + 1;
        }
    }
    Ok(HeapWindow { base, size: INITIAL_HEAP_SIZE })
}

} // verus!
