use crate::arch::prelude::KERNEL_HEAP_SPACE_START;
use crate::memory::allocator::heap_mapping_stopped;
use crate::memory::allocator::heap_pages_mapped;
use crate::memory::allocator::initial_heap_pages;
use crate::memory::allocator::initialize;
use crate::memory::allocator::lemma_initial_heap_pages;
use crate::memory::allocator::HeapWindow;
use crate::memory::allocator::INITIAL_HEAP_PAGES;
use crate::memory::allocator::INITIAL_HEAP_SIZE;
use crate::memory::vmm::Mapping;
use crate::memory::Error;
use crate::memory::VirtualMemoryManagerProtocol;
use vstd::prelude::*;

verus! {

/// Owns the kernel's memory manager. Whoever holds a `KernelMemory` knows
/// that the pages of the kernel heap are mapped.
pub struct KernelMemory<M: VirtualMemoryManagerProtocol> {
    vmm: M,
    heap: HeapWindow,
}

impl<M: VirtualMemoryManagerProtocol> KernelMemory<M> {
    /// The memory manager that is owned.
    pub closed spec fn spec_vmm(&self) -> &M {
        &self.vmm
    }

    /// The window that the heap's pages make up.
    pub closed spec fn spec_heap_window(&self) -> HeapWindow {
        self.heap
    }

    /// The invariant of every owner: the heap window is the start of the
    /// kernel heap space, and every page of it is mapped.
    #[verifier::type_invariant]
    pub open spec fn holds_heap(&self) -> bool {
        &&& self.spec_heap_window().base@ == KERNEL_HEAP_SPACE_START
        &&& self.spec_heap_window().size == INITIAL_HEAP_SIZE
        &&& forall|k: int|
            0 <= k < INITIAL_HEAP_PAGES ==> self.spec_vmm().mappings().contains_key(
                #[trigger] initial_heap_pages()[k],
            )
    }

    /// Takes over `vmm` and maps the pages of the kernel heap with it. Where
    /// a page cannot be mapped there is no owner, only that page's error.
    pub fn new(vmm: M) -> (result: Result<Self, Error>)
        ensures
            match result {
                Ok(memory) => heap_pages_mapped(
                    vmm.mappings(),
                    memory.spec_vmm().mappings(),
                    INITIAL_HEAP_PAGES as int,
                ),
                Err(e) => exists|after: Map<u64, Mapping>, count: int, free: bool|
                    heap_mapping_stopped(vmm.mappings(), after, count, free, e),
            },
    {
        let mut vmm = vmm;
        let ghost before = vmm.mappings();
        match initialize(&mut vmm) {
            Ok(heap) => {
                proof {
                    lemma_initial_heap_pages();
                    assert forall|k: int| 0 <= k < INITIAL_HEAP_PAGES implies vmm.mappings().contains_key(
                    #[trigger] initial_heap_pages()[k]) by {
                        assert(initial_heap_pages().take(INITIAL_HEAP_PAGES as int)[k]
                            == initial_heap_pages()[k]);
                    }
                }
                Ok(KernelMemory { vmm, heap })
            },
            Err(e) => {
                proof {
                    let after = vmm.mappings();
                    let (count, free) = choose|count: int, free: bool|
                        heap_mapping_stopped(before, after, count, free, e);
                    assert(heap_mapping_stopped(before, after, count, free, e));
                }
                Err(e)
            },
        }
    }

    /// The memory manager, to translate addresses with. It cannot be used
    /// to map anything.
    pub fn vmm(&self) -> (result: &M)
        ensures
            result == self.spec_vmm(),
            forall|k: int|
                0 <= k < INITIAL_HEAP_PAGES ==> result.mappings().contains_key(
                    #[trigger] initial_heap_pages()[k],
                ),
    {
        proof {
            use_type_invariant(self);
        }
        &self.vmm
    }

    /// The window that the heap's pages make up: what the allocator is to
    /// be started on.
    pub fn heap_window(&self) -> (result: HeapWindow)
        ensures
            result == self.spec_heap_window(),
            result.base@ == KERNEL_HEAP_SPACE_START,
            result.size == INITIAL_HEAP_SIZE,
    {
        proof {
            use_type_invariant(self);
        }
        self.heap
    }
}

} // verus!
