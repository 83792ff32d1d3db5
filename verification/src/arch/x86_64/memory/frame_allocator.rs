use crate::arch::x86_64::memory::canonical::PAGE_SIZE;
use crate::memory::address::align_down_spec;
use crate::memory::Frame;
use crate::memory::PhysicalAddress;
use vstd::prelude::*;

verus! {

/// One past the greatest physical address the processor can name: 2^52.
pub const PHYSICAL_ADDRESS_LIMIT: u64 = 0x10_0000_0000_0000;

/// What a region of physical memory is used for, as the firmware reports it.
#[derive(Copy, Clone, Debug, PartialEq, Eq, Structural)]
pub enum MemoryRegionKind {
    /// Free memory that the kernel may claim.
    Usable,
    /// Memory that the boot loader has taken.
    Bootloader,
    /// A kind that the UEFI firmware reported, with its tag.
    UnknownUefi(u32),
    /// A kind that the BIOS reported, with its tag.
    UnknownBios(u32),
}

/// A region of physical memory: the addresses from `start` up to, but not
/// including, `end`.
#[derive(Copy, Clone, Debug, PartialEq, Eq, Structural)]
pub struct MemoryRegion {
    pub start: u64,
    pub end: u64,
    pub kind: MemoryRegionKind,
}

impl MemoryRegion {
    /// How many frames the region yields: one for each address `start`,
    /// `start + PAGE_SIZE`, ... below `end`, if the region is usable.
    pub open spec fn frame_count(self) -> nat {
        if self.kind is Usable && self.start < self.end {
            ((self.end - self.start - 1) / (PAGE_SIZE as int) + 1) as nat
        } else {
            0
        }
    }

    /// The start of the `k`-th frame that the region yields: the frame that
    /// holds `start + k * PAGE_SIZE`.
    pub open spec fn frame(self, k: int) -> u64 {
        align_down_spec((self.start + k * PAGE_SIZE) as u64, PAGE_SIZE)
    }

    /// The starts of the frames that the region yields, in ascending order.
    pub open spec fn frames(self) -> Seq<u64> {
        Seq::new(self.frame_count(), |k: int| self.frame(k))
    }

    /// Whether every frame of the region lies below the limit of physical
    /// addresses.
    pub open spec fn addressable(self) -> bool {
        self.frame_count() > 0 ==> self.end <= PHYSICAL_ADDRESS_LIMIT
    }

    /// How many frames the region yields.
    pub fn usable_frame_count(&self) -> (count: u64)
        ensures
            count == self.frame_count(),
    {
        match self.kind {
            MemoryRegionKind::Usable => {
                if self.start < self.end {
                    (self.end - self.start - 1) / PAGE_SIZE + 1
                } else {
                    0
                }
            },
            _ => 0,
        }
    }
}

/// The frame stream of a memory map: the frames of its usable regions, in
/// the order of the regions and, within a region, of the addresses.
pub open spec fn usable_frames(regions: Seq<MemoryRegion>) -> Seq<u64>
    decreases regions.len(),
{
    if regions.len() == 0 {
        Seq::empty()
    } else {
        usable_frames(regions.drop_last()) + regions.last().frames()
    }
}

/// Whether a memory map can back a frame allocator: every frame it yields
/// has an address the processor can name, and the frames can be counted
/// in a machine word.
pub open spec fn memory_map_valid(regions: Seq<MemoryRegion>) -> bool {
    &&& forall|i: int| 0 <= i < regions.len() ==> (#[trigger] regions[i]).addressable()
    &&& usable_frames(regions).len() <= u64::MAX
}

/// The stream of the first `i + 1` regions is the stream of the first `i`
/// followed by the frames of region `i`.
pub proof fn lemma_usable_frames_step(regions: Seq<MemoryRegion>, i: int)
    requires
        0 <= i < regions.len(),
    ensures
        usable_frames(regions.take(i + 1)) == usable_frames(regions.take(i)) + regions[i].frames(),
{
    assert(regions.take(i + 1).drop_last() =~= regions.take(i));
    assert(regions.take(i + 1).last() == regions[i]);
}

/// The stream of the first `i` regions is the start of the whole stream.
pub proof fn lemma_usable_frames_prefix(regions: Seq<MemoryRegion>, i: int)
    requires
        0 <= i <= regions.len(),
    ensures
        usable_frames(regions.take(i)).len() <= usable_frames(regions).len(),
        usable_frames(regions.take(i)) == usable_frames(regions).subrange(
            0,
            usable_frames(regions.take(i)).len() as int,
        ),
    decreases regions.len() - i,
{
    if i == regions.len() {
        assert(regions.take(i) =~= regions);
        assert(usable_frames(regions) =~= usable_frames(regions).subrange(
            0,
            usable_frames(regions).len() as int,
        ));
    } else {
        lemma_usable_frames_prefix(regions, i + 1);
        lemma_usable_frames_step(regions, i);
        let shorter = usable_frames(regions.take(i));
        let longer = usable_frames(regions.take(i + 1));
        assert(shorter =~= longer.subrange(0, shorter.len() as int));
        assert(shorter =~= usable_frames(regions).subrange(0, shorter.len() as int));
    }
}

/// A frame of region `i` stands in the stream behind the frames of the
/// regions before it.
pub proof fn lemma_usable_frames_index(regions: Seq<MemoryRegion>, i: int, k: int)
    requires
        0 <= i < regions.len(),
        0 <= k < regions[i].frame_count(),
    ensures
        usable_frames(regions.take(i)).len() + k < usable_frames(regions).len(),
        usable_frames(regions)[usable_frames(regions.take(i)).len() + k] == regions[i].frame(k),
{
    lemma_usable_frames_step(regions, i);
    lemma_usable_frames_prefix(regions, i + 1);
    let before = usable_frames(regions.take(i));
    let through = usable_frames(regions.take(i + 1));
    assert(through[before.len() + k] == regions[i].frames()[k]);
    assert(usable_frames(regions).subrange(0, through.len() as int)[before.len() + k]
        == usable_frames(regions)[before.len() + k]);
}

/// Whether the regions that yield frames start at a multiple of the page
/// size and lie one behind the other, none reaching into the next.
pub open spec fn regions_ascending(regions: Seq<MemoryRegion>) -> bool {
    &&& forall|i: int|
        0 <= i < regions.len() && (#[trigger] regions[i]).frame_count() > 0 ==> regions[i].start
            % PAGE_SIZE == 0
    &&& forall|i: int, j: int|
        0 <= i < j < regions.len() && (#[trigger] regions[i]).frame_count() > 0 && (
        #[trigger] regions[j]).frame_count() > 0 ==> regions[i].end <= regions[j].start
}

/// In a region that starts at a multiple of the page size, the `k`-th
/// frame starts `k` page sizes behind the region's start, below its end.
pub proof fn lemma_region_frame_aligned(region: MemoryRegion, k: int)
    requires
        region.start % PAGE_SIZE == 0,
        0 <= k < region.frame_count(),
    ensures
        region.frame(k) == region.start + k * PAGE_SIZE,
        region.frame(k) < region.end,
{
    assert(region.start + k * PAGE_SIZE < region.end && (region.start + k * PAGE_SIZE) % 4096 == 0)
        by (nonlinear_arith)
        requires
            0 <= k < (region.end - region.start - 1) / (PAGE_SIZE as int) + 1,
            region.start < region.end,
            region.start % PAGE_SIZE == 0,
            PAGE_SIZE == 4096,
    ;
}

/// Every frame of the stream lies below `limit`, if every region that
/// yields frames starts at a multiple of the page size and ends at or
/// below `limit`.
pub proof fn lemma_usable_frames_below(regions: Seq<MemoryRegion>, limit: int)
    requires
        forall|i: int|
            0 <= i < regions.len() && (#[trigger] regions[i]).frame_count() > 0 ==> regions[i].start
                % PAGE_SIZE == 0 && regions[i].end <= limit,
    ensures
        forall|n: int|
            0 <= n < usable_frames(regions).len() ==> (#[trigger] usable_frames(regions)[n])
                < limit,
    decreases regions.len(),
{
    if regions.len() > 0 {
        let before = regions.drop_last();
        let last = regions.last();
        assert forall|i: int| 0 <= i < before.len() && (#[trigger] before[i]).frame_count()
            > 0 implies before[i].start % PAGE_SIZE == 0 && before[i].end <= limit by {
            assert(before[i] == regions[i]);
        }
        lemma_usable_frames_below(before, limit);
        assert forall|n: int| 0 <= n < usable_frames(regions).len() implies (
        #[trigger] usable_frames(regions)[n]) < limit by {
            let earlier = usable_frames(before).len();
            if n >= earlier {
                assert(last == regions[regions.len() - 1]);
                lemma_region_frame_aligned(last, n - earlier);
                assert(usable_frames(regions)[n] == last.frames()[n - earlier]);
            } else {
                assert(usable_frames(regions)[n] == usable_frames(before)[n]);
            }
        }
    }
}

/// Over a memory map whose usable regions lie one behind the other, the
/// frame stream ascends strictly: frames come out in ascending order of
/// address, and none comes out twice.
pub proof fn lemma_usable_frames_ascending(regions: Seq<MemoryRegion>)
    requires
        regions_ascending(regions),
    ensures
        forall|a: int, b: int|
            0 <= a < b < usable_frames(regions).len() ==> (#[trigger] usable_frames(regions)[a]) < (
            #[trigger] usable_frames(regions)[b]),
    decreases regions.len(),
{
    if regions.len() > 0 {
        let before = regions.drop_last();
        let last = regions.last();
        assert(last == regions[regions.len() - 1]);
        assert(regions_ascending(before)) by {
            assert forall|i: int| 0 <= i < before.len() implies #[trigger] before[i]
                == regions[i] by {}
        }
        lemma_usable_frames_ascending(before);
        let earlier = usable_frames(before).len();
        if last.frame_count() > 0 {
            assert forall|i: int| 0 <= i < before.len() && (#[trigger] before[i]).frame_count()
                > 0 implies before[i].start % PAGE_SIZE == 0 && before[i].end <= last.start by {
                assert(before[i] == regions[i]);
            }
            lemma_usable_frames_below(before, last.start as int);
        }
        assert forall|a: int, b: int| 0 <= a < b < usable_frames(regions).len() implies (
        #[trigger] usable_frames(regions)[a]) < (#[trigger] usable_frames(regions)[b]) by {
            if b < earlier {
                assert(usable_frames(regions)[a] == usable_frames(before)[a]);
                assert(usable_frames(regions)[b] == usable_frames(before)[b]);
            } else {
                lemma_region_frame_aligned(last, b - earlier);
                assert(usable_frames(regions)[b] == last.frames()[b - earlier]);
                if a < earlier {
                    assert(usable_frames(regions)[a] == usable_frames(before)[a]);
                } else {
                    lemma_region_frame_aligned(last, a - earlier);
                    assert(usable_frames(regions)[a] == last.frames()[a - earlier]);
                    assert((a - earlier) * PAGE_SIZE < (b - earlier) * PAGE_SIZE)
                        by (nonlinear_arith)
                        requires
                            a < b,
                            PAGE_SIZE == 4096,
                    ;
                }
            }
        }
    }
}

/// Whether `memory_map` can back a frame allocator.
pub fn memory_map_is_valid(memory_map: &[MemoryRegion]) -> (result: bool)
    ensures
        result == memory_map_valid(memory_map@),
{
    let mut total: u64 = 0;
    let mut i: usize = 0;
    while i < memory_map.len()
        invariant
            0 <= i <= memory_map.len(),
            total == usable_frames(memory_map@.take(i as int)).len(),
            forall|j: int| 0 <= j < i ==> (#[trigger] memory_map@[j]).addressable(),
        decreases memory_map.len() - i,
    {
        let region: MemoryRegion = memory_map[i];
        let count: u64 = region.usable_frame_count();
        proof {
            lemma_usable_frames_step(memory_map@, i as int);
            lemma_usable_frames_prefix(memory_map@, i as int + 1);
        }
        if count > 0 && region.end > PHYSICAL_ADDRESS_LIMIT {
            return false;
        }
        if count > u64::MAX - total {
            return false;
        }
        total = total + count;
        i = i + 1;
    }
    proof {
        assert(memory_map@.take(i as int) =~= memory_map@);
    }
    true
}

/// Calls `PhysAddr::new` and `PhysFrame::containing_address` of the x86_64
/// crate, for 4 KiB frames, and returns the start address of the frame they
/// give. `PhysAddr::new` panics on an address with a bit from 52 up set; the
/// frame's start is the address with its low twelve bits cleared.
#[verifier::external_body]
fn containing_frame_start(address: u64) -> (start: u64)
    requires
        address < PHYSICAL_ADDRESS_LIMIT,
    ensures
        start == align_down_spec(address, PAGE_SIZE),
{
    x86_64::structures::paging::PhysFrame::<
        x86_64::structures::paging::Size4KiB,
    >::containing_address(x86_64::PhysAddr::new(address)).start_address().as_u64()
}

/// Hands out the usable frames of the firmware's memory map, each once, in
/// the order of the frame stream. Frames are never taken back.
pub struct BootInfoFrameAllocator<'a> {
    memory_map: &'a [MemoryRegion],
    next: u64,
}

impl<'a> BootInfoFrameAllocator<'a> {
    /// The memory map that the allocator draws from.
    pub closed spec fn regions(&self) -> Seq<MemoryRegion> {
        self.memory_map@
    }

    /// How many frames the allocator has handed out.
    pub closed spec fn position(&self) -> nat {
        self.next as nat
    }

    /// The invariant of every allocator: its memory map is valid and it has
    /// handed out no more frames than the stream holds.
    #[verifier::type_invariant]
    pub open spec fn holds_valid_map(&self) -> bool {
        &&& memory_map_valid(self.regions())
        &&& self.position() <= usable_frames(self.regions()).len()
    }

    /// An allocator over `memory_map` that has handed out nothing yet. The
    /// caller vouches for the map: the frames it calls usable are unused.
    pub fn init(memory_map: &'a [MemoryRegion]) -> (result: Self)
        requires
            memory_map_valid(memory_map@),
        ensures
            result.regions() == memory_map@,
            result.position() == 0,
    {
        BootInfoFrameAllocator { memory_map, next: 0 }
    }

    /// The frame at place `n` of the frame stream, if the stream is that
    /// long.
    pub fn nth_usable_frame(&self, n: u64) -> (result: Option<Frame>)
        ensures
            match result {
                Some(frame) => n < usable_frames(self.regions()).len() && frame@ == usable_frames(
                    self.regions(),
                )[n as int],
                None => n >= usable_frames(self.regions()).len(),
            },
    {
        proof {
            use_type_invariant(self);
        }
        let mut remaining: u64 = n;
        let mut i: usize = 0;
        while i < self.memory_map.len()
            invariant
                0 <= i <= self.memory_map.len(),
                memory_map_valid(self.memory_map@),
                usable_frames(self.memory_map@.take(i as int)).len() + remaining == n,
            decreases self.memory_map.len() - i,
        {
            let region: MemoryRegion = self.memory_map[i];
            let count: u64 = region.usable_frame_count();
            proof {
                lemma_usable_frames_step(self.memory_map@, i as int);
            }
            if remaining < count {
                proof {
                    lemma_usable_frames_index(self.memory_map@, i as int, remaining as int);
                    assert(region.addressable());
                    assert(region.start + remaining * PAGE_SIZE < region.end) by (nonlinear_arith)
                        requires
                            remaining < count,
                            count == (region.end - region.start - 1) / (PAGE_SIZE as int) + 1,
                            region.start < region.end,
                            PAGE_SIZE == 4096,
                    ;
                }
                let address: u64 = region.start + remaining * PAGE_SIZE;
                let start: u64 = containing_frame_start(address);
                return Some(Frame::starting_at(PhysicalAddress::new(start)));
            }
            remaining = remaining - count;
            i = i + 1;
        }
        proof {
            assert(self.memory_map@.take(i as int) =~= self.memory_map@);
        }
        None
    }

    /// Hands out the next frame of the stream, or nothing once the stream
    /// is used up.
    pub fn allocate_frame(&mut self) -> (result: Option<Frame>)
        ensures
            final(self).regions() == old(self).regions(),
            match result {
                Some(frame) => {
                    &&& old(self).position() < usable_frames(old(self).regions()).len()
                    &&& frame@ == usable_frames(old(self).regions())[old(self).position() as int]
                    &&& final(self).position() == old(self).position() + 1
                },
                None => {
                    &&& old(self).position() == usable_frames(old(self).regions()).len()
                    &&& final(self).position() == old(self).position()
                },
            },
    {
        proof {
            use_type_invariant(&*self);
        }
        let frame: Option<Frame> = self.nth_usable_frame(self.next);
        if frame.is_some() {
            self.next = self.next + 1;
        }
        frame
    }
}

} // verus!
