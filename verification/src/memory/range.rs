use crate::memory::page::frame_at_index;
use crate::memory::page::frame_index;
use crate::memory::page::is_frame_start;
use crate::memory::page::is_page_start;
use crate::memory::page::lemma_frame_at_index;
use crate::memory::page::lemma_frame_at_index_ascending;
use crate::memory::page::lemma_frame_index_ordered;
use crate::memory::page::lemma_page_at_index;
use crate::memory::page::lemma_page_at_index_ascending;
use crate::memory::page::lemma_page_index_ordered;
use crate::memory::page::lemma_page_index_round_trip;
use crate::memory::page::page_at_index;
use crate::memory::page::page_index;
use crate::memory::page::FRAME_COUNT;
use crate::memory::page::PAGE_COUNT;
use crate::memory::Frame;
use crate::memory::Page;
use vstd::prelude::*;

verus! {

/// The starts of `len` pages in a row, the first at place `first`.
pub open spec fn page_run(first: int, len: nat) -> Seq<u64> {
    Seq::new(len, |i: int| page_at_index(first + i))
}

/// The starts of the pages from `start` up to, but not including, `end`,
/// in ascending order.
pub open spec fn pages_between(start: u64, end: u64) -> Seq<u64> {
    if start < end {
        page_run(page_index(start), (page_index(end) - page_index(start)) as nat)
    } else {
        Seq::empty()
    }
}

/// The starts of the pages from `start` up to and including `end`, in
/// ascending order.
pub open spec fn pages_through(start: u64, end: u64) -> Seq<u64> {
    if start <= end {
        page_run(page_index(start), (page_index(end) - page_index(start) + 1) as nat)
    } else {
        Seq::empty()
    }
}

/// A run of pages walks every page between its bounds exactly once, in
/// ascending order of address: the run ascends strictly, and a page is
/// in it exactly if it lies between the bounds. The run is a function of
/// its bounds, so walking the same bounds again gives the same pages.
pub proof fn lemma_page_run_visits_each_once(start: u64, end: u64)
    requires
        is_page_start(start),
        is_page_start(end),
    ensures
        forall|i: int, j: int|
            0 <= i < j < pages_through(start, end).len() ==> (#[trigger] pages_through(
                start,
                end,
            )[i]) < (#[trigger] pages_through(start, end)[j]),
        forall|p: u64|
            is_page_start(p) ==> (pages_through(start, end).contains(p) <==> start <= p <= end),
        forall|i: int, j: int|
            0 <= i < j < pages_between(start, end).len() ==> (#[trigger] pages_between(
                start,
                end,
            )[i]) < (#[trigger] pages_between(start, end)[j]),
        forall|p: u64|
            is_page_start(p) ==> (pages_between(start, end).contains(p) <==> start <= p < end),
{
    lemma_page_index_ordered(start, end);
    lemma_page_index_round_trip(start);
    lemma_page_index_round_trip(end);
    let first = page_index(start);
    let through = pages_through(start, end);
    let between = pages_between(start, end);
    assert forall|i: int, j: int| 0 <= i < j < through.len() implies (#[trigger] through[i]) < (
    #[trigger] through[j]) by {
        lemma_page_at_index_ascending(first + i, first + j);
    }
    assert forall|i: int, j: int| 0 <= i < j < between.len() implies (#[trigger] between[i]) < (
    #[trigger] between[j]) by {
        lemma_page_at_index_ascending(first + i, first + j);
    }
    assert forall|p: u64| is_page_start(p) implies (through.contains(p) <==> start <= p
        <= end) by {
        lemma_page_index_ordered(start, p);
        lemma_page_index_ordered(p, end);
        lemma_page_index_round_trip(p);
        if start <= p <= end {
            assert(through[page_index(p) - first] == p);
        }
        if through.contains(p) {
            let i = choose|i: int| 0 <= i < through.len() && through[i] == p;
            lemma_page_at_index(first + i);
        }
    }
    assert forall|p: u64| is_page_start(p) implies (between.contains(p) <==> start <= p
        < end) by {
        lemma_page_index_ordered(start, p);
        lemma_page_index_ordered(p, end);
        lemma_page_index_round_trip(p);
        if start <= p < end {
            assert(between[page_index(p) - first] == p);
        }
        if between.contains(p) {
            let i = choose|i: int| 0 <= i < between.len() && between[i] == p;
            lemma_page_at_index(first + i);
        }
    }
}

/// A run of pages that is walked one page at a time. Its view is the
/// pages still to come, by their start addresses.
#[derive(Copy, Clone, Debug)]
pub struct PageRange {
    next: u64,
    end: u64,
}

impl View for PageRange {
    type V = Seq<u64>;

    closed spec fn view(&self) -> Seq<u64> {
        page_run(self.next as int, (self.end - self.next) as nat)
    }
}

impl PageRange {
    #[verifier::type_invariant]
    closed spec fn holds_bounds(&self) -> bool {
        self.next <= self.end <= PAGE_COUNT
    }

    /// How many pages are still to come.
    pub fn len(&self) -> (result: u64)
        ensures
            result == self@.len(),
    {
        proof {
            use_type_invariant(self);
        }
        self.end - self.next
    }

    /// Whether no page is still to come.
    pub fn is_empty(&self) -> (result: bool)
        ensures
            result == (self@.len() == 0),
    {
        proof {
            use_type_invariant(self);
        }
        self.next == self.end
    }

    /// Takes the next page off the run, if one is left.
    pub fn next(&mut self) -> (result: Option<Page>)
        ensures
            match result {
                Some(page) => {
                    &&& old(self)@.len() > 0
                    &&& page@ == old(self)@[0]
                    &&& final(self)@ == old(self)@.drop_first()
                },
                None => old(self)@.len() == 0 && final(self)@ == old(self)@,
            },
    {
        proof {
            use_type_invariant(&*self);
        }
        if self.next < self.end {
            let page: Page = Page::with_number(self.next);
            self.next = self.next + 1;
            proof {
                assert(self@ =~= old(self)@.drop_first());
            }
            Some(page)
        } else {
            None
        }
    }
}

impl Page {
    /// The run of pages from `start` up to, but not including, `end`.
    pub fn range(start: Page, end: Page) -> (result: PageRange)
        ensures
            result@ == pages_between(start@, end@),
    {
        proof {
            use_type_invariant(&start);
            use_type_invariant(&end);
            lemma_page_index_ordered(start@, end@);
        }
        let from: u64 = start.index();
        let to: u64 = end.index();
        if from < to {
            PageRange { next: from, end: to }
        } else {
            let empty = PageRange { next: 0, end: 0 };
            proof {
                assert(empty@ =~= Seq::<u64>::empty());
            }
            empty
        }
    }

    /// The run of pages from `start` up to and including `end`.
    pub fn range_inclusive(start: Page, end: Page) -> (result: PageRange)
        ensures
            result@ == pages_through(start@, end@),
    {
        proof {
            use_type_invariant(&start);
            use_type_invariant(&end);
            lemma_page_index_ordered(start@, end@);
        }
        let from: u64 = start.index();
        let to: u64 = end.index();
        if from <= to {
            PageRange { next: from, end: to + 1 }
        } else {
            let empty = PageRange { next: 0, end: 0 };
            proof {
                assert(empty@ =~= Seq::<u64>::empty());
            }
            empty
        }
    }
}

/// The starts of `len` frames in a row, the first at place `first`.
pub open spec fn frame_run(first: int, len: nat) -> Seq<u64> {
    Seq::new(len, |i: int| frame_at_index(first + i))
}

/// The starts of the frames from `start` up to, but not including, `end`,
/// in ascending order.
pub open spec fn frames_between(start: u64, end: u64) -> Seq<u64> {
    if start < end {
        frame_run(frame_index(start), (frame_index(end) - frame_index(start)) as nat)
    } else {
        Seq::empty()
    }
}

/// The starts of the frames from `start` up to and including `end`, in
/// ascending order.
pub open spec fn frames_through(start: u64, end: u64) -> Seq<u64> {
    if start <= end {
        frame_run(frame_index(start), (frame_index(end) - frame_index(start) + 1) as nat)
    } else {
        Seq::empty()
    }
}

/// A run of frames walks every frame between its bounds exactly once, in
/// ascending order of address: the run ascends strictly, and a frame is
/// in it exactly if it lies between the bounds. The run is a function of
/// its bounds, so walking the same bounds again gives the same frames.
pub proof fn lemma_frame_run_visits_each_once(start: u64, end: u64)
    requires
        is_frame_start(start),
        is_frame_start(end),
    ensures
        forall|i: int, j: int|
            0 <= i < j < frames_through(start, end).len() ==> (#[trigger] frames_through(
                start,
                end,
            )[i]) < (#[trigger] frames_through(start, end)[j]),
        forall|p: u64|
            is_frame_start(p) ==> (frames_through(start, end).contains(p) <==> start <= p <= end),
        forall|i: int, j: int|
            0 <= i < j < frames_between(start, end).len() ==> (#[trigger] frames_between(
                start,
                end,
            )[i]) < (#[trigger] frames_between(start, end)[j]),
        forall|p: u64|
            is_frame_start(p) ==> (frames_between(start, end).contains(p) <==> start <= p < end),
{
    lemma_frame_index_ordered(start, end);
    let first = frame_index(start);
    let through = frames_through(start, end);
    let between = frames_between(start, end);
    assert forall|i: int, j: int| 0 <= i < j < through.len() implies (#[trigger] through[i]) < (
    #[trigger] through[j]) by {
        lemma_frame_at_index_ascending(first + i, first + j);
    }
    assert forall|i: int, j: int| 0 <= i < j < between.len() implies (#[trigger] between[i]) < (
    #[trigger] between[j]) by {
        lemma_frame_at_index_ascending(first + i, first + j);
    }
    assert forall|p: u64| is_frame_start(p) implies (through.contains(p) <==> start <= p
        <= end) by {
        lemma_frame_index_ordered(start, p);
        lemma_frame_index_ordered(p, end);
        if start <= p <= end {
            assert(through[frame_index(p) - first] == p);
        }
        if through.contains(p) {
            let i = choose|i: int| 0 <= i < through.len() && through[i] == p;
            lemma_frame_at_index(first + i);
        }
    }
    assert forall|p: u64| is_frame_start(p) implies (between.contains(p) <==> start <= p
        < end) by {
        lemma_frame_index_ordered(start, p);
        lemma_frame_index_ordered(p, end);
        if start <= p < end {
            assert(between[frame_index(p) - first] == p);
        }
        if between.contains(p) {
            let i = choose|i: int| 0 <= i < between.len() && between[i] == p;
            lemma_frame_at_index(first + i);
        }
    }
}

/// A run of frames that is walked one frame at a time. Its view is the
/// frames still to come, by their start addresses.
#[derive(Copy, Clone, Debug)]
pub struct FrameRange {
    next: u64,
    end: u64,
}

impl View for FrameRange {
    type V = Seq<u64>;

    closed spec fn view(&self) -> Seq<u64> {
        frame_run(self.next as int, (self.end - self.next) as nat)
    }
}

impl FrameRange {
    #[verifier::type_invariant]
    closed spec fn holds_bounds(&self) -> bool {
        self.next <= self.end <= FRAME_COUNT
    }

    /// How many frames are still to come.
    pub fn len(&self) -> (result: u64)
        ensures
            result == self@.len(),
    {
        proof {
            use_type_invariant(self);
        }
        self.end - self.next
    }

    /// Whether no frame is still to come.
    pub fn is_empty(&self) -> (result: bool)
        ensures
            result == (self@.len() == 0),
    {
        proof {
            use_type_invariant(self);
        }
        self.next == self.end
    }

    /// Takes the next frame off the run, if one is left.
    pub fn next(&mut self) -> (result: Option<Frame>)
        ensures
            match result {
                Some(frame) => {
                    &&& old(self)@.len() > 0
                    &&& frame@ == old(self)@[0]
                    &&& final(self)@ == old(self)@.drop_first()
                },
                None => old(self)@.len() == 0 && final(self)@ == old(self)@,
            },
    {
        proof {
            use_type_invariant(&*self);
        }
        if self.next < self.end {
            let frame: Frame = Frame::with_number(self.next);
            self.next = self.next + 1;
            proof {
                assert(self@ =~= old(self)@.drop_first());
            }
            Some(frame)
        } else {
            None
        }
    }
}

impl Frame {
    /// The run of frames from `start` up to, but not including, `end`.
    pub fn range(start: Frame, end: Frame) -> (result: FrameRange)
        ensures
            result@ == frames_between(start@, end@),
    {
        proof {
            use_type_invariant(&start);
            use_type_invariant(&end);
            lemma_frame_index_ordered(start@, end@);
        }
        let from: u64 = start.number();
        let to: u64 = end.number();
        if from < to {
            FrameRange { next: from, end: to }
        } else {
            let empty = FrameRange { next: 0, end: 0 };
            proof {
                assert(empty@ =~= Seq::<u64>::empty());
            }
            empty
        }
    }

    /// The run of frames from `start` up to and including `end`.
    pub fn range_inclusive(start: Frame, end: Frame) -> (result: FrameRange)
        ensures
            result@ == frames_through(start@, end@),
    {
        proof {
            use_type_invariant(&start);
            use_type_invariant(&end);
            lemma_frame_index_ordered(start@, end@);
        }
        let from: u64 = start.number();
        let to: u64 = end.number();
        if from <= to {
            FrameRange { next: from, end: to + 1 }
        } else {
            let empty = FrameRange { next: 0, end: 0 };
            proof {
                assert(empty@ =~= Seq::<u64>::empty());
            }
            empty
        }
    }
}

} // verus!
