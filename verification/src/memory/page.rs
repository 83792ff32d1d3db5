use crate::arch::prelude::canonical_form;
use crate::arch::prelude::is_canonical;
use crate::arch::prelude::PAGE_SIZE;
use crate::memory::address::align_down_spec;
use crate::memory::address::is_power_of_two;
use crate::memory::address::physical_address_text;
use crate::memory::address::virtual_address_text;
use crate::memory::text::decimal;
use crate::memory::text::decimal_string;
use crate::memory::NotAlignedError;
use crate::memory::PhysicalAddress;
use crate::memory::VirtualAddress;
use core::cmp::Ordering;
use vstd::arithmetic::power2::*;
use vstd::prelude::*;
use vstd::std_specs::cmp::PartialOrdSpecImpl;

verus! {

/// The access that a mapping grants.
#[derive(Copy, Clone, Debug, PartialEq, Eq, Structural)]
pub enum PageWritability {
    ReadOnly,
    ReadWrite,
}

/// The page size is a power of two, so addresses can be aligned to it.
pub proof fn lemma_page_size_power_of_two()
    ensures
        is_power_of_two(PAGE_SIZE),
        PAGE_SIZE == 4096,
{
    lemma2_to64();
    assert(PAGE_SIZE == pow2(12));
}

/// Whether `address` can start a page: it is canonical and a multiple of
/// the page size.
pub open spec fn is_page_start(address: u64) -> bool {
    is_canonical(address) && address % PAGE_SIZE == 0
}

/// Whether `address` can start a frame: it is a multiple of the page size.
pub open spec fn is_frame_start(address: u64) -> bool {
    address % PAGE_SIZE == 0
}

/// Bringing a multiple of the page size to canonical form leaves it a
/// multiple of the page size.
pub proof fn lemma_canonical_form_keeps_alignment(address: u64)
    requires
        address % PAGE_SIZE == 0,
    ensures
        is_page_start(canonical_form(address)),
{
    assert(address % 4096 == 0 ==> (address % 0x1_0000_0000_0000) % 4096 == 0) by (bit_vector);
}

/// How many pages canonical virtual memory holds: 2^36.
pub const PAGE_COUNT: u64 = 0x10_0000_0000;

/// How many frames a 64-bit physical address can tell apart: 2^52.
pub const FRAME_COUNT: u64 = 0x10_0000_0000_0000;

/// The place of the page that starts at `address` among all pages, counted
/// from the page at address zero in ascending order of address.
pub open spec fn page_index(address: u64) -> int {
    ((address % 0x1_0000_0000_0000) / PAGE_SIZE) as int
}

/// The start of the page at place `index` among all pages.
pub open spec fn page_at_index(index: int) -> u64 {
    canonical_form((index * PAGE_SIZE) as u64)
}

/// The place of the frame that starts at `address` among all frames.
pub open spec fn frame_index(address: u64) -> int {
    (address / PAGE_SIZE) as int
}

/// The start of the frame at place `index` among all frames.
pub open spec fn frame_at_index(index: int) -> u64 {
    (index * PAGE_SIZE) as u64
}

/// A page's place leads back to the page.
pub proof fn lemma_page_index_round_trip(address: u64)
    requires
        is_page_start(address),
    ensures
        0 <= page_index(address) < PAGE_COUNT,
        page_at_index(page_index(address)) == address,
{
    let low: u64 = address % 0x1_0000_0000_0000;
    assert(address % 4096 == 0 ==> (low / 4096) * 4096 == low && low / 4096 < 0x10_0000_0000)
        by (bit_vector)
        requires
            low == address % 0x1_0000_0000_0000,
    ;
    assert(address < 0x8000_0000_0000 ==> low == address) by (bit_vector)
        requires
            low == address % 0x1_0000_0000_0000,
    ;
    assert(address >= 0xFFFF_8000_0000_0000 ==> low == address - 0xFFFF_0000_0000_0000 && low
        >= 0x8000_0000_0000) by (bit_vector)
        requires
            low == address % 0x1_0000_0000_0000,
    ;
    assert(low % 0x1_0000_0000_0000 == low);
}

/// The start of the page at place `index`, written out: the lower half of
/// the places lies in the lower half of the addresses, the upper half in
/// the upper half.
pub proof fn lemma_page_at_index_value(index: int)
    requires
        0 <= index < PAGE_COUNT,
    ensures
        index < 0x8_0000_0000 ==> page_at_index(index) == index * PAGE_SIZE,
        index >= 0x8_0000_0000 ==> page_at_index(index) == index * PAGE_SIZE
            + 0xFFFF_0000_0000_0000,
{
    let x: u64 = (index * PAGE_SIZE) as u64;
    assert(x == index * 4096 && x < 0x1_0000_0000_0000) by (nonlinear_arith)
        requires
            0 <= index < 0x10_0000_0000,
            x == (index * 4096) as u64,
    ;
    assert(x % 0x1_0000_0000_0000 == x);
}

/// Every place below the page count is the place of one page.
pub proof fn lemma_page_at_index(index: int)
    requires
        0 <= index < PAGE_COUNT,
    ensures
        is_page_start(page_at_index(index)),
        page_index(page_at_index(index)) == index,
{
    lemma_page_at_index_value(index);
    let x: u64 = (index * PAGE_SIZE) as u64;
    let p: u64 = page_at_index(index);
    assert(x % 4096 == 0 && x / 4096 == index) by (nonlinear_arith)
        requires
            0 <= index < 0x10_0000_0000,
            x == index * 4096,
    ;
    assert(x < 0x1_0000_0000_0000 && (p == x || p == x + 0xFFFF_0000_0000_0000) ==> p
        % 0x1_0000_0000_0000 == x && (x % 4096 == 0 ==> p % 4096 == 0)) by (bit_vector);
}

/// Pages at later places start at greater addresses.
pub proof fn lemma_page_at_index_ascending(i: int, j: int)
    requires
        0 <= i < j < PAGE_COUNT,
    ensures
        page_at_index(i) < page_at_index(j),
{
    lemma_page_at_index_value(i);
    lemma_page_at_index_value(j);
    assert(i * 4096 < j * 4096 && 0 <= i * 4096 && j * 4096 < 0x1_0000_0000_0000)
        by (nonlinear_arith)
        requires
            0 <= i < j < 0x10_0000_0000,
    ;
}

/// Pages are ordered by address as their places are ordered.
pub proof fn lemma_page_index_ordered(a: u64, b: u64)
    requires
        is_page_start(a),
        is_page_start(b),
    ensures
        a < b <==> page_index(a) < page_index(b),
        a == b <==> page_index(a) == page_index(b),
{
    lemma_page_index_round_trip(a);
    lemma_page_index_round_trip(b);
    if page_index(a) < page_index(b) {
        lemma_page_at_index_ascending(page_index(a), page_index(b));
    }
    if page_index(b) < page_index(a) {
        lemma_page_at_index_ascending(page_index(b), page_index(a));
    }
}

/// Every place below the frame count is the place of one frame.
pub proof fn lemma_frame_at_index(index: int)
    requires
        0 <= index < FRAME_COUNT,
    ensures
        is_frame_start(frame_at_index(index)),
        frame_index(frame_at_index(index)) == index,
{
}

/// Frames at later places start at greater addresses.
pub proof fn lemma_frame_at_index_ascending(i: int, j: int)
    requires
        0 <= i < j < FRAME_COUNT,
    ensures
        frame_at_index(i) < frame_at_index(j),
{
}

/// Frames are ordered by address as their places are ordered, and a
/// frame's place leads back to the frame.
pub proof fn lemma_frame_index_ordered(a: u64, b: u64)
    requires
        is_frame_start(a),
        is_frame_start(b),
    ensures
        a < b <==> frame_index(a) < frame_index(b),
        a == b <==> frame_index(a) == frame_index(b),
        0 <= frame_index(a) < FRAME_COUNT,
        frame_at_index(frame_index(a)) == a,
{
}

/// How the page that starts at `start` is written in the log: its number,
/// then its start address.
pub open spec fn page_text(start: u64) -> Seq<char> {
    "Page("@ + decimal((start / PAGE_SIZE) as nat) + " @ "@ + virtual_address_text(start) + ")"@
}

/// How the frame that starts at `start` is written in the log: its number,
/// then its start address.
pub open spec fn frame_text(start: u64) -> Seq<char> {
    "Frame("@ + decimal((start / PAGE_SIZE) as nat) + " @ "@ + physical_address_text(start) + ")"@
}

/// One page of virtual memory. Its view is the address at which it starts.
#[derive(Copy, Clone, Debug, Eq, PartialEq, Ord, Structural)]
pub struct Page {
    start: VirtualAddress,
}

impl PartialOrd for Page {
    /// Pages are ordered by the addresses at which they start.
    fn partial_cmp(&self, other: &Self) -> (result: Option<Ordering>) {
        if self.start.value() < other.start.value() {
            Some(Ordering::Less)
        } else if self.start.value() == other.start.value() {
            Some(Ordering::Equal)
        } else {
            Some(Ordering::Greater)
        }
    }
}

impl PartialOrdSpecImpl for Page {
    open spec fn obeys_partial_cmp_spec() -> bool {
        true
    }

    open spec fn partial_cmp_spec(&self, other: &Self) -> Option<Ordering> {
        if self@ < other@ {
            Some(Ordering::Less)
        } else if self@ == other@ {
            Some(Ordering::Equal)
        } else {
            Some(Ordering::Greater)
        }
    }
}

impl View for Page {
    type V = u64;

    closed spec fn view(&self) -> u64 {
        self.start@
    }
}

impl Page {
    /// The invariant of every page: it starts at a canonical multiple of
    /// the page size.
    #[verifier::type_invariant]
    pub open spec fn holds_page_start(self) -> bool {
        is_page_start(self@)
    }

    /// The address at which the page starts.
    pub closed spec fn spec_start_address(&self) -> VirtualAddress {
        self.start
    }

    /// The page's ordinal: its start address divided by the page size.
    pub open spec fn spec_number(&self) -> u64 {
        (self@ / PAGE_SIZE) as u64
    }

    /// A page's view is the value of its start address.
    pub broadcast proof fn lemma_start_address_view(self)
        ensures
            #[trigger] self.spec_start_address()@ == self@,
    {
    }

    /// Two pages that start at the same address are the same page.
    pub proof fn lemma_view_injective(a: Self, b: Self)
        requires
            a@ == b@,
        ensures
            a == b,
    {
        VirtualAddress::lemma_view_injective(a.start, b.start);
    }

    /// The page that starts at `start`, if `start` is a multiple of the
    /// page size.
    pub fn new(start: VirtualAddress) -> (result: Result<Page, NotAlignedError>)
        ensures
            match result {
                Ok(page) => start@ % PAGE_SIZE == 0 && page.start_address() == start && page@
                    == start@,
                Err(_) => start@ % PAGE_SIZE != 0,
            },
    {
        if !start.is_aligned(PAGE_SIZE) {
            return Err(NotAlignedError);
        }
        proof {
            use_type_invariant(&start);
        }
        Ok(Page { start })
    }

    /// The page whose start is `number` page sizes from address zero,
    /// brought to canonical form.
    pub fn with_number(number: u64) -> (result: Page)
        requires
            number * PAGE_SIZE <= u64::MAX,
        ensures
            result@ == canonical_form((number * PAGE_SIZE) as u64),
            is_page_start(result@),
    {
        proof {
            assert((number * PAGE_SIZE) % (PAGE_SIZE as int) == 0) by (nonlinear_arith)
                requires
                    PAGE_SIZE == 4096,
            ;
            lemma_canonical_form_keeps_alignment((number * PAGE_SIZE) as u64);
        }
        Page { start: VirtualAddress::new(number * PAGE_SIZE) }
    }

    /// The page that holds `address`.
    pub fn containing(address: VirtualAddress) -> (result: Page)
        ensures
            result@ == align_down_spec(address@, PAGE_SIZE),
            result.number() == address@ / PAGE_SIZE,
            is_page_start(result@),
            result@ <= address@ < result@ + PAGE_SIZE,
    {
        proof {
            lemma_page_size_power_of_two();
        }
        let aligned: VirtualAddress = address.align_down(PAGE_SIZE);
        Page { start: aligned }
    }

    /// The address at which the page starts.
    #[verifier::when_used_as_spec(spec_start_address)]
    pub fn start_address(&self) -> (result: VirtualAddress)
        ensures
            result == self.spec_start_address(),
            result@ == self@,
            is_page_start(result@),
    {
        proof {
            use_type_invariant(self);
        }
        self.start
    }

    /// The page's ordinal: its start address divided by the page size.
    #[verifier::when_used_as_spec(spec_number)]
    pub fn number(&self) -> (result: u64)
        ensures
            result == self@ / PAGE_SIZE,
            result * PAGE_SIZE == self@,
    {
        proof {
            use_type_invariant(self);
        }
        self.start.value() / PAGE_SIZE
    }

    /// The page as it is written in the log.
    pub fn to_string(&self) -> (text: String)
        ensures
            text@ == page_text(self@),
    {
        let mut text: String = String::from_str("Page(");
        let number: String = decimal_string(self.number());
        text.append(number.as_str());
        text.append(" @ ");
        let address: String = self.start.to_string();
        text.append(address.as_str());
        text.append(")");
        text
    }

    /// The page's place among all pages.
    pub fn index(&self) -> (result: u64)
        ensures
            result == page_index(self@),
            result < PAGE_COUNT,
            page_at_index(result as int) == self@,
    {
        proof {
            use_type_invariant(self);
            lemma_page_index_round_trip(self@);
        }
        (self.start.value() % 0x1_0000_0000_0000) / PAGE_SIZE
    }

    /// How many single steps lead from `start` to `end`: none if `end`
    /// lies before `start`.
    pub fn steps_between(start: &Page, end: &Page) -> (result: Option<u64>)
        ensures
            result == if start@ <= end@ {
                Some((page_index(end@) - page_index(start@)) as u64)
            } else {
                None
            },
    {
        proof {
            use_type_invariant(start);
            use_type_invariant(end);
            lemma_page_index_ordered(start@, end@);
        }
        let from: u64 = start.index();
        let to: u64 = end.index();
        if from <= to {
            Some(to - from)
        } else {
            None
        }
    }

    /// The page `count` steps behind `start`, if there is one.
    pub fn forward_checked(start: Page, count: u64) -> (result: Option<Page>)
        ensures
            match result {
                Some(page) => page_index(start@) + count < PAGE_COUNT && page@ == page_at_index(
                    page_index(start@) + count,
                ),
                None => page_index(start@) + count >= PAGE_COUNT,
            },
    {
        let from: u64 = start.index();
        if count >= PAGE_COUNT - from {
            return None;
        }
        Some(Page::with_number(from + count))
    }

    /// The page `count` steps before `start`, if there is one.
    pub fn backward_checked(start: Page, count: u64) -> (result: Option<Page>)
        ensures
            match result {
                Some(page) => count <= page_index(start@) && page@ == page_at_index(
                    page_index(start@) - count,
                ),
                None => count > page_index(start@),
            },
    {
        let from: u64 = start.index();
        if count > from {
            return None;
        }
        Some(Page::with_number(from - count))
    }
}

/// One frame of physical memory. Its view is the address at which it starts.
#[derive(Copy, Clone, Debug, Eq, PartialEq, Ord, Structural)]
pub struct Frame {
    start: PhysicalAddress,
}

impl PartialOrd for Frame {
    /// Frames are ordered by the addresses at which they start.
    fn partial_cmp(&self, other: &Self) -> (result: Option<Ordering>) {
        if self.start.value() < other.start.value() {
            Some(Ordering::Less)
        } else if self.start.value() == other.start.value() {
            Some(Ordering::Equal)
        } else {
            Some(Ordering::Greater)
        }
    }
}

impl PartialOrdSpecImpl for Frame {
    open spec fn obeys_partial_cmp_spec() -> bool {
        true
    }

    open spec fn partial_cmp_spec(&self, other: &Self) -> Option<Ordering> {
        if self@ < other@ {
            Some(Ordering::Less)
        } else if self@ == other@ {
            Some(Ordering::Equal)
        } else {
            Some(Ordering::Greater)
        }
    }
}

impl View for Frame {
    type V = u64;

    closed spec fn view(&self) -> u64 {
        self.start@
    }
}

impl Frame {
    /// The invariant of every frame: it starts at a multiple of the page
    /// size.
    #[verifier::type_invariant]
    pub open spec fn holds_frame_start(self) -> bool {
        is_frame_start(self@)
    }

    /// The address at which the frame starts.
    pub closed spec fn spec_start_address(&self) -> PhysicalAddress {
        self.start
    }

    /// The frame's ordinal: its start address divided by the page size.
    pub open spec fn spec_number(&self) -> u64 {
        (self@ / PAGE_SIZE) as u64
    }

    /// A frame's view is the value of its start address.
    pub broadcast proof fn lemma_start_address_view(self)
        ensures
            #[trigger] self.spec_start_address()@ == self@,
    {
    }

    /// Two frames that start at the same address are the same frame.
    pub proof fn lemma_view_injective(a: Self, b: Self)
        requires
            a@ == b@,
        ensures
            a == b,
    {
        PhysicalAddress::lemma_view_injective(a.start, b.start);
    }

    /// The frame that starts at `start`, if `start` is a multiple of the
    /// page size.
    pub fn new(start: PhysicalAddress) -> (result: Result<Frame, NotAlignedError>)
        ensures
            match result {
                Ok(frame) => start@ % PAGE_SIZE == 0 && frame.start_address() == start && frame@
                    == start@,
                Err(_) => start@ % PAGE_SIZE != 0,
            },
    {
        if !start.is_aligned(PAGE_SIZE) {
            return Err(NotAlignedError);
        }
        Ok(Frame { start })
    }

    /// The frame that starts at `start`, which the caller knows to be a
    /// multiple of the page size.
    pub(crate) fn starting_at(start: PhysicalAddress) -> (result: Frame)
        requires
            start@ % PAGE_SIZE == 0,
        ensures
            result@ == start@,
    {
        Frame { start }
    }

    /// The frame that holds `address`.
    pub fn containing(address: PhysicalAddress) -> (result: Frame)
        ensures
            result@ == align_down_spec(address@, PAGE_SIZE),
            result.number() == address@ / PAGE_SIZE,
            is_frame_start(result@),
            result@ <= address@ < result@ + PAGE_SIZE,
    {
        proof {
            lemma_page_size_power_of_two();
        }
        let aligned: PhysicalAddress = address.align_down(PAGE_SIZE);
        Frame { start: aligned }
    }

    /// The address at which the frame starts.
    #[verifier::when_used_as_spec(spec_start_address)]
    pub fn start_address(&self) -> (result: PhysicalAddress)
        ensures
            result == self.spec_start_address(),
            result@ == self@,
            is_frame_start(result@),
    {
        proof {
            use_type_invariant(self);
        }
        self.start
    }

    /// The frame's ordinal: its start address divided by the page size.
    #[verifier::when_used_as_spec(spec_number)]
    pub fn number(&self) -> (result: u64)
        ensures
            result == self@ / PAGE_SIZE,
            result * PAGE_SIZE == self@,
    {
        proof {
            use_type_invariant(self);
        }
        self.start.value() / PAGE_SIZE
    }

    /// The frame as it is written in the log.
    pub fn to_string(&self) -> (text: String)
        ensures
            text@ == frame_text(self@),
    {
        let mut text: String = String::from_str("Frame(");
        let number: String = decimal_string(self.number());
        text.append(number.as_str());
        text.append(" @ ");
        let address: String = self.start.to_string();
        text.append(address.as_str());
        text.append(")");
        text
    }

    /// The frame whose start is `number` page sizes from address zero.
    pub fn with_number(number: u64) -> (result: Frame)
        requires
            number < FRAME_COUNT,
        ensures
            result@ == frame_at_index(number as int),
            result@ == number * PAGE_SIZE,
    {
        Frame { start: PhysicalAddress::new(number * PAGE_SIZE) }
    }

    /// How many single steps lead from `start` to `end`: none if `end`
    /// lies before `start`.
    pub fn steps_between(start: &Frame, end: &Frame) -> (result: Option<u64>)
        ensures
            result == if start@ <= end@ {
                Some((frame_index(end@) - frame_index(start@)) as u64)
            } else {
                None
            },
    {
        proof {
            use_type_invariant(start);
            use_type_invariant(end);
        }
        let from: u64 = start.number();
        let to: u64 = end.number();
        if from <= to {
            Some(to - from)
        } else {
            None
        }
    }

    /// The frame `count` steps behind `start`, if there is one.
    pub fn forward_checked(start: Frame, count: u64) -> (result: Option<Frame>)
        ensures
            match result {
                Some(frame) => frame_index(start@) + count < FRAME_COUNT && frame@
                    == frame_at_index(frame_index(start@) + count),
                None => frame_index(start@) + count >= FRAME_COUNT,
            },
    {
        let from: u64 = start.number();
        if count >= FRAME_COUNT - from {
            return None;
        }
        Some(Frame::with_number(from + count))
    }

    /// The frame `count` steps before `start`, if there is one.
    pub fn backward_checked(start: Frame, count: u64) -> (result: Option<Frame>)
        ensures
            match result {
                Some(frame) => count <= frame_index(start@) && frame@ == frame_at_index(
                    frame_index(start@) - count,
                ),
                None => count > frame_index(start@),
            },
    {
        let from: u64 = start.number();
        if count > from {
            return None;
        }
        Some(Frame::with_number(from - count))
    }
}

} // verus!
