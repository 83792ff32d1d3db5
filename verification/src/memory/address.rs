use crate::arch::prelude::canonical_form;
use crate::arch::prelude::canonicalize_virtual_address;
use crate::arch::prelude::is_canonical;
use crate::memory::text::hexadecimal;
use crate::memory::text::hexadecimal_string;
use core::cmp::Ordering;
use vstd::arithmetic::div_mod::*;
use vstd::arithmetic::power2::*;
use vstd::bits::*;
use vstd::prelude::*;
use vstd::std_specs::cmp::PartialOrdSpecImpl;

verus! {

/// Whether `alignment` is a power of two.
pub open spec fn is_power_of_two(alignment: u64) -> bool {
    exists|k: nat| k < 64 && alignment == #[trigger] pow2(k)
}

/// The greatest multiple of `alignment` that is at most `value`.
pub open spec fn align_down_spec(value: u64, alignment: u64) -> u64 {
    (value - value % alignment) as u64
}

/// The least multiple of `alignment` that is at least `value`. It may lie
/// beyond the last address, so it is an `int`.
pub open spec fn align_up_spec(value: u64, alignment: u64) -> int {
    if value % alignment == 0 {
        value as int
    } else {
        value - value % alignment + alignment
    }
}

/// A power of two is at least one.
pub proof fn lemma_power_of_two_positive(alignment: u64)
    requires
        is_power_of_two(alignment),
    ensures
        alignment >= 1,
{
    let k = choose|k: nat| k < 64 && alignment == #[trigger] pow2(k);
    lemma_pow2_pos(k);
}

/// Clearing the bits below a power of two rounds down to a multiple of it.
pub proof fn lemma_align_down_bits(value: u64, alignment: u64)
    requires
        is_power_of_two(alignment),
    ensures
        alignment >= 1,
        value & !((alignment - 1) as u64) == align_down_spec(value, alignment),
{
    let k = choose|k: nat| k < 64 && alignment == #[trigger] pow2(k);
    lemma_pow2_pos(k);
    lemma_u64_pow2_no_overflow(k);
    let mask: u64 = (alignment - 1) as u64;
    assert(mask == low_bits_mask(k) as u64);
    lemma_u64_low_bits_mask_is_mod(value, k);
    assert(value & mask == value % alignment);
    assert(value & !mask == value - (value & mask)) by (bit_vector);
}

/// Adding the alignment less one and then rounding down rounds up.
pub proof fn lemma_align_up_bits(value: u64, alignment: u64)
    requires
        is_power_of_two(alignment),
        value + alignment - 1 <= u64::MAX,
    ensures
        alignment >= 1,
        ((value + (alignment - 1)) as u64) & !((alignment - 1) as u64) == align_up_spec(
            value,
            alignment,
        ),
{
    lemma_power_of_two_positive(alignment);
    let bumped: u64 = (value + (alignment - 1)) as u64;
    lemma_align_down_bits(bumped, alignment);
    let a: int = alignment as int;
    let q: int = value as int / a;
    let r: int = value as int % a;
    lemma_fundamental_div_mod(value as int, a);
    assert(value == a * q + r);
    if r == 0 {
        lemma_fundamental_div_mod_converse(bumped as int, a, q, a - 1);
    } else {
        assert(a * (q + 1) == a * q + a) by (nonlinear_arith);
        lemma_fundamental_div_mod_converse(bumped as int, a, q + 1, r - 1);
    }
}

/// Rounding a canonical address down to a power of two that is at most
/// half the 48-bit space keeps it canonical.
pub proof fn lemma_align_down_canonical(value: u64, alignment: u64)
    requires
        is_power_of_two(alignment),
        alignment <= 0x8000_0000_0000,
        is_canonical(value),
    ensures
        is_canonical(align_down_spec(value, alignment)),
{
    lemma_power_of_two_positive(alignment);
    let a: int = alignment as int;
    if value >= 0xFFFF_8000_0000_0000 {
        let k = choose|k: nat| k < 64 && alignment == #[trigger] pow2(k);
        lemma2_to64_rest();
        if k > 47 {
            lemma_pow2_strictly_increases(47, k);
        }
        lemma_pow2_adds(k, (47 - k) as nat);
        let c: int = pow2((47 - k) as nat) as int * 0x1FFFF;
        let upper: int = 0xFFFF_8000_0000_0000;
        assert(upper == a * c) by (nonlinear_arith)
            requires
                pow2(47) == 0x8000_0000_0000,
                pow2(47) == a * pow2((47 - k) as nat),
                c == pow2((47 - k) as nat) as int * 0x1FFFF,
                upper == 0xFFFF_8000_0000_0000,
        ;
        lemma_div_multiples_vanish(c, a);
        assert(upper / a == c);
        lemma_div_is_ordered(upper, value as int, a);
        assert(value as int / a >= c);
        lemma_fundamental_div_mod(value as int, a);
        assert(a * (value as int / a) >= a * c) by (nonlinear_arith)
            requires
                value as int / a >= c,
                a >= 1,
        ;
        assert(value - value % alignment >= upper);
    } else {
        lemma_mod_bound(value as int, a);
        lemma_mod_decreases(value as nat, alignment as nat);
    }
}

/// How a physical address is written in the log: its value in hexadecimal
/// between the marks of a physical address.
pub open spec fn physical_address_text(value: u64) -> Seq<char> {
    "0x0x"@ + hexadecimal(value as nat) + "phys"@
}

/// How a virtual address is written in the log: its value in hexadecimal
/// between the marks of a virtual address.
pub open spec fn virtual_address_text(value: u64) -> Seq<char> {
    "0x0x"@ + hexadecimal(value as nat) + "virt"@
}

/// An address in physical memory: an opaque machine word.
#[derive(Copy, Clone, PartialEq, Eq, Ord, Debug, Structural)]
pub struct PhysicalAddress(u64);

impl PartialOrd for PhysicalAddress {
    /// Physical addresses are ordered by their values.
    fn partial_cmp(&self, other: &Self) -> (result: Option<Ordering>) {
        if self.0 < other.0 {
            Some(Ordering::Less)
        } else if self.0 == other.0 {
            Some(Ordering::Equal)
        } else {
            Some(Ordering::Greater)
        }
    }
}

impl PartialOrdSpecImpl for PhysicalAddress {
    open spec fn obeys_partial_cmp_spec() -> bool {
        true
    }

    open spec fn partial_cmp_spec(&self, other: &Self) -> Option<Ordering> {
        if self@ < other@ {
            Some(Ordering::Less)
        } else if self@ == other@ {
            Some(Ordering::Equal)
        } else {
            Some(Ordering::Greater)
        }
    }
}

impl View for PhysicalAddress {
    type V = u64;

    closed spec fn view(&self) -> u64 {
        self.0
    }
}

impl PhysicalAddress {
    /// Two physical addresses with the same value are the same address.
    pub proof fn lemma_view_injective(a: Self, b: Self)
        requires
            a@ == b@,
        ensures
            a == b,
    {
    }

    pub fn new(value: u64) -> (result: Self)
        ensures
            result@ == value,
    {
        Self(value)
    }

    pub fn value(&self) -> (result: u64)
        ensures
            result == self@,
    {
        self.0
    }

    /// The address as it is written in the log.
    pub fn to_string(&self) -> (text: String)
        ensures
            text@ == physical_address_text(self@),
    {
        let mut text: String = String::from_str("0x0x");
        let digits: String = hexadecimal_string(self.0);
        text.append(digits.as_str());
        text.append("phys");
        text
    }

    /// Whether the address is a multiple of `alignment`.
    pub fn is_aligned(&self, alignment: u64) -> (result: bool)
        requires
            alignment != 0,
        ensures
            result == (self@ % alignment == 0),
    {
        self.value() % alignment == 0
    }

    /// Rounds the address down to a multiple of `alignment`.
    pub fn align_down(&self, alignment: u64) -> (result: Self)
        requires
            is_power_of_two(alignment),
        ensures
            result@ == align_down_spec(self@, alignment),
    {
        proof {
            lemma_align_down_bits(self@, alignment);
        }
        Self::new(self.value() & !(alignment - 1))
    }

    /// Rounds the address up to a multiple of `alignment`.
    pub fn align_up(&self, alignment: u64) -> (result: Self)
        requires
            is_power_of_two(alignment),
            self@ + alignment - 1 <= u64::MAX,
        ensures
            result@ == align_up_spec(self@, alignment),
    {
        proof {
            lemma_align_up_bits(self@, alignment);
        }
        Self::new((self.value() + (alignment - 1)) & !(alignment - 1))
    }
}

impl core::ops::Add<u64> for PhysicalAddress {
    type Output = Self;

    /// The address `rhs` bytes further on.
    fn add(self, rhs: u64) -> (result: Self)
        ensures
            result@ == self@ + rhs,
    {
        Self(self.0 + rhs)
    }
}

impl vstd::std_specs::ops::AddSpecImpl<u64> for PhysicalAddress {
    open spec fn obeys_add_spec() -> bool {
        true
    }

    open spec fn add_req(self, rhs: u64) -> bool {
        self@ + rhs <= u64::MAX
    }

    closed spec fn add_spec(self, rhs: u64) -> Self {
        PhysicalAddress((self.0 + rhs) as u64)
    }
}

impl core::ops::Sub<u64> for PhysicalAddress {
    type Output = Self;

    /// The address `rhs` bytes before.
    fn sub(self, rhs: u64) -> (result: Self)
        ensures
            result@ == self@ - rhs,
    {
        Self(self.0 - rhs)
    }
}

impl vstd::std_specs::ops::SubSpecImpl<u64> for PhysicalAddress {
    open spec fn obeys_sub_spec() -> bool {
        true
    }

    open spec fn sub_req(self, rhs: u64) -> bool {
        rhs <= self@
    }

    closed spec fn sub_spec(self, rhs: u64) -> Self {
        PhysicalAddress((self.0 - rhs) as u64)
    }
}

/// An address in virtual memory, always held in canonical form.
#[derive(Copy, Clone, PartialEq, Eq, Ord, Debug, Structural)]
pub struct VirtualAddress(u64);

impl PartialOrd for VirtualAddress {
    /// Virtual addresses are ordered by their values.
    fn partial_cmp(&self, other: &Self) -> (result: Option<Ordering>) {
        if self.0 < other.0 {
            Some(Ordering::Less)
        } else if self.0 == other.0 {
            Some(Ordering::Equal)
        } else {
            Some(Ordering::Greater)
        }
    }
}

impl PartialOrdSpecImpl for VirtualAddress {
    open spec fn obeys_partial_cmp_spec() -> bool {
        true
    }

    open spec fn partial_cmp_spec(&self, other: &Self) -> Option<Ordering> {
        if self@ < other@ {
            Some(Ordering::Less)
        } else if self@ == other@ {
            Some(Ordering::Equal)
        } else {
            Some(Ordering::Greater)
        }
    }
}

impl View for VirtualAddress {
    type V = u64;

    closed spec fn view(&self) -> u64 {
        self.0
    }
}

impl VirtualAddress {
    /// The invariant of every virtual address: it is canonical.
    #[verifier::type_invariant]
    pub open spec fn holds_canonical(self) -> bool {
        is_canonical(self@)
    }

    /// The address whose value is `value`.
    pub closed spec fn holding(value: u64) -> Self {
        VirtualAddress(value)
    }

    /// Two virtual addresses with the same value are the same address.
    pub proof fn lemma_view_injective(a: Self, b: Self)
        requires
            a@ == b@,
        ensures
            a == b,
    {
    }

    /// The address with the value `value`, which the caller knows to be
    /// canonical.
    pub(crate) fn canonical(value: u64) -> (result: Self)
        requires
            is_canonical(value),
        ensures
            result@ == value,
    {
        Self(value)
    }

    /// The address that `value` names once it is brought to canonical form.
    pub fn new(value: u64) -> (result: Self)
        ensures
            result@ == canonical_form(value),
            is_canonical(result@),
    {
        let value: u64 = canonicalize_virtual_address(value);
        Self(value)
    }

    pub fn value(&self) -> (result: u64)
        ensures
            result == self@,
            is_canonical(result),
    {
        proof {
            use_type_invariant(self);
        }
        self.0
    }

    /// The address as it is written in the log.
    pub fn to_string(&self) -> (text: String)
        ensures
            text@ == virtual_address_text(self@),
    {
        let mut text: String = String::from_str("0x0x");
        let digits: String = hexadecimal_string(self.0);
        text.append(digits.as_str());
        text.append("virt");
        text
    }

    /// Whether the address is a multiple of `alignment`.
    pub fn is_aligned(&self, alignment: u64) -> (result: bool)
        requires
            alignment != 0,
        ensures
            result == (self@ % alignment == 0),
    {
        self.value() % alignment == 0
    }

    /// Rounds the address down to a multiple of `alignment`.
    pub fn align_down(&self, alignment: u64) -> (result: Self)
        requires
            is_power_of_two(alignment),
        ensures
            result@ == canonical_form(align_down_spec(self@, alignment)),
            alignment <= 0x8000_0000_0000 ==> result@ == align_down_spec(self@, alignment),
            is_canonical(result@),
    {
        proof {
            use_type_invariant(self);
            lemma_align_down_bits(self@, alignment);
            if alignment <= 0x8000_0000_0000 {
                lemma_align_down_canonical(self@, alignment);
            }
        }
        Self::new(self.value() & !(alignment - 1))
    }

    /// Rounds the address up to a multiple of `alignment` and brings the
    /// result to canonical form.
    pub fn align_up(&self, alignment: u64) -> (result: Self)
        requires
            is_power_of_two(alignment),
            self@ + alignment - 1 <= u64::MAX,
        ensures
            result@ == canonical_form(align_up_spec(self@, alignment) as u64),
            is_canonical(result@),
    {
        proof {
            lemma_align_up_bits(self@, alignment);
        }
        Self::new((self.value() + (alignment - 1)) & !(alignment - 1))
    }
}

impl core::ops::Add<u64> for VirtualAddress {
    type Output = Self;

    /// The address `rhs` bytes further on.
    fn add(self, rhs: u64) -> (result: Self)
        ensures
            result@ == self@ + rhs,
    {
        Self(self.0 + rhs)
    }
}

impl vstd::std_specs::ops::AddSpecImpl<u64> for VirtualAddress {
    open spec fn obeys_add_spec() -> bool {
        true
    }

    /// The sum must be an address, and a canonical one.
    open spec fn add_req(self, rhs: u64) -> bool {
        self@ + rhs <= u64::MAX && is_canonical((self@ + rhs) as u64)
    }

    open spec fn add_spec(self, rhs: u64) -> Self {
        VirtualAddress::holding((self@ + rhs) as u64)
    }
}

impl core::ops::Sub<u64> for VirtualAddress {
    type Output = Self;

    /// The address `rhs` bytes before.
    fn sub(self, rhs: u64) -> (result: Self)
        ensures
            result@ == self@ - rhs,
    {
        Self(self.0 - rhs)
    }
}

impl vstd::std_specs::ops::SubSpecImpl<u64> for VirtualAddress {
    open spec fn obeys_sub_spec() -> bool {
        true
    }

    /// The difference must be an address, and a canonical one.
    open spec fn sub_req(self, rhs: u64) -> bool {
        rhs <= self@ && is_canonical((self@ - rhs) as u64)
    }

    open spec fn sub_spec(self, rhs: u64) -> Self {
        VirtualAddress::holding((self@ - rhs) as u64)
    }
}

} // verus!
