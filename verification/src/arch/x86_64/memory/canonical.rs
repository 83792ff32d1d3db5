use vstd::prelude::*;

verus! {

/// The size in bytes of the smallest page the processor translates.
pub const PAGE_SIZE: u64 = 4096;

/// Whether `addr` is in the form the processor accepts: bits 48 to 63 all
/// repeat bit 47. These are the addresses of the lower and the upper half.
pub open spec fn is_canonical(addr: u64) -> bool {
    addr < 0x8000_0000_0000 || addr >= 0xFFFF_8000_0000_0000
}

/// The canonical address that shares its low 48 bits with `addr`: the sign
/// extension of bit 47 into bits 48 to 63.
pub open spec fn canonical_form(addr: u64) -> u64 {
    let low = addr % 0x1_0000_0000_0000;
    if low < 0x8000_0000_0000 {
        low as u64
    } else {
        (low + 0xFFFF_0000_0000_0000) as u64
    }
}

/// Canonicalising yields a canonical address, and leaves exactly the
/// canonical addresses unchanged; so canonicalising twice is the same as
/// canonicalising once.
pub proof fn lemma_canonical_form_idempotent(addr: u64)
    ensures
        is_canonical(canonical_form(addr)),
        is_canonical(addr) <==> canonical_form(addr) == addr,
        canonical_form(canonical_form(addr)) == canonical_form(addr),
{
}

/// Normalises `addr` to canonical form by sign-extending bit 47.
pub fn canonicalize_virtual_address(addr: u64) -> (result: u64)
    ensures
        result == canonical_form(addr),
        is_canonical(result),
{
    proof {
        lemma_canonical_bits(addr);
    }
    if addr & 0x8000_0000_0000 == 0 {
        addr & 0x0000_FFFF_FFFF_FFFF
    } else {
        addr | 0xFFFF_0000_0000_0000
    }
}

proof fn lemma_canonical_bits(addr: u64)
    ensures
        addr & 0x8000_0000_0000 == 0 ==> addr & 0x0000_FFFF_FFFF_FFFF == canonical_form(addr),
        addr & 0x8000_0000_0000 != 0 ==> addr | 0xFFFF_0000_0000_0000 == canonical_form(addr),
{
    assert(addr & 0x8000_0000_0000 == 0 ==> addr & 0x0000_FFFF_FFFF_FFFF == addr
        % 0x1_0000_0000_0000 && addr % 0x1_0000_0000_0000 < 0x8000_0000_0000) by (bit_vector);
    assert(addr & 0x8000_0000_0000 != 0 ==> addr | 0xFFFF_0000_0000_0000 == (addr
        % 0x1_0000_0000_0000) + 0xFFFF_0000_0000_0000 && addr % 0x1_0000_0000_0000
        >= 0x8000_0000_0000) by (bit_vector);
}

} // verus!
