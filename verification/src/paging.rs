//! Copy-on-write page faults: which faults are candidates, the four-level walk to the
//! faulting page's entry, and the entry that replaces a copy-on-write one.
//!
//! Reading the page tables and copying the page are the caller's.
use vstd::prelude::*;

verus! {

pub const PTE_PRESENT: u64 = 1;
pub const PTE_WRITABLE: u64 = 2;
/// The page-table entry bits that hold a frame's address (bits 12 and up).
pub const FRAME_MASK: u64 = 0xFFFF_FFFF_FFFF_F000;
/// First address above the lower (user) half.
pub const USER_TOP: u64 = 0x0000_8000_0000_0000;

/// A fault can be a copy-on-write fault: a write (error-code bit 1) to a user address.
pub fn is_cow_candidate(error_code: u64, fault_addr: u64) -> (res: bool)
    ensures
        res == (error_code & 2 != 0 && fault_addr < USER_TOP),
{
    error_code & 2 != 0 && fault_addr < USER_TOP
}

/// The index into the table at `level` (3 = PML4 down to 0 = PT) for `addr`:
/// nine bits starting at bit 12 + 9 * level.
pub open spec fn spec_walk_index(addr: u64, level: u64) -> u64 {
    (addr >> (12 + 9 * level)) & 0x1FF
}

pub fn walk_index(addr: u64, level: u64) -> (res: u64)
    requires
        level <= 3,
    ensures
        res == spec_walk_index(addr, level),
        res < 512,
{
    let r = (addr >> (12 + 9 * level)) & 0x1FF;
    assert(r < 512) by (bit_vector)
        requires
            r == (addr >> (12 + 9 * level)) & 0x1FF,
    ;
    r
}

/// The table or frame an entry points to, where the entry is present.
pub fn next_table(entry: u64) -> (res: Option<u64>)
    ensures
        match res {
            Some(p) => entry & PTE_PRESENT != 0 && p == entry & FRAME_MASK,
            None => entry & PTE_PRESENT == 0,
        },
{
    if entry & PTE_PRESENT == 0 { None } else { Some(entry & FRAME_MASK) }
}

/// The entry is present and marked copy-on-write with `cow_bit`.
pub fn is_cow_entry(pte: u64, cow_bit: u64) -> (res: bool)
    ensures
        res == (pte & PTE_PRESENT != 0 && pte & cow_bit != 0),
{
    pte & PTE_PRESENT != 0 && pte & cow_bit != 0
}

/// The entry that maps the private copy at `new_phys`: the old entry's flag bits
/// without the copy-on-write bit, made writable.
pub open spec fn spec_cow_resolved(pte: u64, new_phys: u64, cow_bit: u64) -> u64 {
    new_phys | (pte & !(FRAME_MASK | cow_bit)) | PTE_WRITABLE
}

pub fn cow_resolved(pte: u64, new_phys: u64, cow_bit: u64) -> (res: u64)
    requires
        new_phys & !FRAME_MASK == 0,
        cow_bit & FRAME_MASK == 0,
    ensures
        res == spec_cow_resolved(pte, new_phys, cow_bit),
        res & FRAME_MASK == new_phys,
        res & PTE_WRITABLE != 0,
        cow_bit & PTE_WRITABLE == 0 ==> res & cow_bit == 0,
        res & !(FRAME_MASK | cow_bit | PTE_WRITABLE) == pte & !(FRAME_MASK | cow_bit | PTE_WRITABLE),
{
    let r = new_phys | (pte & !(FRAME_MASK | cow_bit)) | PTE_WRITABLE;
    assert(r & 0xFFFF_FFFF_FFFF_F000u64 == new_phys && r & 2 != 0
        && (cow_bit & 2 == 0 ==> r & cow_bit == 0)
        && r & !(0xFFFF_FFFF_FFFF_F000u64 | cow_bit | 2) == pte & !(0xFFFF_FFFF_FFFF_F000u64 | cow_bit | 2)) by (bit_vector)
        requires
            r == new_phys | (pte & !(0xFFFF_FFFF_FFFF_F000u64 | cow_bit)) | 2,
            new_phys & !0xFFFF_FFFF_FFFF_F000u64 == 0,
            cow_bit & 0xFFFF_FFFF_FFFF_F000u64 == 0,
    ;
    r
}

} // verus!
