use vstd::prelude::*;
use x86_64::structures::paging::{Page, PhysFrame, Size4KiB};
use x86_64::{PhysAddr, VirtAddr};

verus! {

/// One past the highest physical address: physical addresses have 52 bits.
pub open spec fn phys_limit() -> int {
    0x10_0000_0000_0000
}

/// A virtual address is canonical when bits 48 to 64 are copies of bit 47.
pub open spec fn canonical(addr: int) -> bool {
    (0 <= addr < 0x0000_8000_0000_0000) || (0xffff_8000_0000_0000 <= addr <= 0xffff_ffff_ffff_ffff)
}

/// A physical address is valid when none of its bits 52 to 64 is set.
pub open spec fn phys_valid(addr: int) -> bool {
    0 <= addr < phys_limit()
}

/// The start of the 4 KiB page or frame that holds `addr`.
pub open spec fn align_down_4k(addr: int) -> int {
    addr - addr % 4096
}

/// The index into the page table of level `level` (4 for the top table, down to 1) that
/// translating `addr` uses: 9 bits of `addr`, starting at bit `12 + 9 * (level - 1)`.
pub open spec fn table_index(addr: int, level: int) -> int {
    if level == 4 {
        (addr / 0x80_0000_0000) % 512
    } else if level == 3 {
        (addr / 0x4000_0000) % 512
    } else if level == 2 {
        (addr / 0x20_0000) % 512
    } else {
        (addr / 0x1000) % 512
    }
}

/// `Page::<Size4KiB>::containing_address(VirtAddr::new(addr)).start_address()` of x86_64:
/// the canonical `addr` aligned down to 4096.
#[verifier::external_body]
pub fn page_containing(addr: u64) -> (start: u64)
    requires
        canonical(addr as int),
    ensures
        start == align_down_4k(addr as int),
{
    Page::<Size4KiB>::containing_address(VirtAddr::new(addr)).start_address().as_u64()
}

/// `VirtAddr::new(base) + offset` of x86_64: the sum, for a canonical `base` and a sum that
/// neither overflows nor leaves the canonical addresses (x86_64 panics on those).
#[verifier::external_body]
pub fn virt_add(base: u64, offset: u64) -> (sum: u64)
    requires
        canonical(base as int),
        canonical(base + offset),
    ensures
        sum == base + offset,
{
    (VirtAddr::new(base) + offset).as_u64()
}

/// `VirtAddr::p4_index` of x86_64: bits 39 to 47 of a canonical address.
#[verifier::external_body]
pub fn p4_index(addr: u64) -> (index: u16)
    requires
        canonical(addr as int),
    ensures
        index == table_index(addr as int, 4),
{
    u16::from(VirtAddr::new(addr).p4_index())
}

/// `VirtAddr::p3_index` of x86_64: bits 30 to 38 of a canonical address.
#[verifier::external_body]
pub fn p3_index(addr: u64) -> (index: u16)
    requires
        canonical(addr as int),
    ensures
        index == table_index(addr as int, 3),
{
    u16::from(VirtAddr::new(addr).p3_index())
}

/// `VirtAddr::p2_index` of x86_64: bits 21 to 29 of a canonical address.
#[verifier::external_body]
pub fn p2_index(addr: u64) -> (index: u16)
    requires
        canonical(addr as int),
    ensures
        index == table_index(addr as int, 2),
{
    u16::from(VirtAddr::new(addr).p2_index())
}

/// `VirtAddr::p1_index` of x86_64: bits 12 to 20 of a canonical address.
#[verifier::external_body]
pub fn p1_index(addr: u64) -> (index: u16)
    requires
        canonical(addr as int),
    ensures
        index == table_index(addr as int, 1),
{
    u16::from(VirtAddr::new(addr).p1_index())
}

/// `VirtAddr::page_offset` of x86_64: the low 12 bits of a canonical address.
#[verifier::external_body]
pub fn page_offset(addr: u64) -> (offset: u64)
    requires
        canonical(addr as int),
    ensures
        offset == addr % 4096,
{
    u64::from(VirtAddr::new(addr).page_offset())
}

/// `PhysFrame::<Size4KiB>::containing_address(PhysAddr::new(addr)).start_address()` of
/// x86_64: the valid physical `addr` aligned down to 4096.
#[verifier::external_body]
pub fn frame_containing(addr: u64) -> (start: u64)
    requires
        phys_valid(addr as int),
    ensures
        start == align_down_4k(addr as int),
{
    PhysFrame::<Size4KiB>::containing_address(PhysAddr::new(addr)).start_address().as_u64()
}

/// `PhysAddr::new(base) + offset` of x86_64: the sum, for a sum that is still a valid
/// physical address (x86_64 panics otherwise).
#[verifier::external_body]
pub fn phys_add(base: u64, offset: u64) -> (sum: u64)
    requires
        phys_valid(base + offset),
    ensures
        sum == base + offset,
{
    (PhysAddr::new(base) + offset).as_u64()
}

} // verus!
