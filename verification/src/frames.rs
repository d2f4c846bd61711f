use vstd::prelude::*;
use bootloader::bootinfo::FrameRange;
use crate::addr::{frame_containing, phys_limit};

verus! {

/// The kind of a region of physical memory, as the bootloader reports it.
#[derive(Clone, Copy, Debug, PartialEq, Eq, Structural)]
pub enum MemoryRegionType {
    Usable,
    InUse,
    Reserved,
    AcpiReclaimable,
    AcpiNvs,
    BadMemory,
    Kernel,
    KernelStack,
    PageTable,
    Bootloader,
    FrameZero,
    Empty,
    BootInfo,
    Package,
    NonExhaustive,
}

/// A region of physical memory: the 4 KiB frames numbered `start_frame_number` up to (not
/// including) `end_frame_number`, and what they are used for.
#[derive(Clone, Copy, Debug)]
pub struct MemoryRegion {
    pub start_frame_number: u64,
    pub end_frame_number: u64,
    pub region_type: MemoryRegionType,
}

/// Frame numbers below this one start at valid physical addresses.
pub open spec fn frame_number_limit() -> int {
    phys_limit() / 4096
}

pub open spec fn usable(r: MemoryRegion) -> bool {
    r.region_type == MemoryRegionType::Usable
}

/// A memory map that the allocator can walk: every usable region lies below the 52-bit
/// physical address limit.
pub open spec fn valid_memory_map(regions: Seq<MemoryRegion>) -> bool {
    forall|i: int|
        0 <= i < regions.len() && usable(#[trigger] regions[i]) ==> regions[i].start_frame_number
            <= frame_number_limit() && regions[i].end_frame_number <= frame_number_limit()
}

/// How many frames a region holds (none when it ends before it starts).
pub open spec fn frame_count(r: MemoryRegion) -> int {
    if r.end_frame_number > r.start_frame_number {
        r.end_frame_number - r.start_frame_number
    } else {
        0
    }
}

/// The start addresses of the frames of a region, in order.
pub open spec fn region_frames(r: MemoryRegion) -> Seq<u64> {
    Seq::new(frame_count(r) as nat, |k: int| ((r.start_frame_number + k) * 4096) as u64)
}

/// The start addresses of the frames of the usable regions, region after region: the frames
/// that the boot-info allocator hands out, in the order it hands them out.
pub open spec fn usable_frames(regions: Seq<MemoryRegion>) -> Seq<u64>
    decreases regions.len(),
{
    if regions.len() == 0 {
        Seq::empty()
    } else {
        let rest = usable_frames(regions.drop_first());
        if usable(regions[0]) {
            region_frames(regions[0]) + rest
        } else {
            rest
        }
    }
}

/// The frame at position `n` of `frames`, if there is one.
pub open spec fn frame_at(frames: Seq<u64>, n: int) -> Option<u64> {
    if 0 <= n < frames.len() {
        Some(frames[n])
    } else {
        None
    }
}

/// `FrameRange::start_addr` of bootloader: the address where the region's first frame
/// starts, its frame number times 4096.
#[verifier::external_body]
fn range_start_addr(start_frame_number: u64, end_frame_number: u64) -> (addr: u64)
    requires
        start_frame_number * 4096 <= u64::MAX,
    ensures
        addr == start_frame_number * 4096,
{
    FrameRange { start_frame_number, end_frame_number }.start_addr()
}

/// `FrameRange::end_addr` of bootloader: the address where the region ends, its end frame
/// number times 4096.
#[verifier::external_body]
fn range_end_addr(start_frame_number: u64, end_frame_number: u64) -> (addr: u64)
    requires
        end_frame_number * 4096 <= u64::MAX,
    ensures
        addr == end_frame_number * 4096,
{
    FrameRange { start_frame_number, end_frame_number }.end_addr()
}

/// The `n`-th frame of the usable regions of `regions`, or `None` when they hold fewer frames.
pub fn nth_usable_frame(regions: &[MemoryRegion], n: usize) -> (frame: Option<u64>)
    requires
        valid_memory_map(regions@),
    ensures
        frame == frame_at(usable_frames(regions@), n as int),
{
    let ghost all = usable_frames(regions@);
    let ghost mut before: Seq<u64> = Seq::empty();
    let mut m = n;
    let mut i: usize = 0;
    assert(regions@.skip(0) =~= regions@);
    while i < regions.len()
        invariant
            i <= regions.len(),
            valid_memory_map(regions@),
            all == usable_frames(regions@),
            all == before + usable_frames(regions@.skip(i as int)),
            n == before.len() + m,
        decreases regions.len() - i,
    {
        let ghost here = regions@.skip(i as int);
        assert(here.drop_first() =~= regions@.skip(i + 1));
        assert(here[0] == regions@[i as int]);
        let r = regions[i];
        if r.region_type == MemoryRegionType::Usable {
            let start = range_start_addr(r.start_frame_number, r.end_frame_number);
            let end = range_end_addr(r.start_frame_number, r.end_frame_number);
            let count: u64 = if end > start {
                proof {
                    let s = r.start_frame_number as int;
                    let e = r.end_frame_number as int;
                    assert((e * 4096 - s * 4096) / 4096 == e - s) by (nonlinear_arith);
                }
                (end - start) / 4096
            } else {
                0
            };
            assert(count == frame_count(r));
            if (m as u64) < count {
                let addr = start + (m as u64) * 4096;
                assert(addr == (r.start_frame_number + m) * 4096);
                let f = frame_containing(addr);
                assert(f == addr);
                assert(all[n as int] == region_frames(r)[m as int]);
                return Some(f);
            }
            proof {
                before = before + region_frames(r);
            }
            assert(all =~= before + usable_frames(regions@.skip(i + 1)));
            m = m - (count as usize);
        } else {
            assert(usable_frames(here) == usable_frames(regions@.skip(i + 1)));
        }
        i = i + 1;
    }
    assert(usable_frames(regions@.skip(i as int)) =~= Seq::<u64>::empty());
    None
}

/// Whether the allocator can walk `regions`: every usable region lies below the 52-bit
/// physical address limit.
pub fn memory_map_is_valid(regions: &[MemoryRegion]) -> (valid: bool)
    ensures
        valid == valid_memory_map(regions@),
{
    let mut i: usize = 0;
    while i < regions.len()
        invariant
            i <= regions.len(),
            forall|j: int|
                0 <= j < i && usable(#[trigger] regions@[j]) ==> regions@[j].start_frame_number
                    <= frame_number_limit() && regions@[j].end_frame_number <= frame_number_limit(),
        decreases regions.len() - i,
    {
        let r = regions[i];
        if r.region_type == MemoryRegionType::Usable && (r.start_frame_number > 0x100_0000_0000
            || r.end_frame_number > 0x100_0000_0000) {
            return false;
        }
        i = i + 1;
    }
    true
}

/// A frame allocator that never hands out a frame.
pub struct EmptyFrameAllocator;

impl EmptyFrameAllocator {
    /// Always `None`: there is no frame to hand out.
    pub fn allocate_frame(&mut self) -> (frame: Option<u64>)
        ensures
            frame is None,
    {
        None
    }
}

/// A frame allocator that hands out the usable frames of the bootloader's memory map, one
/// after the other.
pub struct BootInfoFrameAllocator<'a> {
    memory_map: &'a [MemoryRegion],
    next: usize,
}

impl<'a> BootInfoFrameAllocator<'a> {
    /// The regions of the memory map that the allocator walks.
    pub closed spec fn regions(&self) -> Seq<MemoryRegion> {
        self.memory_map@
    }

    /// How many frames have been asked for so far.
    pub closed spec fn allocated(&self) -> nat {
        self.next as nat
    }

    pub closed spec fn wf(&self) -> bool {
        valid_memory_map(self.memory_map@)
    }

    /// An allocator over `memory_map` that has handed out nothing yet.
    pub fn init(memory_map: &'a [MemoryRegion]) -> (a: Self)
        requires
            valid_memory_map(memory_map@),
        ensures
            a.wf(),
            a.regions() == memory_map@,
            a.allocated() == 0,
    {
        BootInfoFrameAllocator { memory_map, next: 0 }
    }

    /// An allocator over `memory_map` that has already been asked for `allocated` frames: it
    /// goes on where such an allocator left off.
    pub fn resume(memory_map: &'a [MemoryRegion], allocated: usize) -> (a: Self)
        requires
            valid_memory_map(memory_map@),
        ensures
            a.wf(),
            a.regions() == memory_map@,
            a.allocated() == allocated,
    {
        BootInfoFrameAllocator { memory_map, next: allocated }
    }

    /// A well-formed allocator walks a valid memory map.
    pub proof fn lemma_wf_valid(&self)
        requires
            self.wf(),
        ensures
            valid_memory_map(self.regions()),
    {
    }

    /// How many frames have been asked for so far.
    pub fn allocated_count(&self) -> (n: usize)
        ensures
            n == self.allocated(),
    {
        self.next
    }

    /// The next usable frame: the `allocated()`-th frame of the usable regions, or `None`
    /// when they are used up. Every call counts, `None` or not.
    pub fn allocate_frame(&mut self) -> (frame: Option<u64>)
        requires
            old(self).wf(),
            old(self).allocated() < usize::MAX,
        ensures
            final(self).wf(),
            final(self).regions() == old(self).regions(),
            final(self).allocated() == old(self).allocated() + 1,
            frame == frame_at(usable_frames(old(self).regions()), old(self).allocated() as int),
    {
        let frame = nth_usable_frame(self.memory_map, self.next);
        self.next = self.next + 1;
        frame
    }
}

/// Every frame that the boot-info allocator can hand out starts on a 4 KiB boundary inside
/// a region that the memory map marks usable, below the physical address limit.
pub proof fn law_usable_frames_are_usable(regions: Seq<MemoryRegion>, k: int)
    requires
        valid_memory_map(regions),
        0 <= k < usable_frames(regions).len(),
    ensures
        ({
            let f = usable_frames(regions)[k];
            &&& f % 4096 == 0
            &&& f < phys_limit()
            &&& exists|i: int|
                0 <= i < regions.len() && (#[trigger] regions[i]).region_type
                    == MemoryRegionType::Usable && regions[i].start_frame_number * 4096 <= f
                    < regions[i].end_frame_number * 4096
        }),
    decreases regions.len(),
{
    let rest = regions.drop_first();
    assert(valid_memory_map(rest)) by {
        assert forall|i: int| 0 <= i < rest.len() && usable(#[trigger] rest[i]) implies rest[i].start_frame_number
            <= frame_number_limit() && rest[i].end_frame_number <= frame_number_limit() by {
            assert(rest[i] == regions[i + 1]);
        }
    }
    let here = if usable(regions[0]) { region_frames(regions[0]) } else { Seq::empty() };
    assert(usable_frames(regions) == here + usable_frames(rest));
    if k < here.len() {
        let r = regions[0];
        let s = r.start_frame_number as int;
        assert(usable(regions[0]));
        assert(s <= frame_number_limit());
        assert(s + k < r.end_frame_number);
        assert((s + k) * 4096 < 0x10_0000_0000_0000) by (nonlinear_arith)
            requires s + k < r.end_frame_number, r.end_frame_number <= 0x100_0000_0000;
        assert(usable_frames(regions)[k] == (s + k) * 4096);
        assert(((s + k) * 4096) % 4096 == 0) by (nonlinear_arith);
        assert(s * 4096 <= (s + k) * 4096 < r.end_frame_number * 4096) by (nonlinear_arith)
            requires 0 <= k, s + k < r.end_frame_number;
    } else {
        law_usable_frames_are_usable(rest, k - here.len());
        let f = usable_frames(regions)[k];
        assert(f == usable_frames(rest)[k - here.len()]);
        let i = choose|i: int|
            0 <= i < rest.len() && (#[trigger] rest[i]).region_type == MemoryRegionType::Usable
                && rest[i].start_frame_number * 4096 <= f < rest[i].end_frame_number * 4096;
        assert(regions[i + 1] == rest[i]);
    }
}

/// Every frame of every region that the memory map marks `Usable` is handed out at some
/// point: none of them is skipped.
pub proof fn law_usable_region_frames_handed_out(regions: Seq<MemoryRegion>, i: int, n: int)
    requires
        0 <= i < regions.len(),
        regions[i].region_type == MemoryRegionType::Usable,
        regions[i].start_frame_number <= n < regions[i].end_frame_number,
    ensures
        usable_frames(regions).contains((n * 4096) as u64),
    decreases regions.len(),
{
    let rest = regions.drop_first();
    let here = if usable(regions[0]) { region_frames(regions[0]) } else { Seq::empty() };
    assert(usable_frames(regions) == here + usable_frames(rest));
    if i == 0 {
        let k = n - regions[0].start_frame_number;
        assert(here[k] == (n * 4096) as u64);
        assert(usable_frames(regions)[k] == here[k]);
    } else {
        assert(rest[i - 1] == regions[i]);
        law_usable_region_frames_handed_out(rest, i - 1, n);
        let k = choose|k: int|
            0 <= k < usable_frames(rest).len() && usable_frames(rest)[k] == (n * 4096) as u64;
        assert(usable_frames(regions)[here.len() + k] == usable_frames(rest)[k]);
    }
}

/// No frame lies in two usable regions.
pub open spec fn usable_regions_disjoint(regions: Seq<MemoryRegion>) -> bool {
    forall|i: int, j: int|
        0 <= i < j < regions.len() && usable(#[trigger] regions[i]) && usable(#[trigger] regions[j])
            ==> regions[i].end_frame_number <= regions[j].start_frame_number
            || regions[j].end_frame_number <= regions[i].start_frame_number
}

/// When no frame lies in two usable regions, the boot-info allocator never hands out the
/// same frame twice: the frames it hands out, in order, are all different.
pub proof fn law_usable_frames_distinct(regions: Seq<MemoryRegion>)
    requires
        valid_memory_map(regions),
        usable_regions_disjoint(regions),
    ensures
        usable_frames(regions).no_duplicates(),
    decreases regions.len(),
{
    if regions.len() > 0 {
        let rest = regions.drop_first();
        assert(valid_memory_map(rest)) by {
            assert forall|i: int| 0 <= i < rest.len() && usable(#[trigger] rest[i]) implies rest[i].start_frame_number
                <= frame_number_limit() && rest[i].end_frame_number <= frame_number_limit() by {
                assert(rest[i] == regions[i + 1]);
            }
        }
        assert(usable_regions_disjoint(rest)) by {
            assert forall|i: int, j: int|
                0 <= i < j < rest.len() && usable(#[trigger] rest[i]) && usable(#[trigger] rest[j]) implies
                rest[i].end_frame_number <= rest[j].start_frame_number
                || rest[j].end_frame_number <= rest[i].start_frame_number by {
                assert(rest[i] == regions[i + 1]);
                assert(rest[j] == regions[j + 1]);
            }
        }
        law_usable_frames_distinct(rest);
        let r = regions[0];
        if usable(r) {
            let f = region_frames(r);
            let g = usable_frames(rest);
            let all = usable_frames(regions);
            assert(all == f + g);
            let s0 = r.start_frame_number as int;
            let e0 = r.end_frame_number as int;
            assert forall|a: int| 0 <= a < f.len() implies #[trigger] f[a] == (s0 + a) * 4096
                && s0 * 4096 <= f[a] < e0 * 4096 by {
                assert((s0 + a) * 4096 < 0x10_0000_0000_0000) by (nonlinear_arith)
                    requires s0 + a < e0, e0 <= 0x100_0000_0000, 0 <= a;
            }
            assert forall|b: int| 0 <= b < g.len() implies #[trigger] g[b] < s0 * 4096
                || e0 * 4096 <= g[b] by {
                law_usable_frames_are_usable(rest, b);
                let j = choose|j: int|
                    0 <= j < rest.len() && (#[trigger] rest[j]).region_type == MemoryRegionType::Usable
                        && rest[j].start_frame_number * 4096 <= g[b] < rest[j].end_frame_number * 4096;
                assert(rest[j] == regions[j + 1]);
            }
            assert forall|x: int, y: int| 0 <= x < all.len() && 0 <= y < all.len() && x != y implies all[x]
                != all[y] by {
                if x < f.len() && y < f.len() {
                    assert(all[x] == f[x]);
                    assert(all[y] == f[y]);
                } else if x < f.len() {
                    assert(all[x] == f[x]);
                    assert(all[y] == g[y - f.len()]);
                } else if y < f.len() {
                    assert(all[y] == f[y]);
                    assert(all[x] == g[x - f.len()]);
                } else {
                    assert(all[x] == g[x - f.len()]);
                    assert(all[y] == g[y - f.len()]);
                }
            }
        }
    }
}

/// Two calls of `allocate_frame` on one allocator never hand out the same frame when no frame
/// lies in two usable regions: the calls are the `n1`-th and `n2`-th ones (every call counts
/// and the regions never change), and the frames they return differ.
pub proof fn law_no_frame_handed_out_twice(a: BootInfoFrameAllocator, n1: int, n2: int)
    requires
        a.wf(),
        usable_regions_disjoint(a.regions()),
        n1 != n2,
    ensures
        ({
            let f1 = frame_at(usable_frames(a.regions()), n1);
            let f2 = frame_at(usable_frames(a.regions()), n2);
            f1 is Some && f2 is Some ==> f1->0 != f2->0
        }),
{
    law_usable_frames_distinct(a.regions());
}

} // verus!
