use vstd::prelude::*;
use crate::addr::{
    canonical, p1_index, p2_index, p3_index, p4_index, page_offset, phys_add, phys_valid,
    table_index, virt_add,
};

verus! {

/// What `PageTableEntry::frame` of x86_64 gives for an entry: the start address of the 4 KiB
/// frame that it maps, or why it maps none.
#[derive(Clone, Copy, Debug, PartialEq, Eq, Structural)]
pub enum FrameLookup {
    Frame(u64),
    /// The entry is not present.
    NotPresent,
    /// The entry maps a huge page, which this walk does not follow.
    HugeFrame,
}

/// What a page-table walk needs done next.
#[derive(Clone, Copy, Debug, PartialEq, Eq, Structural)]
pub enum WalkAction {
    /// Look up entry `index` of the page table that is mapped at virtual address `table`.
    ReadEntry { table: u64, index: u16 },
    /// Every level was walked; this is the frame that the last entry maps.
    Reached(u64),
    /// An entry on the way was not present.
    NotPresent,
    /// An entry on the way maps a huge page.
    HugeFrame,
    /// The next table would lie at a virtual address that is not canonical (or past the end
    /// of the address space), so it cannot be read.
    TableOutOfReach,
}

/// Why a walk stopped early.
#[derive(Clone, Copy, Debug, PartialEq, Eq, Structural)]
pub enum WalkStop {
    NotPresent,
    HugeFrame,
}

/// A physical address where a 4 KiB frame starts.
pub open spec fn frame_start(f: u64) -> bool {
    phys_valid(f as int) && f % 4096 == 0
}

/// The action for a walk of `addr`, with physical memory mapped at `phys_offset`, that has
/// passed `level` of its `depth` levels, stopped for `stop` or now at table frame `frame`.
pub open spec fn walk_action(
    addr: u64,
    phys_offset: u64,
    depth: nat,
    level: nat,
    frame: u64,
    stop: Option<WalkStop>,
) -> WalkAction {
    match stop {
        Some(WalkStop::NotPresent) => WalkAction::NotPresent,
        Some(WalkStop::HugeFrame) => WalkAction::HugeFrame,
        None => if level >= depth {
            WalkAction::Reached(frame)
        } else if canonical(phys_offset + frame) {
            WalkAction::ReadEntry {
                table: (phys_offset + frame) as u64,
                index: table_index(addr as int, 4 - level) as u16,
            }
        } else {
            WalkAction::TableOutOfReach
        },
    }
}

/// A walk down the page tables for one virtual address: from the top table (level 4) down
/// `depth` levels, each step reading one entry and following the frame that it maps.
pub struct PageWalk {
    addr: u64,
    phys_offset: u64,
    depth: usize,
    level: usize,
    frame: u64,
    stop: Option<WalkStop>,
}

impl PageWalk {
    pub closed spec fn addr(&self) -> u64 {
        self.addr
    }

    pub closed spec fn phys_offset(&self) -> u64 {
        self.phys_offset
    }

    pub closed spec fn depth(&self) -> nat {
        self.depth as nat
    }

    /// How many entries have been followed.
    pub closed spec fn level(&self) -> nat {
        self.level as nat
    }

    /// The frame that the walk has reached: the top table's at first.
    pub closed spec fn frame(&self) -> u64 {
        self.frame
    }

    pub closed spec fn stop(&self) -> Option<WalkStop> {
        self.stop
    }

    pub closed spec fn wf(&self) -> bool {
        &&& 1 <= self.depth <= 4
        &&& self.level <= self.depth
        &&& canonical(self.addr as int)
        &&& canonical(self.phys_offset as int)
        &&& frame_start(self.frame)
    }

    /// What the walk needs next.
    pub open spec fn next_action(&self) -> WalkAction {
        walk_action(self.addr(), self.phys_offset(), self.depth(), self.level(), self.frame(), self.stop())
    }

    /// Starts a walk for `addr` at the top table, which lies in frame `top_frame`.
    pub fn new(addr: u64, phys_offset: u64, top_frame: u64, depth: usize) -> (w: Self)
        requires
            canonical(addr as int),
            canonical(phys_offset as int),
            frame_start(top_frame),
            1 <= depth <= 4,
        ensures
            w.wf(),
            w.addr() == addr,
            w.phys_offset() == phys_offset,
            w.depth() == depth,
            w.level() == 0,
            w.frame() == top_frame,
            w.stop() is None,
    {
        PageWalk { addr, phys_offset, depth, level: 0, frame: top_frame, stop: None }
    }

    /// What the walk needs next: an entry to read, or how it ended.
    pub fn action(&self) -> (a: WalkAction)
        requires
            self.wf(),
        ensures
            a == self.next_action(),
    {
        match self.stop {
            Some(WalkStop::NotPresent) => WalkAction::NotPresent,
            Some(WalkStop::HugeFrame) => WalkAction::HugeFrame,
            None => {
                if self.level >= self.depth {
                    WalkAction::Reached(self.frame)
                } else if self.frame <= u64::MAX - self.phys_offset && (self.phys_offset
                    + self.frame <= 0x0000_7fff_ffff_ffff || self.phys_offset + self.frame
                    >= 0xffff_8000_0000_0000) {
                    let table = virt_add(self.phys_offset, self.frame);
                    let index = if self.level == 0 {
                        p4_index(self.addr)
                    } else if self.level == 1 {
                        p3_index(self.addr)
                    } else if self.level == 2 {
                        p2_index(self.addr)
                    } else {
                        p1_index(self.addr)
                    };
                    WalkAction::ReadEntry { table, index }
                } else {
                    WalkAction::TableOutOfReach
                }
            },
        }
    }

    /// Follows the entry that was read for the current `ReadEntry` action: its frame becomes
    /// the next table, or the walk stops when the entry maps none.
    pub fn advance(&mut self, lookup: FrameLookup)
        requires
            old(self).wf(),
            old(self).next_action() is ReadEntry,
            lookup matches FrameLookup::Frame(f) ==> frame_start(f),
        ensures
            final(self).wf(),
            final(self).addr() == old(self).addr(),
            final(self).phys_offset() == old(self).phys_offset(),
            final(self).depth() == old(self).depth(),
            final(self).level() == old(self).level() + 1,
            match lookup {
                FrameLookup::Frame(f) => final(self).frame() == f && final(self).stop() is None,
                FrameLookup::NotPresent => final(self).frame() == old(self).frame()
                    && final(self).stop() == Some(WalkStop::NotPresent),
                FrameLookup::HugeFrame => final(self).frame() == old(self).frame()
                    && final(self).stop() == Some(WalkStop::HugeFrame),
            },
    {
        self.level = self.level + 1;
        match lookup {
            FrameLookup::Frame(f) => {
                self.frame = f;
            },
            FrameLookup::NotPresent => {
                self.stop = Some(WalkStop::NotPresent);
            },
            FrameLookup::HugeFrame => {
                self.stop = Some(WalkStop::HugeFrame);
            },
        }
    }
}

/// The `USER_ACCESSIBLE` flag of a page-table entry (bit 2): ring 3 may use what the entry
/// maps.
pub const USER_ACCESSIBLE: u64 = 4;

/// The flags that `ensure_user_accessible` writes back into an entry on the way to an
/// address: its flags, with `USER_ACCESSIBLE` added and every other bit kept.
pub fn user_accessible_flags(flags: u64) -> (f: u64)
    ensures
        f == flags | USER_ACCESSIBLE,
        f & USER_ACCESSIBLE == USER_ACCESSIBLE,
        f & !USER_ACCESSIBLE == flags & !USER_ACCESSIBLE,
{
    let f = flags | USER_ACCESSIBLE;
    assert(f & 4 == 4 && f & !4u64 == flags & !4u64) by (bit_vector)
        requires
            f == flags | 4;
    f
}

/// The physical address that `addr` translates to when its page lies in frame `frame`:
/// the frame's start plus the offset of `addr` in its page.
pub open spec fn translation(addr: u64, frame: u64) -> int {
    frame + addr % 4096
}

/// The physical address for `addr` once the walk has reached its page's `frame`.
pub fn translated_address(addr: u64, frame: u64) -> (phys: u64)
    requires
        canonical(addr as int),
        frame_start(frame),
    ensures
        phys == translation(addr, frame),
{
    let offset = page_offset(addr);
    phys_add(frame, offset)
}

/// A translated address lies in the frame that the walk reached, at the same offset as the
/// virtual address in its page.
pub proof fn law_translation_keeps_page_offset(addr: u64, frame: u64)
    requires
        frame_start(frame),
    ensures
        phys_valid(translation(addr, frame)),
        translation(addr, frame) % 4096 == addr % 4096,
        translation(addr, frame) - translation(addr, frame) % 4096 == frame,
{
}

/// A walk reads one entry per level, with the index that `addr` gives for that level, from
/// the table that the previous entry mapped; it never reads past its depth, and once it has
/// stopped it reads nothing more.
pub proof fn law_walk_reads(w: PageWalk)
    requires
        w.wf(),
    ensures
        w.next_action() matches WalkAction::ReadEntry { table, index } ==> {
            &&& w.stop() is None
            &&& w.level() < w.depth()
            &&& table == w.phys_offset() + w.frame()
            &&& index == table_index(w.addr() as int, 4 - w.level())
            &&& index < 512
        },
        w.level() >= w.depth() && w.stop() is None ==> w.next_action() == WalkAction::Reached(w.frame()),
{
}

/// A walk that met an entry that is not present, or one that maps a huge page, reports
/// exactly that, at whatever level it stopped; it reports the frame it reached only when no
/// entry stopped it and every level was walked. So an address whose entry at any level is not
/// present never translates.
pub proof fn law_walk_stops(w: PageWalk)
    requires
        w.wf(),
    ensures
        w.stop() == Some(WalkStop::NotPresent) ==> w.next_action() == WalkAction::NotPresent,
        w.stop() == Some(WalkStop::HugeFrame) ==> w.next_action() == WalkAction::HugeFrame,
        w.next_action() is Reached ==> w.stop() is None && w.level() >= w.depth()
            && w.next_action() == WalkAction::Reached(w.frame()),
        w.stop() is None && w.level() < w.depth() ==> (w.next_action() is ReadEntry
            || w.next_action() is TableOutOfReach),
{
}

} // verus!
